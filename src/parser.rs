//! The AST and the recursive-descent parser that builds it from tokens.
use vstd::prelude::*;
use vstd::string::StrSliceExecFns;

use crate::number::{number_text, Number};
use crate::text::strs_view;
use crate::tokenizer::{Token, TokenCont, TokenContV, TokenV};
use crate::{value_v, LyssCompError, Value, ValueV};

verus! {

/// A top-level expression and the lines it spans.
#[derive(Debug)]
pub struct Expr {
    pub line_span: std::ops::Range<usize>,
    pub cont: ExprCont,
}

/// A path of name segments; never empty when built by the parser.
#[derive(Debug)]
pub struct FnName(pub Vec<String>);

/// A call: a name path and its unevaluated arguments.
#[derive(Debug)]
pub struct Atom {
    pub line_span: std::ops::Range<usize>,
    pub fn_name: FnName,
    pub arguments: Vec<Argument>,
}

/// What can stand in an argument position.
#[derive(Debug)]
pub enum Argument {
    Var(String),
    Ident(FnName),
    Atom(Atom),
    Value(Value),
    Macro(MacroUse),
}

/// A quoted, unevaluated sequence of expressions.
#[derive(Debug)]
pub struct Code {
    pub line_span: std::ops::Range<usize>,
    pub exprs: Vec<Expr>,
}

#[derive(Debug)]
pub enum ExprCont {
    Atom(Atom),
    Macro(MacroUse),
}

/// A macro use: its name and its verbatim content.
#[derive(Debug)]
pub struct MacroUse {
    pub name: String,
    pub content: String,
}

// The mathematical content of the AST.
pub struct AtomV {
    pub start: nat,
    pub end: nat,
    pub fn_name: Seq<Seq<char>>,
    pub arguments: Seq<ArgumentV>,
}

pub enum ArgumentV {
    Var(Seq<char>),
    Ident(Seq<Seq<char>>),
    Atom(AtomV),
    Value(ValueV),
    Macro(MacroUseV),
}

pub struct MacroUseV {
    pub name: Seq<char>,
    pub content: Seq<char>,
}

pub struct CodeV {
    pub start: nat,
    pub end: nat,
    pub exprs: Seq<ExprV>,
}

pub struct ExprV {
    pub start: nat,
    pub end: nat,
    pub cont: ExprContV,
}

pub enum ExprContV {
    Atom(AtomV),
    Macro(MacroUseV),
}

pub open spec fn macro_v(m: MacroUse) -> MacroUseV {
    MacroUseV { name: m.name@, content: m.content@ }
}

pub open spec fn atom_v(a: Atom) -> AtomV
    decreases a, 1nat,
{
    AtomV {
        start: a.line_span.start as nat,
        end: a.line_span.end as nat,
        fn_name: strs_view(a.fn_name.0@),
        arguments: args_v(a.arguments@),
    }
}

pub open spec fn args_v(s: Seq<Argument>) -> Seq<ArgumentV>
    decreases s, 0nat,
{
    if s.len() == 0 {
        seq![]
    } else {
        args_v(s.drop_last()).push(arg_v(s.last()))
    }
}

pub open spec fn arg_v(a: Argument) -> ArgumentV
    decreases a, 2nat,
{
    match a {
        Argument::Var(s) => ArgumentV::Var(s@),
        Argument::Ident(p) => ArgumentV::Ident(strs_view(p.0@)),
        Argument::Atom(at) => ArgumentV::Atom(atom_v(at)),
        Argument::Value(v) => ArgumentV::Value(value_v(v)),
        Argument::Macro(m) => ArgumentV::Macro(macro_v(m)),
    }
}

pub open spec fn code_v(c: Code) -> CodeV
    decreases c, 1nat,
{
    CodeV { start: c.line_span.start as nat, end: c.line_span.end as nat, exprs: exprs_v(c.exprs@) }
}

pub open spec fn exprs_v(s: Seq<Expr>) -> Seq<ExprV>
    decreases s, 0nat,
{
    if s.len() == 0 {
        seq![]
    } else {
        exprs_v(s.drop_last()).push(expr_v(s.last()))
    }
}

pub open spec fn expr_v(e: Expr) -> ExprV
    decreases e, 2nat,
{
    ExprV {
        start: e.line_span.start as nat,
        end: e.line_span.end as nat,
        cont: match e.cont {
            ExprCont::Atom(a) => ExprContV::Atom(atom_v(a)),
            ExprCont::Macro(m) => ExprContV::Macro(macro_v(m)),
        },
    }
}


/// What remains of a token stream, consumed from the front.
pub struct TokenStream {
    rev: Vec<Token>,
}

impl View for TokenStream {
    type V = Seq<TokenV>;

    /// The remaining tokens, in order.
    closed spec fn view(&self) -> Seq<TokenV> {
        Seq::new(self.rev@.len(), |i: int| self.rev@[self.rev@.len() - 1 - i]@)
    }
}

impl TokenStream {
    /// A stream of the given tokens, first to last.
    pub fn new(tokens: Vec<Token>) -> (r: TokenStream)
        ensures
            r@ == crate::tokenizer::tokens_view(tokens@),
    {
        let ghost orig = tokens@;
        let mut tokens = tokens;
        let mut rev: Vec<Token> = Vec::new();
        while tokens.len() > 0
            invariant
                rev@.len() + tokens@.len() == orig.len(),
                tokens@ == orig.take(tokens@.len() as int),
                forall|j: int| 0 <= j < rev@.len() ==> rev@[j] == orig[orig.len() - 1 - j],
            decreases tokens@.len(),
        {
            match tokens.pop() {
                Some(t) => {
                    rev.push(t);
                },
                None => {},
            }
            proof {
                assert(tokens@ =~= orig.take(tokens@.len() as int));
            }
        }
        let r = TokenStream { rev };
        proof {
            assert(r@ =~= crate::tokenizer::tokens_view(orig));
        }
        r
    }

    /// Takes the first remaining token.
    pub fn next(&mut self) -> (r: Option<Token>)
        ensures
            old(self)@.len() == 0 ==> r is None && final(self)@ == old(self)@,
            old(self)@.len() > 0 ==> r is Some && r->Some_0@ == old(self)@[0] && final(self)@
                == old(self)@.drop_first(),
    {
        let r = self.rev.pop();
        proof {
            assert(self@ =~= old(self)@.drop_first() || old(self)@.len() == 0);
            if old(self)@.len() == 0 {
                assert(self@ =~= old(self)@);
            }
        }
        r
    }

    /// Whether no token remains.
    pub fn is_empty(&self) -> (r: bool)
        ensures
            r == (self@.len() == 0),
    {
        self.rev.len() == 0
    }
}


/// Why parsing fails.
pub enum ParseErr {
    /// A quoted code block did not open with `(`; the token found instead.
    CodeWithoutRootAtom(Option<TokenV>),
    /// A numeric literal that is not a number.
    ParseFloat(Seq<char>),
    /// A token that cannot stand where it was found (`None`: the input ended).
    Unexpected(Option<TokenV>),
}

pub open spec fn first_or_none(ts: Seq<TokenV>) -> Option<TokenV> {
    if ts.len() == 0 {
        None
    } else {
        Some(ts[0])
    }
}

/// The argument that a literal, name or macro token stands for, if it is one.
pub open spec fn simple_arg(c: TokenContV) -> Option<Result<ArgumentV, ParseErr>> {
    match c {
        TokenContV::String(s) => Some(Ok(ArgumentV::Value(ValueV::Str(s)))),
        TokenContV::Digit(d) => Some(
            match number_text(d) {
                Some(n) => Ok(ArgumentV::Value(ValueV::Num(n))),
                None => Err(ParseErr::ParseFloat(d)),
            },
        ),
        TokenContV::Path(secs) => Some(
            Ok(
                if secs.len() == 2 && secs[0] == seq!['$'] {
                    ArgumentV::Var(secs[1])
                } else {
                    ArgumentV::Ident(secs)
                },
            ),
        ),
        TokenContV::Ident(s) => Some(Ok(ArgumentV::Ident(seq![s]))),
        TokenContV::Macro { name, content, .. } => Some(
            Ok(ArgumentV::Macro(MacroUseV { name, content })),
        ),
        _ => None,
    }
}

/// An atom whose opening parenthesis was on line `start`: its name, then its
/// arguments up to the closing parenthesis. On success, also what is left.
pub open spec fn p_atom(start: nat, ts: Seq<TokenV>) -> Result<(AtomV, Seq<TokenV>), ParseErr>
    decreases ts.len(), 0nat,
{
    if ts.len() == 0 {
        Err(ParseErr::Unexpected(None))
    } else {
        match ts[0].content {
            TokenContV::Ident(s) => p_args(start, seq![s], seq![], ts.drop_first()),
            TokenContV::Path(secs) => p_args(start, secs, seq![], ts.drop_first()),
            _ => Err(ParseErr::Unexpected(Some(ts[0]))),
        }
    }
}

/// The arguments of an atom named `name`, after those in `args`.
pub open spec fn p_args(
    start: nat,
    name: Seq<Seq<char>>,
    args: Seq<ArgumentV>,
    ts: Seq<TokenV>,
) -> Result<(AtomV, Seq<TokenV>), ParseErr>
    decreases ts.len(), 0nat,
{
    if ts.len() == 0 {
        Err(ParseErr::Unexpected(None))
    } else {
        let t = ts[0];
        let rest = ts.drop_first();
        match t.content {
            TokenContV::CParam => Ok(
                (AtomV { start, end: t.line, fn_name: name, arguments: args }, rest),
            ),
            TokenContV::OParam => match p_atom(t.line, rest) {
                Ok((a, rest2)) => if rest2.len() < ts.len() {
                    p_args(start, name, args.push(ArgumentV::Atom(a)), rest2)
                } else {
                    Err(ParseErr::Unexpected(None))
                },
                Err(e) => Err(e),
            },
            TokenContV::SingleQuote => match p_code(rest) {
                Ok((exprs, last, rest2)) => if rest2.len() < ts.len() {
                    p_args(
                        start,
                        name,
                        args.push(
                            ArgumentV::Value(
                                ValueV::Code(CodeV { start: t.line, end: last, exprs }),
                            ),
                        ),
                        rest2,
                    )
                } else {
                    Err(ParseErr::Unexpected(None))
                },
                Err(e) => Err(e),
            },
            _ => match simple_arg(t.content) {
                Some(Ok(a)) => p_args(start, name, args.push(a), rest),
                Some(Err(e)) => Err(e),
                None => Err(ParseErr::Unexpected(Some(t))),
            },
        }
    }
}

/// A quoted code block after its quote mark: `(`, expressions, `)`, and the
/// closing quote mark. On success: the expressions, the line of the closing
/// quote mark, and what is left.
pub open spec fn p_code(ts: Seq<TokenV>) -> Result<(Seq<ExprV>, nat, Seq<TokenV>), ParseErr>
    decreases ts.len(), 2nat,
{
    if ts.len() > 0 && ts[0].content is OParam {
        p_code_body(seq![], ts.drop_first())
    } else {
        Err(ParseErr::CodeWithoutRootAtom(first_or_none(ts)))
    }
}

/// The expressions of a code block after those in `exprs`.
pub open spec fn p_code_body(exprs: Seq<ExprV>, ts: Seq<TokenV>) -> Result<
    (Seq<ExprV>, nat, Seq<TokenV>),
    ParseErr,
>
    decreases ts.len(), 2nat,
{
    if ts.len() == 0 {
        Err(ParseErr::Unexpected(None))
    } else if ts[0].content is CParam {
        let rest = ts.drop_first();
        if rest.len() > 0 && rest[0].content is SingleQuote {
            Ok((exprs, rest[0].line, rest.drop_first()))
        } else {
            Err(ParseErr::Unexpected(first_or_none(rest)))
        }
    } else {
        match p_once(ts[0], ts.drop_first()) {
            Ok((e, rest2)) => if rest2.len() < ts.len() {
                p_code_body(exprs.push(e), rest2)
            } else {
                Err(ParseErr::Unexpected(None))
            },
            Err(e) => Err(e),
        }
    }
}

/// A top-level expression that starts with token `t`: an atom or a macro use.
pub open spec fn p_once(t: TokenV, ts: Seq<TokenV>) -> Result<(ExprV, Seq<TokenV>), ParseErr>
    decreases ts.len(), 1nat,
{
    match t.content {
        TokenContV::OParam => match p_atom(t.line, ts) {
            Ok((a, rest)) => Ok((ExprV { start: a.start, end: a.end, cont: ExprContV::Atom(a) }, rest)),
            Err(e) => Err(e),
        },
        TokenContV::Macro { name, content, start, end } => Ok(
            (ExprV { start, end, cont: ExprContV::Macro(MacroUseV { name, content }) }, ts),
        ),
        _ => Err(ParseErr::Unexpected(Some(t))),
    }
}

/// All top-level expressions of `ts`, after those in `exprs`.
pub open spec fn p_all(exprs: Seq<ExprV>, ts: Seq<TokenV>) -> Result<Seq<ExprV>, ParseErr>
    decreases ts.len(),
{
    if ts.len() == 0 {
        Ok(exprs)
    } else {
        match p_once(ts[0], ts.drop_first()) {
            Ok((e, rest)) => if rest.len() < ts.len() {
                p_all(exprs.push(e), rest)
            } else {
                Err(ParseErr::Unexpected(None))
            },
            Err(e) => Err(e),
        }
    }
}

/// The AST of a whole token stream.
pub open spec fn parse_spec(ts: Seq<TokenV>) -> Result<Seq<ExprV>, ParseErr> {
    p_all(seq![], ts)
}

/// The error `e` is the one that `pe` describes.
pub open spec fn err_is(e: LyssCompError, pe: ParseErr) -> bool {
    match pe {
        ParseErr::CodeWithoutRootAtom(t) => match e {
            LyssCompError::CodeWithoutRootAtom { first_token } => opt_token_v(first_token) == t,
            _ => false,
        },
        ParseErr::ParseFloat(d) => match e {
            LyssCompError::ParseFloat { text } => text@ == d,
            _ => false,
        },
        ParseErr::Unexpected(t) => match e {
            LyssCompError::UnexpectedToken { token } => opt_token_v(token) == t,
            _ => false,
        },
    }
}

pub open spec fn opt_token_v(t: Option<Token>) -> Option<TokenV> {
    match t {
        Some(t) => Some(t@),
        None => None,
    }
}


proof fn lemma_args_push(s: Seq<Argument>, a: Argument)
    ensures
        args_v(s.push(a)) == args_v(s).push(arg_v(a)),
{
    assert(s.push(a).drop_last() =~= s);
}

proof fn lemma_exprs_push(s: Seq<Expr>, e: Expr)
    ensures
        exprs_v(s.push(e)) == exprs_v(s).push(expr_v(e)),
{
    assert(s.push(e).drop_last() =~= s);
}

/// Whether a name segment is the variable marker `$`.
fn is_var_marker(s: &String) -> (r: bool)
    ensures
        r == (s@ == seq!['$']),
{
    let t = s.as_str();
    if t.unicode_len() != 1 {
        return false;
    }
    let c = t.get_char(0);
    proof {
        if c == '$' {
            assert(s@ =~= seq!['$']);
        }
    }
    c == '$'
}

/// The phases of an atom being read.
#[derive(Debug)]
pub enum AtomState {
    /// Before its name.
    OnAtom,
    /// After its name and the arguments read so far.
    OnArgs(FnName, Vec<Argument>),
}

/// The phases of a quoted code block being read.
pub enum CodeState {
    /// Before its opening parenthesis.
    BeforeCode,
    /// Among its expressions.
    OnCode,
    /// After its closing parenthesis, before the closing quote mark.
    OnCodeEnd,
}

/// Parses an atom whose opening parenthesis, on line `start_line`, has been read.
pub fn parse_atom(start_line: usize, tokens: &mut TokenStream) -> (r: Result<Atom, LyssCompError>)
    ensures
        match p_atom(start_line as nat, old(tokens)@) {
            Ok((a, rest)) => r is Ok && atom_v(r->Ok_0) == a && final(tokens)@ == rest,
            Err(e) => r is Err && err_is(r->Err_0, e),
        },
        r is Ok ==> final(tokens)@.len() < old(tokens)@.len(),
    decreases old(tokens)@.len(), 0nat,
{
    let ghost orig = tokens@;
    let mut state = AtomState::OnAtom;
    loop
        invariant
            orig == old(tokens)@,
            match state {
                AtomState::OnAtom => tokens@ == orig,
                AtomState::OnArgs(name, args) => p_atom(start_line as nat, orig) == p_args(
                    start_line as nat,
                    strs_view(name.0@),
                    args_v(args@),
                    tokens@,
                ) && tokens@.len() < orig.len(),
            },
        decreases tokens@.len(),
    {
        let Token { line, content } = match tokens.next() {
            Some(t) => t,
            None => {
                return Err(LyssCompError::UnexpectedToken { token: None });
            },
        };
        state = match state {
            AtomState::OnAtom => match content {
                TokenCont::Ident(cnt) => {
                    let name = vec![cnt];
                    proof {
                        assert(strs_view(name@) =~= seq![cnt@]);
                    }
                    AtomState::OnArgs(FnName(name), Vec::new())
                },
                TokenCont::Path(cnt) => AtomState::OnArgs(FnName(cnt), Vec::new()),
                other => {
                    return Err(
                        LyssCompError::UnexpectedToken { token: Some(Token { line, content: other }) },
                    );
                },
            },
            AtomState::OnArgs(fn_name, mut args) => {
                let ghost before = args@;
                let arg = match content {
                    TokenCont::CParam => {
                        return Ok(Atom { fn_name, arguments: args, line_span: start_line..line });
                    },
                    TokenCont::OParam => match parse_atom(line, tokens) {
                        Ok(a) => Argument::Atom(a),
                        Err(e) => {
                            return Err(e);
                        },
                    },
                    TokenCont::SingleQuote => match parse_code(tokens) {
                        Ok((exprs, last_line)) => Argument::Value(
                            Value::Code(Code { exprs, line_span: line..last_line }),
                        ),
                        Err(e) => {
                            return Err(e);
                        },
                    },
                    TokenCont::String(cnt) => Argument::Value(Value::Str(cnt)),
                    TokenCont::Digit(cnt) => match Number::parse(cnt.as_str()) {
                        Some(n) => Argument::Value(Value::Num(n)),
                        None => {
                            return Err(LyssCompError::ParseFloat { text: cnt });
                        },
                    },
                    TokenCont::Path(secs) => {
                        if secs.len() == 2 && is_var_marker(&secs[0]) {
                            let mut secs = secs;
                            let ghost all = secs@;
                            match secs.pop() {
                                Some(v) => {
                                    proof {
                                        assert(strs_view(all)[1] == v@);
                                    }
                                    Argument::Var(v)
                                },
                                None => Argument::Ident(FnName(secs)),
                            }
                        } else {
                            Argument::Ident(FnName(secs))
                        }
                    },
                    TokenCont::Ident(cnt) => {
                        let name = vec![cnt];
                        proof {
                            assert(strs_view(name@) =~= seq![cnt@]);
                        }
                        Argument::Ident(FnName(name))
                    },
                    TokenCont::Macro { name, content, .. } => Argument::Macro(
                        MacroUse { name, content },
                    ),
                    other => {
                        return Err(
                            LyssCompError::UnexpectedToken {
                                token: Some(Token { line, content: other }),
                            },
                        );
                    },
                };
                args.push(arg);
                proof {
                    lemma_args_push(before, arg);
                }
                AtomState::OnArgs(fn_name, args)
            },
        };
    }
}

/// Parses a quoted code block whose quote mark has been read: `(`, the
/// expressions, `)` and the closing quote mark. Gives the expressions and
/// the line of the closing quote mark.
pub fn parse_code(tokens: &mut TokenStream) -> (r: Result<(Vec<Expr>, usize), LyssCompError>)
    ensures
        match p_code(old(tokens)@) {
            Ok((exprs, last, rest)) => r is Ok && exprs_v(r->Ok_0.0@) == exprs && r->Ok_0.1
                == last && final(tokens)@ == rest,
            Err(e) => r is Err && err_is(r->Err_0, e),
        },
        r is Ok ==> final(tokens)@.len() < old(tokens)@.len(),
    decreases old(tokens)@.len(), 2nat,
{
    let ghost orig = tokens@;
    match tokens.next() {
        Some(t) => {
            if !matches!(t.content, TokenCont::OParam) {
                return Err(LyssCompError::CodeWithoutRootAtom { first_token: Some(t) });
            }
        },
        None => {
            return Err(LyssCompError::CodeWithoutRootAtom { first_token: None });
        },
    }
    let mut exprs: Vec<Expr> = Vec::new();
    proof {
        assert(exprs_v(exprs@) =~= Seq::<ExprV>::empty());
    }
    loop
        invariant
            orig == old(tokens)@,
            p_code(orig) == p_code_body(exprs_v(exprs@), tokens@),
            tokens@.len() < orig.len(),
        decreases tokens@.len(),
    {
        let token = match tokens.next() {
            Some(t) => t,
            None => {
                return Err(LyssCompError::UnexpectedToken { token: None });
            },
        };
        if matches!(token.content, TokenCont::CParam) {
            return match tokens.next() {
                Some(t) => {
                    if matches!(t.content, TokenCont::SingleQuote) {
                        Ok((exprs, t.line))
                    } else {
                        Err(LyssCompError::UnexpectedToken { token: Some(t) })
                    }
                },
                None => Err(LyssCompError::UnexpectedToken { token: None }),
            };
        }
        let ghost before = exprs@;
        match parse_once(token, tokens) {
            Ok(expr) => {
                exprs.push(expr);
                proof {
                    lemma_exprs_push(before, expr);
                }
            },
            Err(e) => {
                return Err(e);
            },
        }
    }
}

/// Parses a top-level expression that starts with `token`: an atom (after
/// `(`) or a macro use.
pub fn parse_once(token: Token, tokens: &mut TokenStream) -> (r: Result<Expr, LyssCompError>)
    ensures
        match p_once(token@, old(tokens)@) {
            Ok((e, rest)) => r is Ok && expr_v(r->Ok_0) == e && final(tokens)@ == rest,
            Err(e) => r is Err && err_is(r->Err_0, e),
        },
        r is Ok ==> final(tokens)@.len() <= old(tokens)@.len(),
    decreases old(tokens)@.len(), 1nat,
{
    let Token { line, content } = token;
    match content {
        TokenCont::OParam => match parse_atom(line, tokens) {
            Ok(atom) => {
                let line_span = atom.line_span.start..atom.line_span.end;
                Ok(Expr { line_span, cont: ExprCont::Atom(atom) })
            },
            Err(e) => Err(e),
        },
        TokenCont::Macro { name, content, line_span } => Ok(
            Expr { line_span, cont: ExprCont::Macro(MacroUse { name, content }) },
        ),
        other => Err(LyssCompError::UnexpectedToken { token: Some(Token { line, content: other }) }),
    }
}

/// Parses all the top-level expressions of a token stream.
pub fn parse(tokens: &mut TokenStream) -> (r: Result<Vec<Expr>, LyssCompError>)
    ensures
        match parse_spec(old(tokens)@) {
            Ok(exprs) => r is Ok && exprs_v(r->Ok_0@) == exprs,
            Err(e) => r is Err && err_is(r->Err_0, e),
        },
{
    let ghost orig = tokens@;
    let mut exprs: Vec<Expr> = Vec::new();
    proof {
        assert(exprs_v(exprs@) =~= Seq::<ExprV>::empty());
    }
    loop
        invariant
            orig == old(tokens)@,
            parse_spec(orig) == p_all(exprs_v(exprs@), tokens@),
        decreases tokens@.len(),
    {
        let token = match tokens.next() {
            Some(t) => t,
            None => {
                return Ok(exprs);
            },
        };
        let ghost before = exprs@;
        match parse_once(token, tokens) {
            Ok(expr) => {
                exprs.push(expr);
                proof {
                    lemma_exprs_push(before, expr);
                }
            },
            Err(e) => {
                return Err(e);
            },
        }
    }
}


/// A copy of a list of strings.
pub fn clone_strs(v: &Vec<String>) -> (r: Vec<String>)
    ensures
        r@ == v@,
{
    crate::runtime::object::copy_path(v.as_slice())
}

pub fn clone_fn_name(n: &FnName) -> (r: FnName)
    ensures
        r.0@ == n.0@,
{
    FnName(clone_strs(&n.0))
}

pub fn clone_macro(m: &MacroUse) -> (r: MacroUse)
    ensures
        macro_v(r) == macro_v(*m),
{
    MacroUse { name: m.name.clone(), content: m.content.clone() }
}

pub fn clone_atom(a: &Atom) -> (r: Atom)
    ensures
        atom_v(r) == atom_v(*a),
    decreases *a, 1nat,
{
    Atom {
        line_span: a.line_span.start..a.line_span.end,
        fn_name: clone_fn_name(&a.fn_name),
        arguments: clone_args(&a.arguments),
    }
}

pub fn clone_args(v: &Vec<Argument>) -> (r: Vec<Argument>)
    ensures
        args_v(r@) == args_v(v@),
    decreases *v, 0nat,
{
    let mut r: Vec<Argument> = Vec::new();
    let mut i: usize = 0;
    proof {
        assert(v@.take(0) =~= Seq::<Argument>::empty());
        assert(args_v(r@) =~= args_v(v@.take(0)));
    }
    while i < v.len()
        invariant
            i <= v@.len(),
            args_v(r@) == args_v(v@.take(i as int)),
        decreases v@.len() - i,
    {
        let a = clone_arg(&v[i]);
        let ghost before = r@;
        r.push(a);
        proof {
            lemma_args_push(before, a);
            assert(v@.take(i + 1).drop_last() =~= v@.take(i as int));
        }
        i = i + 1;
    }
    proof {
        assert(v@.take(v@.len() as int) =~= v@);
    }
    r
}

pub fn clone_arg(a: &Argument) -> (r: Argument)
    ensures
        arg_v(r) == arg_v(*a),
    decreases *a, 2nat,
{
    match a {
        Argument::Var(s) => Argument::Var(s.clone()),
        Argument::Ident(p) => Argument::Ident(clone_fn_name(p)),
        Argument::Atom(at) => Argument::Atom(clone_atom(at)),
        Argument::Value(v) => Argument::Value(crate::clone_value(v)),
        Argument::Macro(m) => Argument::Macro(clone_macro(m)),
    }
}

pub fn clone_code(c: &Code) -> (r: Code)
    ensures
        code_v(r) == code_v(*c),
    decreases *c, 1nat,
{
    Code { line_span: c.line_span.start..c.line_span.end, exprs: clone_exprs(&c.exprs) }
}

pub fn clone_exprs(v: &Vec<Expr>) -> (r: Vec<Expr>)
    ensures
        exprs_v(r@) == exprs_v(v@),
    decreases *v, 0nat,
{
    let mut r: Vec<Expr> = Vec::new();
    let mut i: usize = 0;
    proof {
        assert(v@.take(0) =~= Seq::<Expr>::empty());
        assert(exprs_v(r@) =~= exprs_v(v@.take(0)));
    }
    while i < v.len()
        invariant
            i <= v@.len(),
            exprs_v(r@) == exprs_v(v@.take(i as int)),
        decreases v@.len() - i,
    {
        let e = clone_expr(&v[i]);
        let ghost before = r@;
        r.push(e);
        proof {
            lemma_exprs_push(before, e);
            assert(v@.take(i + 1).drop_last() =~= v@.take(i as int));
        }
        i = i + 1;
    }
    proof {
        assert(v@.take(v@.len() as int) =~= v@);
    }
    r
}

pub fn clone_expr(e: &Expr) -> (r: Expr)
    ensures
        expr_v(r) == expr_v(*e),
    decreases *e, 2nat,
{
    Expr {
        line_span: e.line_span.start..e.line_span.end,
        cont: match &e.cont {
            ExprCont::Atom(a) => ExprCont::Atom(clone_atom(a)),
            ExprCont::Macro(m) => ExprCont::Macro(clone_macro(m)),
        },
    }
}

impl Clone for FnName {
    fn clone(&self) -> (r: FnName)
        ensures
            r.0@ == self.0@,
    {
        clone_fn_name(self)
    }
}

impl Clone for MacroUse {
    fn clone(&self) -> (r: MacroUse)
        ensures
            macro_v(r) == macro_v(*self),
    {
        clone_macro(self)
    }
}

impl Clone for Atom {
    fn clone(&self) -> (r: Atom)
        ensures
            atom_v(r) == atom_v(*self),
    {
        clone_atom(self)
    }
}

impl Clone for Argument {
    fn clone(&self) -> (r: Argument)
        ensures
            arg_v(r) == arg_v(*self),
    {
        clone_arg(self)
    }
}

impl Clone for Code {
    fn clone(&self) -> (r: Code)
        ensures
            code_v(r) == code_v(*self),
    {
        clone_code(self)
    }
}

impl Clone for Expr {
    fn clone(&self) -> (r: Expr)
        ensures
            expr_v(r) == expr_v(*self),
    {
        clone_expr(self)
    }
}

} // verus!
