//! Printing a program of calls and reading it back gives the same program.
use vstd::prelude::*;

use crate::display::{join_path, show_arg, show_args, show_atom, show_expr, show_exprs};
use crate::parser::{
    p_all, p_args, p_atom, p_code, p_code_body, p_once, parse_spec, ArgumentV, AtomV,
    CodeV, ExprContV, ExprV, ParseErr,
};
use crate::tokenizer::{
    is_ident, is_ident_start, lex, next_line, on_line, run_chars, step, LexErr, StateV, StepErr,
    TokenContV, TokenV,
};
use crate::ValueV;

verus! {

/// A name segment as the lexer reads one.
pub open spec fn is_word(w: Seq<char>) -> bool {
    w.len() > 0 && is_ident_start(w[0]) && forall|i: int| 0 < i < w.len() ==> is_ident(#[trigger] w[i])
}

/// A path of one segment or more, each a word.
pub open spec fn is_name(p: Seq<Seq<char>>) -> bool {
    p.len() > 0 && forall|i: int| 0 <= i < p.len() ==> is_word(#[trigger] p[i])
}

/// A bare name that does not read as a variable reference.
pub open spec fn is_plain_name(p: Seq<Seq<char>>) -> bool {
    is_name(p) && !(p.len() == 2 && p[0] == seq!['$'])
}

/// A call whose arguments are calls, variable references, bare names and
/// quoted code blocks of such calls, all named by words.
pub open spec fn call_only_atom(a: AtomV) -> bool
    decreases a, 1nat,
{
    is_name(a.fn_name) && call_only_args(a.arguments)
}

pub open spec fn call_only_args(s: Seq<ArgumentV>) -> bool
    decreases s, 0nat,
{
    s.len() == 0 || (call_only_args(s.drop_last()) && call_only_arg(s[s.len() - 1]))
}

pub open spec fn call_only_arg(x: ArgumentV) -> bool
    decreases x, 1nat,
{
    match x {
        ArgumentV::Atom(a) => call_only_atom(a),
        ArgumentV::Var(w) => is_word(w),
        ArgumentV::Ident(p) => is_plain_name(p),
        ArgumentV::Value(ValueV::Code(c)) => call_only_exprs(c.exprs),
        _ => false,
    }
}

pub open spec fn call_only_exprs(s: Seq<ExprV>) -> bool
    decreases s, 0nat,
{
    s.len() == 0 || (call_only_exprs(s.drop_last()) && call_only_expr(s[s.len() - 1]))
}

pub open spec fn call_only_expr(e: ExprV) -> bool
    decreases e, 1nat,
{
    match e.cont {
        ExprContV::Atom(a) => call_only_atom(a),
        ExprContV::Macro(_) => false,
    }
}

// The same AST with every line number set to `l`.
pub open spec fn relined_atom(a: AtomV, l: nat) -> AtomV
    decreases a, 1nat,
{
    AtomV { start: l, end: l, fn_name: a.fn_name, arguments: relined_args(a.arguments, l) }
}

pub open spec fn relined_args(s: Seq<ArgumentV>, l: nat) -> Seq<ArgumentV>
    decreases s, 0nat,
{
    if s.len() == 0 {
        seq![]
    } else {
        relined_args(s.drop_last(), l).push(relined_arg(s[s.len() - 1], l))
    }
}

pub open spec fn relined_arg(x: ArgumentV, l: nat) -> ArgumentV
    decreases x, 1nat,
{
    match x {
        ArgumentV::Atom(a) => ArgumentV::Atom(relined_atom(a, l)),
        ArgumentV::Value(ValueV::Code(c)) => ArgumentV::Value(
            ValueV::Code(CodeV { start: l, end: l, exprs: relined_exprs(c.exprs, l) }),
        ),
        _ => x,
    }
}

pub open spec fn relined_exprs(s: Seq<ExprV>, l: nat) -> Seq<ExprV>
    decreases s, 0nat,
{
    if s.len() == 0 {
        seq![]
    } else {
        relined_exprs(s.drop_last(), l).push(relined_expr(s[s.len() - 1], l))
    }
}

pub open spec fn relined_expr(e: ExprV, l: nat) -> ExprV
    decreases e, 1nat,
{
    ExprV {
        start: l,
        end: l,
        cont: match e.cont {
            ExprContV::Atom(a) => ExprContV::Atom(relined_atom(a, l)),
            ExprContV::Macro(m) => ExprContV::Macro(m),
        },
    }
}

// The tokens that the printed form of an AST reads as, all on line `l`.
pub open spec fn tk(l: nat, c: TokenContV) -> TokenV {
    TokenV { line: l, content: c }
}

pub open spec fn name_tok(p: Seq<Seq<char>>) -> TokenContV {
    if p.len() == 1 {
        TokenContV::Ident(p[0])
    } else {
        TokenContV::Path(p)
    }
}

pub open spec fn atom_toks(a: AtomV, l: nat) -> Seq<TokenV>
    decreases a, 1nat,
{
    seq![tk(l, TokenContV::OParam), tk(l, name_tok(a.fn_name))] + args_toks(a.arguments, l) + seq![
        tk(l, TokenContV::CParam),
    ]
}

pub open spec fn args_toks(s: Seq<ArgumentV>, l: nat) -> Seq<TokenV>
    decreases s, 0nat,
{
    if s.len() == 0 {
        seq![]
    } else {
        args_toks(s.drop_last(), l) + arg_toks(s[s.len() - 1], l)
    }
}

pub open spec fn arg_toks(x: ArgumentV, l: nat) -> Seq<TokenV>
    decreases x, 1nat,
{
    match x {
        ArgumentV::Atom(a) => atom_toks(a, l),
        ArgumentV::Var(w) => seq![tk(l, TokenContV::Path(seq![seq!['$'], w]))],
        ArgumentV::Ident(p) => seq![tk(l, name_tok(p))],
        ArgumentV::Value(ValueV::Code(c)) => seq![
            tk(l, TokenContV::SingleQuote),
            tk(l, TokenContV::OParam),
        ] + exprs_toks(c.exprs, l) + seq![tk(l, TokenContV::CParam), tk(l, TokenContV::SingleQuote)],
        _ => seq![],
    }
}

pub open spec fn exprs_toks(s: Seq<ExprV>, l: nat) -> Seq<TokenV>
    decreases s, 0nat,
{
    if s.len() == 0 {
        seq![]
    } else {
        exprs_toks(s.drop_last(), l) + expr_toks(s[s.len() - 1], l)
    }
}

pub open spec fn expr_toks(e: ExprV, l: nat) -> Seq<TokenV>
    decreases e, 1nat,
{
    match e.cont {
        ExprContV::Atom(a) => atom_toks(a, l),
        ExprContV::Macro(_) => seq![],
    }
}

/// The tokens of a call, after its opening parenthesis, parse back to the
/// call; what follows them is left.
proof fn lemma_parse_atom(a: AtomV, l: nat, rest: Seq<TokenV>)
    requires
        call_only_atom(a),
    ensures
        p_atom(l, atom_toks(a, l).drop_first() + rest) == Ok::<(AtomV, Seq<TokenV>), ParseErr>(
            (relined_atom(a, l), rest),
        ),
    decreases a, 2nat,
{
    let ts = atom_toks(a, l).drop_first() + rest;
    let tail = seq![tk(l, TokenContV::CParam)] + rest;
    assert(ts =~= seq![tk(l, name_tok(a.fn_name))] + (args_toks(a.arguments, l) + tail));
    assert(ts.drop_first() =~= args_toks(a.arguments, l) + tail);
    lemma_parse_args(a.arguments, l, l, a.fn_name, seq![], tail);
    assert(seq![] + relined_args(a.arguments, l) =~= relined_args(a.arguments, l));
    assert(tail.drop_first() =~= rest);
    assert(tail[0] == tk(l, TokenContV::CParam));
    assert(p_args(l, a.fn_name, relined_args(a.arguments, l), tail) == Ok::<(AtomV, Seq<TokenV>), ParseErr>(
        (relined_atom(a, l), rest),
    ));
    assert(ts[0] == tk(l, name_tok(a.fn_name)));
    if a.fn_name.len() == 1 {
        assert(seq![a.fn_name[0]] =~= a.fn_name);
    }
}

/// The tokens of arguments parse to those arguments, after the ones before.
proof fn lemma_parse_args(
    s: Seq<ArgumentV>,
    l: nat,
    start: nat,
    name: Seq<Seq<char>>,
    acc: Seq<ArgumentV>,
    rest: Seq<TokenV>,
)
    requires
        call_only_args(s),
    ensures
        p_args(start, name, acc, args_toks(s, l) + rest) == p_args(
            start,
            name,
            acc + relined_args(s, l),
            rest,
        ),
    decreases s, 1nat,
{
    if s.len() == 0 {
        assert(args_toks(s, l) + rest =~= rest);
        assert(acc + relined_args(s, l) =~= acc);
    } else {
        let x = s[s.len() - 1];
        let init = s.drop_last();
        assert(args_toks(s, l) + rest =~= args_toks(init, l) + (arg_toks(x, l) + rest));
        lemma_parse_args(init, l, start, name, acc, arg_toks(x, l) + rest);
        lemma_parse_arg(x, l, start, name, acc + relined_args(init, l), rest);
        assert(acc + relined_args(s, l) =~= (acc + relined_args(init, l)).push(relined_arg(x, l)));
    }
}

/// The tokens of one argument parse to that argument.
proof fn lemma_parse_arg(
    x: ArgumentV,
    l: nat,
    start: nat,
    name: Seq<Seq<char>>,
    acc: Seq<ArgumentV>,
    rest: Seq<TokenV>,
)
    requires
        call_only_arg(x),
    ensures
        p_args(start, name, acc, arg_toks(x, l) + rest) == p_args(
            start,
            name,
            acc.push(relined_arg(x, l)),
            rest,
        ),
    decreases x, 2nat,
{
    let ts = arg_toks(x, l) + rest;
    match x {
        ArgumentV::Atom(a) => {
            lemma_parse_atom(a, l, rest);
            assert(ts.drop_first() =~= atom_toks(a, l).drop_first() + rest);
            assert(ts[0] == tk(l, TokenContV::OParam));
            assert(rest.len() < ts.len());
            assert(p_atom(ts[0].line, ts.drop_first()) == Ok::<(AtomV, Seq<TokenV>), ParseErr>((relined_atom(a, l), rest)));
            assert(relined_arg(x, l) == ArgumentV::Atom(relined_atom(a, l)));
        },
        ArgumentV::Var(w) => {
            assert(ts.drop_first() =~= rest);
            assert(seq![seq!['$'], w][1] == w);
        },
        ArgumentV::Ident(p) => {
            assert(ts.drop_first() =~= rest);
            if p.len() == 1 {
                assert(seq![p[0]] =~= p);
            }
        },
        ArgumentV::Value(ValueV::Code(c)) => {
            let tail = seq![tk(l, TokenContV::CParam), tk(l, TokenContV::SingleQuote)] + rest;
            assert(ts.drop_first() =~= seq![tk(l, TokenContV::OParam)] + (exprs_toks(c.exprs, l) + tail));
            assert(ts.drop_first().drop_first() =~= exprs_toks(c.exprs, l) + tail);
            lemma_parse_exprs(c.exprs, l, seq![], tail);
            assert(seq![] + relined_exprs(c.exprs, l) =~= relined_exprs(c.exprs, l));
            assert(tail.drop_first().drop_first() =~= rest);
            assert(tail[0] == tk(l, TokenContV::CParam));
            assert(tail.drop_first()[0] == tk(l, TokenContV::SingleQuote));
            let ex = relined_exprs(c.exprs, l);
            assert(p_code_body(ex, tail) == Ok::<(Seq<ExprV>, nat, Seq<TokenV>), ParseErr>((ex, l, rest)));
            assert(ts.drop_first()[0] == tk(l, TokenContV::OParam));
            assert(p_code(ts.drop_first()) == Ok::<(Seq<ExprV>, nat, Seq<TokenV>), ParseErr>((ex, l, rest)));
            assert(ts[0] == tk(l, TokenContV::SingleQuote));
            assert(rest.len() < ts.len());
        },
        _ => {},
    }
}

/// The tokens of expressions in a code block parse to those expressions,
/// after the ones before.
proof fn lemma_parse_exprs(s: Seq<ExprV>, l: nat, acc: Seq<ExprV>, rest: Seq<TokenV>)
    requires
        call_only_exprs(s),
        rest.len() > 0,
        rest[0].content is OParam || rest[0].content is CParam,
    ensures
        p_code_body(acc, exprs_toks(s, l) + rest) == p_code_body(acc + relined_exprs(s, l), rest),
    decreases s, 0nat,
{
    if s.len() == 0 {
        assert(exprs_toks(s, l) + rest =~= rest);
        assert(acc + relined_exprs(s, l) =~= acc);
    } else {
        let e = s[s.len() - 1];
        let init = s.drop_last();
        assert(exprs_toks(s, l) + rest =~= exprs_toks(init, l) + (expr_toks(e, l) + rest));
        lemma_parse_expr(e, l, acc + relined_exprs(init, l), rest);
        lemma_parse_exprs(init, l, acc, expr_toks(e, l) + rest);
        assert(acc + relined_exprs(s, l) =~= (acc + relined_exprs(init, l)).push(relined_expr(e, l)));
    }
}

/// The tokens of one expression in a code block parse to that expression.
proof fn lemma_parse_expr(e: ExprV, l: nat, acc: Seq<ExprV>, rest: Seq<TokenV>)
    requires
        call_only_expr(e),
    ensures
        p_code_body(acc, expr_toks(e, l) + rest) == p_code_body(acc.push(relined_expr(e, l)), rest),
        expr_toks(e, l).len() > 0 && expr_toks(e, l)[0].content is OParam,
    decreases e, 2nat,
{
    match e.cont {
        ExprContV::Atom(a) => {
            let ts = expr_toks(e, l) + rest;
            lemma_parse_atom(a, l, rest);
            assert(ts.drop_first() =~= atom_toks(a, l).drop_first() + rest);
            assert(ts[0] == tk(l, TokenContV::OParam));
            assert(rest.len() < ts.len());
            assert(p_once(ts[0], ts.drop_first()) == Ok::<(ExprV, Seq<TokenV>), ParseErr>((relined_expr(e, l), rest)));
        },
        ExprContV::Macro(_) => {},
    }
}

/// The tokens of top-level calls parse to those calls.
proof fn lemma_parse_top(s: Seq<ExprV>, l: nat, acc: Seq<ExprV>, rest: Seq<TokenV>)
    requires
        call_only_exprs(s),
        rest.len() == 0 || rest[0].content is OParam,
    ensures
        p_all(acc, exprs_toks(s, l) + rest) == p_all(acc + relined_exprs(s, l), rest),
    decreases s,
{
    if s.len() == 0 {
        assert(exprs_toks(s, l) + rest =~= rest);
        assert(acc + relined_exprs(s, l) =~= acc);
    } else {
        let e = s[s.len() - 1];
        let init = s.drop_last();
        assert(exprs_toks(s, l) + rest =~= exprs_toks(init, l) + (expr_toks(e, l) + rest));
        assert(call_only_exprs(init) && call_only_expr(e));
        if let ExprContV::Atom(a) = e.cont {
            assert(call_only_atom(a));
            let ts = expr_toks(e, l) + rest;
            lemma_parse_atom(a, l, rest);
            assert(ts.drop_first() =~= atom_toks(a, l).drop_first() + rest);
            assert(ts[0] == tk(l, TokenContV::OParam));
            assert(p_once(ts[0], ts.drop_first()) == Ok::<(ExprV, Seq<TokenV>), ParseErr>((relined_expr(e, l), rest)));
            let acc2 = acc + relined_exprs(init, l);
            assert(p_all(acc2, ts) == p_all(acc2.push(relined_expr(e, l)), rest));
            lemma_parse_top(init, l, acc, ts);
            assert(acc + relined_exprs(s, l) =~= acc2.push(relined_expr(e, l)));
        }
    }
}

/// The lexer run forward over `cs` from state `st` on line `line`: the state
/// it ends in, the line, and the tokens it emits.
pub open spec fn lx(st: StateV, line: nat, cs: Seq<char>) -> Result<(StateV, nat, Seq<TokenV>), LexErr>
    decreases cs.len(),
{
    if cs.len() == 0 {
        Ok((st, line, seq![]))
    } else {
        let c = cs[0];
        match step(st, c, line) {
            Err(StepErr::CantStop(s)) => Err(LexErr::CantStop { line, state: s }),
            Err(StepErr::Unexpected(s)) => Err(LexErr::Unexpected { line, state: s, c }),
            Ok((st2, em)) => match lx(st2, next_line(line, c), cs.drop_first()) {
                Ok((s3, l3, t3)) => Ok((s3, l3, on_line(em, line) + t3)),
                Err(e) => Err(e),
            },
        }
    }
}

/// Running over `a + b` is running over `a`, then over `b` from where it left.
proof fn lemma_lx_concat(st: StateV, l: nat, a: Seq<char>, b: Seq<char>)
    ensures
        lx(st, l, a + b) == match lx(st, l, a) {
            Ok((s2, l2, t2)) => match lx(s2, l2, b) {
                Ok((s3, l3, t3)) => Ok((s3, l3, t2 + t3)),
                Err(e) => Err(e),
            },
            Err(e) => Err(e),
        },
    decreases a.len(),
{
    if a.len() == 0 {
        assert(a + b =~= b);
        match lx(st, l, b) {
            Ok((s3, l3, t3)) => {
                assert(seq![] + t3 =~= t3);
            },
            Err(_) => {},
        }
    } else {
        assert((a + b)[0] == a[0]);
        assert((a + b).drop_first() =~= a.drop_first() + b);
        match step(st, a[0], l) {
            Ok((st2, em)) => {
                lemma_lx_concat(st2, next_line(l, a[0]), a.drop_first(), b);
                match lx(st2, next_line(l, a[0]), a.drop_first()) {
                    Ok((s2, l2, t2)) => match lx(s2, l2, b) {
                        Ok((s3, l3, t3)) => {
                            assert(on_line(em, l) + (t2 + t3) =~= on_line(em, l) + t2 + t3);
                        },
                        Err(_) => {},
                    },
                    Err(_) => {},
                }
            },
            Err(_) => {},
        }
    }
}

/// The lexer as it runs over a whole text is the forward run from the start.
proof fn lemma_run_chars_forward(cs: Seq<char>)
    ensures
        run_chars(cs) == lx(StateV::Nothing, 1, cs),
    decreases cs.len(),
{
    if cs.len() > 0 {
        let init = cs.drop_last();
        let c = cs.last();
        lemma_run_chars_forward(init);
        assert(cs =~= init + seq![c]);
        lemma_lx_concat(StateV::Nothing, 1, init, seq![c]);
        match lx(StateV::Nothing, 1, init) {
            Ok((st, line, toks)) => {
                assert(seq![c].drop_first() =~= Seq::<char>::empty());
                assert(seq![c][0] == c);
                assert(cs.drop_last() == init);
                assert(cs.last() == c);
                match step(st, c, line) {
                    Ok((st2, em)) => {
                        assert(lx(st2, next_line(line, c), seq![c].drop_first()) == Ok::<(StateV, nat, Seq<TokenV>), LexErr>((st2, next_line(line, c), seq![])));
                        assert(on_line(em, line) + seq![] =~= on_line(em, line));
                        assert(lx(st, line, seq![c]) == Ok::<(StateV, nat, Seq<TokenV>), LexErr>((st2, next_line(line, c), on_line(em, line))));
                    },
                    Err(_) => {},
                }
            },
            Err(_) => {},
        }
    }
}

/// One character read in state `st`, when the step succeeds and the character
/// is no newline.
proof fn lemma_lx_one(st: StateV, l: nat, c: char)
    requires
        step(st, c, l) is Ok,
        c != '\n',
    ensures
        lx(st, l, seq![c]) == Ok::<(StateV, nat, Seq<TokenV>), LexErr>(
            (step(st, c, l)->Ok_0.0, l, on_line(step(st, c, l)->Ok_0.1, l)),
        ),
{
    assert(seq![c].drop_first() =~= Seq::<char>::empty());
    assert(seq![c][0] == c);
    assert(next_line(l, c) == l);
    let st2 = step(st, c, l)->Ok_0.0;
    assert(lx(st2, l, seq![c].drop_first()) == Ok::<(StateV, nat, Seq<TokenV>), LexErr>((st2, l, seq![])));
    assert(on_line(step(st, c, l)->Ok_0.1, l) + seq![] =~= on_line(step(st, c, l)->Ok_0.1, l));
}

/// Name characters extend the name being read.
proof fn lemma_lx_ident_chars(p: Seq<char>, l: nat, r: Seq<char>)
    requires
        forall|i: int| 0 <= i < r.len() ==> is_ident(#[trigger] r[i]),
    ensures
        lx(StateV::Ident(p), l, r) == Ok::<(StateV, nat, Seq<TokenV>), LexErr>((StateV::Ident(p + r), l, seq![])),
    decreases r.len(),
{
    if r.len() == 0 {
        assert(p + r =~= p);
    } else {
        assert(is_ident(r[0]));
        assert(r.drop_first().len() < r.len());
        assert forall|i: int| 0 <= i < r.drop_first().len() implies is_ident(#[trigger] r.drop_first()[i]) by {
            assert(r.drop_first()[i] == r[i + 1]);
        }
        lemma_lx_ident_chars(p.push(r[0]), l, r.drop_first());
        assert(p.push(r[0]) + r.drop_first() =~= p + r);
        assert(on_line(seq![], l) + seq![] =~= Seq::<TokenV>::empty());
    }
}

/// Name characters extend the last segment of the path being read.
proof fn lemma_lx_path_chars(secs: Seq<Seq<char>>, e: Seq<char>, l: nat, r: Seq<char>)
    requires
        forall|i: int| 0 <= i < r.len() ==> is_ident(#[trigger] r[i]),
    ensures
        lx(StateV::Path(secs, e), l, r) == Ok::<(StateV, nat, Seq<TokenV>), LexErr>(
            (StateV::Path(secs, e + r), l, seq![]),
        ),
    decreases r.len(),
{
    if r.len() == 0 {
        assert(e + r =~= e);
    } else {
        assert(is_ident(r[0]));
        assert forall|i: int| 0 <= i < r.drop_first().len() implies is_ident(#[trigger] r.drop_first()[i]) by {
            assert(r.drop_first()[i] == r[i + 1]);
        }
        lemma_lx_path_chars(secs, e.push(r[0]), l, r.drop_first());
        assert(e.push(r[0]) + r.drop_first() =~= e + r);
        assert(on_line(seq![], l) + seq![] =~= Seq::<TokenV>::empty());
    }
}

/// The state a name leaves the lexer in, before what ends it.
pub open spec fn name_state(q: Seq<Seq<char>>) -> StateV {
    if q.len() == 1 {
        StateV::Ident(q[0])
    } else {
        StateV::Path(q.drop_last(), q.last())
    }
}

/// A printed name is read as one name.
proof fn lemma_lx_name(q: Seq<Seq<char>>, l: nat)
    requires
        is_name(q),
    ensures
        lx(StateV::Nothing, l, join_path(q)) == Ok::<(StateV, nat, Seq<TokenV>), LexErr>((name_state(q), l, seq![])),
    decreases q.len(),
{
    let w = q.last();
    assert(is_word(q[q.len() - 1]));
    assert forall|i: int| 0 <= i < w.drop_first().len() implies is_ident(#[trigger] w.drop_first()[i]) by {
        assert(w.drop_first()[i] == w[i + 1]);
    }
    if q.len() == 1 {
        assert(join_path(q) == q[0]);
        assert(w =~= seq![w[0]] + w.drop_first());
        lemma_lx_concat(StateV::Nothing, l, seq![w[0]], w.drop_first());
        lemma_lx_one(StateV::Nothing, l, w[0]);
        lemma_lx_ident_chars(seq![w[0]], l, w.drop_first());
        assert(seq![w[0]] + w.drop_first() =~= w);
        assert(on_line(seq![], l) =~= Seq::<TokenV>::empty());
        assert(Seq::<TokenV>::empty() + Seq::<TokenV>::empty() =~= Seq::<TokenV>::empty());
    } else {
        let init = q.drop_last();
        assert forall|i: int| 0 <= i < init.len() implies is_word(#[trigger] init[i]) by {
            assert(init[i] == q[i]);
        }
        lemma_lx_name(init, l);
        assert(join_path(q) =~= join_path(init) + (seq!['.'] + (seq![w[0]] + w.drop_first())));
        lemma_lx_concat(StateV::Nothing, l, join_path(init), seq!['.'] + (seq![w[0]] + w.drop_first()));
        let st1 = name_state(init);
        lemma_lx_concat(st1, l, seq!['.'], seq![w[0]] + w.drop_first());
        lemma_lx_one(st1, l, '.');
        let secs = init;
        assert(step(st1, '.', l) == Ok::<(StateV, Seq<TokenContV>), StepErr>((StateV::PathDot(secs), seq![]))) by {
            if init.len() == 1 {
                assert(seq![init[0]] =~= init);
            } else {
                assert(init.drop_last().push(init.last()) =~= init);
            }
        }
        lemma_lx_concat(StateV::PathDot(secs), l, seq![w[0]], w.drop_first());
        lemma_lx_one(StateV::PathDot(secs), l, w[0]);
        lemma_lx_path_chars(secs, seq![w[0]], l, w.drop_first());
        assert(seq![w[0]] + w.drop_first() =~= w);
        assert(q.drop_last() == secs);
        assert(on_line(seq![], l) =~= Seq::<TokenV>::empty());
        assert(Seq::<TokenV>::empty() + Seq::<TokenV>::empty() =~= Seq::<TokenV>::empty());
    }
}

/// A printed name and a space are read as the name's token.
proof fn lemma_lx_name_space(q: Seq<Seq<char>>, l: nat)
    requires
        is_name(q),
    ensures
        lx(StateV::Nothing, l, join_path(q) + seq![' ']) == Ok::<(StateV, nat, Seq<TokenV>), LexErr>(
            (StateV::Nothing, l, seq![tk(l, name_tok(q))]),
        ),
{
    lemma_lx_name(q, l);
    lemma_lx_concat(StateV::Nothing, l, join_path(q), seq![' ']);
    lemma_lx_one(name_state(q), l, ' ');
    if q.len() == 1 {
    } else {
        assert(q.drop_last().push(q.last()) =~= q);
    }
    assert(on_line(seq![name_tok(q)], l) =~= seq![tk(l, name_tok(q))]);
    assert(Seq::<TokenV>::empty() + seq![tk(l, name_tok(q))] =~= seq![tk(l, name_tok(q))]);
}

/// Two texts each read from the ground state back to it read so one after the other.
proof fn lemma_lx_join(a: Seq<char>, b: Seq<char>, ta: Seq<TokenV>, tb: Seq<TokenV>, l: nat)
    requires
        lx(StateV::Nothing, l, a) == Ok::<(StateV, nat, Seq<TokenV>), LexErr>((StateV::Nothing, l, ta)),
        lx(StateV::Nothing, l, b) == Ok::<(StateV, nat, Seq<TokenV>), LexErr>((StateV::Nothing, l, tb)),
    ensures
        lx(StateV::Nothing, l, a + b) == Ok::<(StateV, nat, Seq<TokenV>), LexErr>((StateV::Nothing, l, ta + tb)),
{
    lemma_lx_concat(StateV::Nothing, l, a, b);
}

/// One character from the ground state back to it.
proof fn lemma_lx_mark(c: char, l: nat)
    requires
        c == '(' || c == ')' || c == '\'' || c == ' ',
    ensures
        lx(StateV::Nothing, l, seq![c]) == Ok::<(StateV, nat, Seq<TokenV>), LexErr>(
            (StateV::Nothing, l, mark_toks(c, l)),
        ),
{
    lemma_lx_one(StateV::Nothing, l, c);
    assert(on_line(step(StateV::Nothing, c, l)->Ok_0.1, l) =~= mark_toks(c, l));
}

/// The token that a mark stands for, if any.
pub open spec fn mark_toks(c: char, l: nat) -> Seq<TokenV> {
    if c == '(' {
        seq![tk(l, TokenContV::OParam)]
    } else if c == ')' {
        seq![tk(l, TokenContV::CParam)]
    } else if c == '\'' {
        seq![tk(l, TokenContV::SingleQuote)]
    } else {
        seq![]
    }
}

/// A printed call is read as the call's tokens.
proof fn lemma_lx_atom(a: AtomV, l: nat)
    requires
        call_only_atom(a),
    ensures
        lx(StateV::Nothing, l, show_atom(a)) == Ok::<(StateV, nat, Seq<TokenV>), LexErr>(
            (StateV::Nothing, l, atom_toks(a, l)),
        ),
    decreases a, 2nat,
{
    let name = join_path(a.fn_name) + seq![' '];
    let args = show_args(a.arguments);
    lemma_lx_mark('(', l);
    lemma_lx_mark(')', l);
    lemma_lx_name_space(a.fn_name, l);
    lemma_lx_args(a.arguments, l);
    lemma_lx_join(args, seq![')'], args_toks(a.arguments, l), mark_toks(')', l), l);
    lemma_lx_join(name, args + seq![')'], seq![tk(l, name_tok(a.fn_name))], args_toks(a.arguments, l) + mark_toks(')', l), l);
    lemma_lx_join(seq!['('], name + (args + seq![')']), mark_toks('(', l), seq![tk(l, name_tok(a.fn_name))] + (args_toks(a.arguments, l) + mark_toks(')', l)), l);
    assert(show_atom(a) =~= seq!['('] + (name + (args + seq![')'])));
    assert(atom_toks(a, l) =~= mark_toks('(', l) + (seq![tk(l, name_tok(a.fn_name))] + (args_toks(a.arguments, l) + mark_toks(')', l))));
}

/// Printed arguments are read as their tokens.
proof fn lemma_lx_args(s: Seq<ArgumentV>, l: nat)
    requires
        call_only_args(s),
    ensures
        lx(StateV::Nothing, l, show_args(s)) == Ok::<(StateV, nat, Seq<TokenV>), LexErr>(
            (StateV::Nothing, l, args_toks(s, l)),
        ),
    decreases s, 1nat,
{
    if s.len() > 0 {
        let x = s[s.len() - 1];
        let init = s.drop_last();
        lemma_lx_args(init, l);
        lemma_lx_arg(x, l);
        lemma_lx_join(show_args(init), show_arg(x) + seq![' '], args_toks(init, l), arg_toks(x, l), l);
        assert(show_args(s) =~= show_args(init) + (show_arg(x) + seq![' ']));
    }
}

/// A printed argument and a space are read as the argument's tokens.
proof fn lemma_lx_arg(x: ArgumentV, l: nat)
    requires
        call_only_arg(x),
    ensures
        lx(StateV::Nothing, l, show_arg(x) + seq![' ']) == Ok::<(StateV, nat, Seq<TokenV>), LexErr>(
            (StateV::Nothing, l, arg_toks(x, l)),
        ),
    decreases x, 2nat,
{
    match x {
        ArgumentV::Atom(a) => {
            lemma_lx_atom(a, l);
            lemma_lx_mark(' ', l);
            lemma_lx_join(show_atom(a), seq![' '], atom_toks(a, l), seq![], l);
            assert(atom_toks(a, l) + seq![] =~= atom_toks(a, l));
        },
        ArgumentV::Var(w) => {
            let q = seq![seq!['$'], w];
            assert(q[0] == seq!['$']);
            assert(q[1] == w);
            assert(is_word(q[0]));
            assert(is_name(q));
            assert(q.drop_last() =~= seq![seq!['$']]);
            assert(join_path(q.drop_last()) == seq!['$']);
            assert(join_path(q) =~= seq!['$', '.'] + w);
            lemma_lx_name_space(q, l);
        },
        ArgumentV::Ident(p) => {
            lemma_lx_name_space(p, l);
        },
        ArgumentV::Value(ValueV::Code(c)) => {
            let body = show_exprs(c.exprs);
            lemma_lx_exprs(c.exprs, l);
            lemma_lx_mark('(', l);
            lemma_lx_mark(')', l);
            lemma_lx_mark('\'', l);
            lemma_lx_mark(' ', l);
            let t_open = mark_toks('(', l);
            let t_close = mark_toks(')', l);
            let t_quote = mark_toks('\'', l);
            let t_space = mark_toks(' ', l);
            let e_toks = exprs_toks(c.exprs, l);
            lemma_lx_join(seq!['\''], seq![' '], t_quote, t_space, l);
            lemma_lx_join(seq![')'], seq!['\''] + seq![' '], t_close, t_quote + t_space, l);
            lemma_lx_join(body, seq![')'] + (seq!['\''] + seq![' ']), e_toks, t_close + (t_quote + t_space), l);
            lemma_lx_join(seq![' '], body + (seq![')'] + (seq!['\''] + seq![' '])), t_space, e_toks + (t_close + (t_quote + t_space)), l);
            lemma_lx_join(seq!['('], seq![' '] + (body + (seq![')'] + (seq!['\''] + seq![' ']))), t_open, t_space + (e_toks + (t_close + (t_quote + t_space))), l);
            lemma_lx_join(seq!['\''], seq!['('] + (seq![' '] + (body + (seq![')'] + (seq!['\''] + seq![' '])))), t_quote, t_open + (t_space + (e_toks + (t_close + (t_quote + t_space)))), l);
            assert(show_arg(x) + seq![' '] =~= seq!['\''] + (seq!['('] + (seq![' '] + (body + (seq![')'] + (seq!['\''] + seq![' ']))))));
            assert(arg_toks(x, l) =~= t_quote + (t_open + (t_space + (e_toks + (t_close + (t_quote + t_space))))));
        },
        _ => {},
    }
}

/// Printed expressions, each followed by a space, are read as their tokens.
proof fn lemma_lx_exprs(s: Seq<ExprV>, l: nat)
    requires
        call_only_exprs(s),
    ensures
        lx(StateV::Nothing, l, show_exprs(s)) == Ok::<(StateV, nat, Seq<TokenV>), LexErr>(
            (StateV::Nothing, l, exprs_toks(s, l)),
        ),
    decreases s, 1nat,
{
    if s.len() > 0 {
        let e = s[s.len() - 1];
        let init = s.drop_last();
        assert(call_only_exprs(init) && call_only_expr(e));
        lemma_lx_exprs(init, l);
        if let ExprContV::Atom(a) = e.cont {
            lemma_lx_atom(a, l);
            lemma_lx_mark(' ', l);
            lemma_lx_join(show_atom(a), seq![' '], atom_toks(a, l), seq![], l);
            assert(atom_toks(a, l) + seq![] =~= atom_toks(a, l));
            lemma_lx_join(show_exprs(init), show_expr(e) + seq![' '], exprs_toks(init, l), expr_toks(e, l), l);
            assert(show_exprs(s) =~= show_exprs(init) + (show_expr(e) + seq![' ']));
        }
    }
}

/// Printing a program of calls and reading the text back gives the same
/// program: the same calls, names, arguments and nesting, with every line
/// number now 1, as the text is one line.
pub proof fn lemma_reprint_round_trip(es: Seq<ExprV>)
    requires
        call_only_exprs(es),
    ensures
        lex(show_exprs(es)) == Ok::<Seq<TokenV>, LexErr>(exprs_toks(es, 1)),
        parse_spec(exprs_toks(es, 1)) == Ok::<Seq<ExprV>, ParseErr>(relined_exprs(es, 1)),
{
    lemma_run_chars_forward(show_exprs(es));
    lemma_lx_exprs(es, 1);
    assert(on_line(seq![], 1) =~= Seq::<TokenV>::empty());
    assert(exprs_toks(es, 1) + Seq::<TokenV>::empty() =~= exprs_toks(es, 1));
    lemma_parse_top(es, 1, seq![], seq![]);
    assert(exprs_toks(es, 1) + Seq::<TokenV>::empty() =~= exprs_toks(es, 1));
    assert(Seq::<ExprV>::empty() + relined_exprs(es, 1) =~= relined_exprs(es, 1));
}

} // verus!
