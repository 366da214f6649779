//! The lexer: a single-pass, character-at-a-time finite-state machine.
use vstd::prelude::*;

use crate::text::{push_char, single, strs_view};
use crate::LyssCompError;

verus! {

/// What a token holds.
#[derive(Debug)]
pub enum TokenCont {
    OParam,
    CParam,
    SingleQuote,
    MacroQuote,
    Ident(String),
    Path(Vec<String>),
    String(String),
    Digit(String),
    Macro { name: String, content: String, line_span: std::ops::Range<usize> },
}

/// A token and the line it was emitted on.
#[derive(Debug)]
pub struct Token {
    pub line: usize,
    pub content: TokenCont,
}

/// The states of the lexer.
#[derive(Debug)]
pub enum State {
    Nothing,
    Comment,
    String(String),
    StringSlash(String),
    Ident(String),
    PathDot(Vec<String>),
    Path(Vec<String>, String),
    Digit(String),
    DigitDot(String),
    MacroWaitAtom,
    MacroWaitContent(String),
    Macro { name: String, content: String, parem_depth: usize, start_line: usize },
}

/// The mathematical content of a token.
pub enum TokenContV {
    OParam,
    CParam,
    SingleQuote,
    MacroQuote,
    Ident(Seq<char>),
    Path(Seq<Seq<char>>),
    String(Seq<char>),
    Digit(Seq<char>),
    Macro { name: Seq<char>, content: Seq<char>, start: nat, end: nat },
}

pub struct TokenV {
    pub line: nat,
    pub content: TokenContV,
}

/// The mathematical content of a lexer state.
pub enum StateV {
    Nothing,
    Comment,
    String(Seq<char>),
    StringSlash(Seq<char>),
    Ident(Seq<char>),
    PathDot(Seq<Seq<char>>),
    Path(Seq<Seq<char>>, Seq<char>),
    Digit(Seq<char>),
    DigitDot(Seq<char>),
    MacroWaitAtom,
    MacroWaitContent(Seq<char>),
    Macro { name: Seq<char>, content: Seq<char>, depth: nat, start_line: nat },
}

impl View for TokenCont {
    type V = TokenContV;

    open spec fn view(&self) -> TokenContV {
        match self {
            TokenCont::OParam => TokenContV::OParam,
            TokenCont::CParam => TokenContV::CParam,
            TokenCont::SingleQuote => TokenContV::SingleQuote,
            TokenCont::MacroQuote => TokenContV::MacroQuote,
            TokenCont::Ident(s) => TokenContV::Ident(s@),
            TokenCont::Path(secs) => TokenContV::Path(strs_view(secs@)),
            TokenCont::String(s) => TokenContV::String(s@),
            TokenCont::Digit(s) => TokenContV::Digit(s@),
            TokenCont::Macro { name, content, line_span } => TokenContV::Macro {
                name: name@,
                content: content@,
                start: line_span.start as nat,
                end: line_span.end as nat,
            },
        }
    }
}

impl View for Token {
    type V = TokenV;

    open spec fn view(&self) -> TokenV {
        TokenV { line: self.line as nat, content: self.content@ }
    }
}

impl View for State {
    type V = StateV;

    open spec fn view(&self) -> StateV {
        match self {
            State::Nothing => StateV::Nothing,
            State::Comment => StateV::Comment,
            State::String(s) => StateV::String(s@),
            State::StringSlash(s) => StateV::StringSlash(s@),
            State::Ident(s) => StateV::Ident(s@),
            State::PathDot(secs) => StateV::PathDot(strs_view(secs@)),
            State::Path(secs, end) => StateV::Path(strs_view(secs@), end@),
            State::Digit(s) => StateV::Digit(s@),
            State::DigitDot(s) => StateV::DigitDot(s@),
            State::MacroWaitAtom => StateV::MacroWaitAtom,
            State::MacroWaitContent(s) => StateV::MacroWaitContent(s@),
            State::Macro { name, content, parem_depth, start_line } => StateV::Macro {
                name: name@,
                content: content@,
                depth: *parem_depth as nat,
                start_line: *start_line as nat,
            },
        }
    }
}

/// The views of a sequence of tokens.
pub open spec fn tokens_view(ts: Seq<Token>) -> Seq<TokenV> {
    ts.map_values(|t: Token| t@)
}

// Character groups.
pub open spec fn is_space(c: char) -> bool {
    c == ' ' || c == '\n' || c == '\t'
}

pub open spec fn is_digit(c: char) -> bool {
    '0' as u32 <= c as u32 <= '9' as u32
}

pub open spec fn is_alphabet(c: char) -> bool {
    ('A' as u32 <= c as u32 <= 'Z' as u32) || ('a' as u32 <= c as u32 <= 'z' as u32)
}

pub open spec fn is_ident_start(c: char) -> bool {
    c == '$' || c == '=' || c == '<' || c == '>' || c == '_' || c == '-' || c == '+' || c == '/'
        || c == '*' || is_alphabet(c)
}

pub open spec fn is_ident(c: char) -> bool {
    is_ident_start(c) || c == '!'
}

/// Why one step of the lexer fails.
pub enum StepErr {
    /// A parenthesis asked to flush a state that cannot end there.
    CantStop(StateV),
    /// No transition accepts the character in this state.
    Unexpected(StateV),
}

/// The token that a state stands for when it is flushed, if any; `None` for a
/// state that cannot end without a closing character.
pub open spec fn finish(st: StateV) -> Option<Option<TokenContV>> {
    match st {
        StateV::Nothing => Some(None),
        StateV::String(s) => Some(Some(TokenContV::String(s))),
        StateV::Ident(s) => Some(Some(TokenContV::Ident(s))),
        StateV::Digit(s) => Some(Some(TokenContV::Digit(s))),
        StateV::DigitDot(s) => Some(Some(TokenContV::Digit(s))),
        StateV::Path(secs, end) => Some(Some(TokenContV::Path(secs.push(end)))),
        _ => None,
    }
}

pub open spec fn opt_seq(t: Option<TokenContV>) -> Seq<TokenContV> {
    match t {
        Some(t) => seq![t],
        None => seq![],
    }
}

/// The transitions that every state shares: parentheses flush the state and
/// add their own token, quote marks stand alone after a finished token, and
/// whitespace changes nothing.
pub open spec fn fallback(st: StateV, c: char) -> Result<(StateV, Seq<TokenContV>), StepErr> {
    if c == '(' || c == ')' {
        match finish(st) {
            Some(t) => Ok(
                (
                    StateV::Nothing,
                    opt_seq(t).push(
                        if c == '(' {
                            TokenContV::OParam
                        } else {
                            TokenContV::CParam
                        },
                    ),
                ),
            ),
            None => Err(StepErr::CantStop(st)),
        }
    } else if st is Nothing && c == '\'' {
        Ok((StateV::Nothing, seq![TokenContV::SingleQuote]))
    } else if st is Nothing && c == '`' {
        Ok((StateV::Nothing, seq![TokenContV::MacroQuote]))
    } else if is_space(c) {
        Ok((st, seq![]))
    } else {
        Err(StepErr::Unexpected(st))
    }
}

/// One step of the lexer on character `c` read on line `line`: the next state
/// and the tokens emitted.
pub open spec fn step(st: StateV, c: char, line: nat) -> Result<(StateV, Seq<TokenContV>), StepErr> {
    match st {
        StateV::Comment => if c == '\n' {
            Ok((StateV::Nothing, seq![]))
        } else {
            Ok((StateV::Comment, seq![]))
        },
        StateV::Nothing => if c == '#' {
            Ok((StateV::Comment, seq![]))
        } else if c == '"' {
            Ok((StateV::String(seq![]), seq![]))
        } else if is_digit(c) {
            Ok((StateV::Digit(seq![c]), seq![]))
        } else if is_ident_start(c) {
            Ok((StateV::Ident(seq![c]), seq![]))
        } else if c == '!' {
            Ok((StateV::MacroWaitAtom, seq![]))
        } else {
            fallback(st, c)
        },
        StateV::String(s) => if c == '\\' {
            Ok((StateV::StringSlash(s), seq![]))
        } else if c == '"' {
            Ok((StateV::Nothing, seq![TokenContV::String(s)]))
        } else {
            Ok((StateV::String(s.push(c)), seq![]))
        },
        StateV::StringSlash(s) => if is_space(c) {
            Ok((StateV::String(s.push(c)), seq![]))
        } else {
            fallback(st, c)
        },
        StateV::Digit(s) => if is_digit(c) {
            Ok((StateV::Digit(s.push(c)), seq![]))
        } else if c == '.' {
            Ok((StateV::DigitDot(s.push('.')), seq![]))
        } else if is_space(c) {
            Ok((StateV::Nothing, seq![TokenContV::Digit(s)]))
        } else {
            fallback(st, c)
        },
        StateV::DigitDot(s) => if is_digit(c) {
            Ok((StateV::Digit(s.push(c)), seq![]))
        } else if is_space(c) {
            Ok((StateV::Nothing, seq![TokenContV::Digit(s)]))
        } else {
            fallback(st, c)
        },
        StateV::Ident(s) => if is_ident(c) {
            Ok((StateV::Ident(s.push(c)), seq![]))
        } else if is_space(c) {
            Ok((StateV::Nothing, seq![TokenContV::Ident(s)]))
        } else if c == '.' {
            Ok((StateV::PathDot(seq![s]), seq![]))
        } else {
            fallback(st, c)
        },
        StateV::PathDot(secs) => if is_ident(c) {
            Ok((StateV::Path(secs, seq![c]), seq![]))
        } else {
            fallback(st, c)
        },
        StateV::Path(secs, end) => if c == '.' {
            Ok((StateV::PathDot(secs.push(end)), seq![]))
        } else if is_ident(c) {
            Ok((StateV::Path(secs, end.push(c)), seq![]))
        } else if is_space(c) {
            Ok((StateV::Nothing, seq![TokenContV::Path(secs.push(end))]))
        } else {
            fallback(st, c)
        },
        StateV::MacroWaitAtom => if c == '(' {
            Ok((StateV::MacroWaitContent(seq![]), seq![]))
        } else {
            fallback(st, c)
        },
        StateV::MacroWaitContent(name) => if is_ident(c) {
            Ok((StateV::MacroWaitContent(name.push(c)), seq![]))
        } else if c == ' ' {
            Ok(
                (
                    StateV::Macro { name, content: seq![], depth: 0, start_line: line },
                    seq![],
                ),
            )
        } else {
            fallback(st, c)
        },
        StateV::Macro { name, content, depth, start_line } => if c == '(' {
            Ok((StateV::Macro { name, content: content.push('('), depth: depth + 1, start_line }, seq![]))
        } else if c == ')' && depth == 0 {
            Ok(
                (
                    StateV::Nothing,
                    seq![TokenContV::Macro { name, content, start: start_line, end: line }],
                ),
            )
        } else if c == ')' {
            Ok(
                (
                    StateV::Macro { name, content: content.push(')'), depth: (depth - 1) as nat, start_line },
                    seq![],
                ),
            )
        } else {
            Ok((StateV::Macro { name, content: content.push(c), depth, start_line }, seq![]))
        },
    }
}

/// How deep a macro's content is nested in parentheses (0 outside a macro).
pub open spec fn depth_of(st: StateV) -> nat {
    match st {
        StateV::Macro { depth, .. } => depth,
        _ => 0,
    }
}

/// Tokens all emitted on one line.
pub open spec fn on_line(ts: Seq<TokenContV>, line: nat) -> Seq<TokenV> {
    ts.map_values(|t: TokenContV| TokenV { line, content: t })
}

/// Why lexing fails, and on which line.
pub enum LexErr {
    CantStop { line: nat, state: StateV },
    Unexpected { line: nat, state: StateV, c: char },
}

/// The line counter after reading `c` on line `line`.
pub open spec fn next_line(line: nat, c: char) -> nat {
    if c == '\n' {
        line + 1
    } else {
        line
    }
}

/// The lexer run over `cs`: the state it is left in, the current line, and
/// the tokens emitted so far.
pub open spec fn run_chars(cs: Seq<char>) -> Result<(StateV, nat, Seq<TokenV>), LexErr>
    decreases cs.len(),
{
    if cs.len() == 0 {
        Ok((StateV::Nothing, 1, seq![]))
    } else {
        let c = cs.last();
        match run_chars(cs.drop_last()) {
            Err(e) => Err(e),
            Ok((st, line, toks)) => match step(st, c, line) {
                Ok((st2, emitted)) => Ok((st2, next_line(line, c), toks + on_line(emitted, line))),
                Err(StepErr::CantStop(s)) => Err(LexErr::CantStop { line, state: s }),
                Err(StepErr::Unexpected(s)) => Err(LexErr::Unexpected { line, state: s, c }),
            },
        }
    }
}

/// The token stream of a whole source text: at its end the state in hand is
/// flushed, or the input fails with the state that cannot end there.
pub open spec fn lex(cs: Seq<char>) -> Result<Seq<TokenV>, LexErr> {
    match run_chars(cs) {
        Err(e) => Err(e),
        Ok((st, line, toks)) => match finish(st) {
            Some(t) => Ok(toks + on_line(opt_seq(t), line)),
            None => Err(LexErr::CantStop { line, state: st }),
        },
    }
}

/// `r` is what `lex` gives, with `file` as the source identity of an error.
pub open spec fn lexed_as(
    r: Result<Vec<Token>, LyssCompError>,
    file: Seq<char>,
    expected: Result<Seq<TokenV>, LexErr>,
) -> bool {
    match expected {
        Ok(ts) => r is Ok && tokens_view(r->Ok_0@) == ts,
        Err(LexErr::CantStop { line, state }) => match r {
            Err(LyssCompError::CantStopToken { line: l, file: f, tokenizer_state }) => l == line
                && f@ == file && tokenizer_state@ == state,
            _ => false,
        },
        Err(LexErr::Unexpected { line, state, c }) => match r {
            Err(LyssCompError::UnexpectedChar { line: l, file: f, tokenizer_state, character }) => l
                == line && f@ == file && tokenizer_state@ == state && character == c,
            _ => false,
        },
    }
}

fn space(c: char) -> (r: bool)
    ensures
        r == is_space(c),
{
    c == ' ' || c == '\n' || c == '\t'
}

pub(crate) fn digit(c: char) -> (r: bool)
    ensures
        r == is_digit(c),
{
    '0' as u32 <= c as u32 && c as u32 <= '9' as u32
}

fn ident_start(c: char) -> (r: bool)
    ensures
        r == is_ident_start(c),
{
    c == '$' || c == '=' || c == '<' || c == '>' || c == '_' || c == '-' || c == '+' || c == '/'
        || c == '*' || ('A' as u32 <= c as u32 && c as u32 <= 'Z' as u32) || ('a' as u32
        <= c as u32 && c as u32 <= 'z' as u32)
}

fn ident(c: char) -> (r: bool)
    ensures
        r == is_ident(c),
{
    ident_start(c) || c == '!'
}

fn emit(tokens: &mut Vec<Token>, line: usize, content: TokenCont)
    ensures
        final(tokens)@ == old(tokens)@.push(Token { line, content }),
{
    tokens.push(Token { line, content });
}

/// The state after its last path segment is closed.
fn close_path(secs: Vec<String>, end: String) -> (r: Vec<String>)
    ensures
        strs_view(r@) == strs_view(secs@).push(end@),
{
    let mut all = secs;
    all.push(end);
    proof {
        assert(strs_view(all@) =~= strs_view(secs@).push(end@));
    }
    all
}

impl State {
    /// Flushes the state into the token it stands for, if any.
    pub fn into_token(self, line: usize, file: &str) -> (r: Result<Option<TokenCont>, LyssCompError>)
        ensures
            match finish(self@) {
                Some(t) => r is Ok && match (r->Ok_0, t) {
                    (Some(a), Some(b)) => a@ == b,
                    (None, None) => true,
                    _ => false,
                },
                None => match r {
                    Err(LyssCompError::CantStopToken { line: l, file: f, tokenizer_state }) => l
                        == line && f@ == file@ && tokenizer_state@ == self@,
                    _ => false,
                },
            },
    {
        match self {
            State::Nothing => Ok(None),
            State::String(cnt) => Ok(Some(TokenCont::String(cnt))),
            State::Ident(cnt) => Ok(Some(TokenCont::Ident(cnt))),
            State::Digit(cnt) => Ok(Some(TokenCont::Digit(cnt))),
            State::DigitDot(cnt) => Ok(Some(TokenCont::Digit(cnt))),
            State::Path(secs, end) => Ok(Some(TokenCont::Path(close_path(secs, end)))),
            _ => Err(
                LyssCompError::CantStopToken {
                    line,
                    file: file.to_owned(),
                    tokenizer_state: self,
                },
            ),
        }
    }

    /// The shared transitions (see `fallback`).
    fn fallback(self, c: char, line: usize, file: &str, tokens: &mut Vec<Token>) -> (r: Result<
        State,
        LyssCompError,
    >)
        ensures
            step_done(self@, c, line, file@, old(tokens)@, final(tokens)@, r, fallback(self@, c)),
    {
        let ghost before = tokens@;
        if c == '(' || c == ')' {
            match self.into_token(line, file) {
                Ok(t) => {
                    match t {
                        Some(t) => emit(tokens, line, t),
                        None => {},
                    }
                    let ghost mid2 = tokens@;
                    emit(
                        tokens,
                        line,
                        if c == '(' {
                            TokenCont::OParam
                        } else {
                            TokenCont::CParam
                        },
                    );
                    proof {
                        let emitted = opt_seq(match finish(self@) {
                            Some(x) => x,
                            None => None,
                        });
                        assert(tokens_view(mid2) =~= tokens_view(before) + on_line(emitted, line as nat));
                        let paren = if c == '(' { TokenContV::OParam } else { TokenContV::CParam };
                        assert(tokens_view(tokens@) =~= tokens_view(mid2).push(TokenV { line: line as nat, content: paren }));
                        assert(on_line(emitted.push(paren), line as nat) =~= on_line(emitted, line as nat).push(TokenV { line: line as nat, content: paren }));
                    }
                    Ok(State::Nothing)
                },
                Err(e) => {
                    Err(e)
                },
            }
        } else if c == '\'' && matches!(self, State::Nothing) {
            emit(tokens, line, TokenCont::SingleQuote);
            proof {
                assert(tokens_view(tokens@) =~= tokens_view(before) + on_line(seq![TokenContV::SingleQuote], line as nat));
            }
            Ok(State::Nothing)
        } else if c == '`' && matches!(self, State::Nothing) {
            emit(tokens, line, TokenCont::MacroQuote);
            proof {
                assert(tokens_view(tokens@) =~= tokens_view(before) + on_line(seq![TokenContV::MacroQuote], line as nat));
            }
            Ok(State::Nothing)
        } else if space(c) {
            proof {
                assert(tokens_view(tokens@) =~= tokens_view(before) + on_line(seq![], line as nat));
            }
            Ok(self)
        } else {
            Err(
                LyssCompError::UnexpectedChar {
                    line,
                    file: file.to_owned(),
                    tokenizer_state: self,
                    character: c,
                },
            )
        }
    }
}

/// What one exec step must do: leave the tokens and state that `expected`
/// gives, or fail as it says.
pub open spec fn step_done(
    st: StateV,
    c: char,
    line: usize,
    file: Seq<char>,
    before: Seq<Token>,
    after: Seq<Token>,
    r: Result<State, LyssCompError>,
    expected: Result<(StateV, Seq<TokenContV>), StepErr>,
) -> bool {
    match expected {
        Ok((st2, emitted)) => r is Ok && r->Ok_0@ == st2 && tokens_view(after) == tokens_view(
            before,
        ) + on_line(emitted, line as nat),
        Err(StepErr::CantStop(s)) => match r {
            Err(LyssCompError::CantStopToken { line: l, file: f, tokenizer_state }) => l == line
                && f@ == file && tokenizer_state@ == s,
            _ => false,
        },
        Err(StepErr::Unexpected(s)) => match r {
            Err(LyssCompError::UnexpectedChar { line: l, file: f, tokenizer_state, character }) => l
                == line && f@ == file && tokenizer_state@ == s && character == c,
            _ => false,
        },
    }
}


proof fn lemma_emit_one(before: Seq<Token>, t: Token)
    ensures
        tokens_view(before.push(t)) == tokens_view(before) + on_line(seq![t.content@], t.line as nat),
{
    assert(tokens_view(before.push(t)) =~= tokens_view(before) + on_line(seq![t.content@], t.line as nat));
}

proof fn lemma_emit_none(before: Seq<Token>, line: nat)
    ensures
        tokens_view(before) == tokens_view(before) + on_line(seq![], line),
{
    assert(tokens_view(before) =~= tokens_view(before) + on_line(seq![], line));
}

impl State {
    /// One step of the lexer (see `step`): moves the state on by `c`, read on
    /// line `line`, and appends what it emits to `tokens`.
    fn advance(self, c: char, line: usize, file: &str, tokens: &mut Vec<Token>) -> (r: Result<
        State,
        LyssCompError,
    >)
        requires
            depth_of(self@) < usize::MAX,
        ensures
            step_done(self@, c, line, file@, old(tokens)@, final(tokens)@, r, step(self@, c, line as nat)),
    {
        let ghost before = tokens@;
        proof {
            lemma_emit_none(before, line as nat);
        }
        match self {
            State::Comment => if c == '\n' {
                Ok(State::Nothing)
            } else {
                Ok(State::Comment)
            },
            State::Nothing => if c == '#' {
                Ok(State::Comment)
            } else if c == '"' {
                Ok(State::String(String::new()))
            } else if digit(c) {
                Ok(State::Digit(single(c)))
            } else if ident_start(c) {
                Ok(State::Ident(single(c)))
            } else if c == '!' {
                Ok(State::MacroWaitAtom)
            } else {
                State::Nothing.fallback(c, line, file, tokens)
            },
            State::String(mut cnt) => if c == '\\' {
                Ok(State::StringSlash(cnt))
            } else if c == '"' {
                emit(tokens, line, TokenCont::String(cnt));
                proof {
                    lemma_emit_one(before, tokens@.last());
                }
                Ok(State::Nothing)
            } else {
                push_char(&mut cnt, c);
                Ok(State::String(cnt))
            },
            State::StringSlash(mut cnt) => if space(c) {
                push_char(&mut cnt, c);
                Ok(State::String(cnt))
            } else {
                State::StringSlash(cnt).fallback(c, line, file, tokens)
            },
            State::Digit(mut cnt) => if digit(c) {
                push_char(&mut cnt, c);
                Ok(State::Digit(cnt))
            } else if c == '.' {
                push_char(&mut cnt, '.');
                Ok(State::DigitDot(cnt))
            } else if space(c) {
                emit(tokens, line, TokenCont::Digit(cnt));
                proof {
                    lemma_emit_one(before, tokens@.last());
                }
                Ok(State::Nothing)
            } else {
                State::Digit(cnt).fallback(c, line, file, tokens)
            },
            State::DigitDot(mut cnt) => if digit(c) {
                push_char(&mut cnt, c);
                Ok(State::Digit(cnt))
            } else if space(c) {
                emit(tokens, line, TokenCont::Digit(cnt));
                proof {
                    lemma_emit_one(before, tokens@.last());
                }
                Ok(State::Nothing)
            } else {
                State::DigitDot(cnt).fallback(c, line, file, tokens)
            },
            State::Ident(mut cnt) => if ident(c) {
                push_char(&mut cnt, c);
                Ok(State::Ident(cnt))
            } else if space(c) {
                emit(tokens, line, TokenCont::Ident(cnt));
                proof {
                    lemma_emit_one(before, tokens@.last());
                }
                Ok(State::Nothing)
            } else if c == '.' {
                let secs = vec![cnt];
                proof {
                    assert(strs_view(secs@) =~= seq![cnt@]);
                }
                Ok(State::PathDot(secs))
            } else {
                State::Ident(cnt).fallback(c, line, file, tokens)
            },
            State::PathDot(secs) => if ident(c) {
                Ok(State::Path(secs, single(c)))
            } else {
                State::PathDot(secs).fallback(c, line, file, tokens)
            },
            State::Path(secs, mut end) => if c == '.' {
                Ok(State::PathDot(close_path(secs, end)))
            } else if ident(c) {
                push_char(&mut end, c);
                Ok(State::Path(secs, end))
            } else if space(c) {
                emit(tokens, line, TokenCont::Path(close_path(secs, end)));
                proof {
                    lemma_emit_one(before, tokens@.last());
                }
                Ok(State::Nothing)
            } else {
                State::Path(secs, end).fallback(c, line, file, tokens)
            },
            State::MacroWaitAtom => if c == '(' {
                Ok(State::MacroWaitContent(String::new()))
            } else {
                State::MacroWaitAtom.fallback(c, line, file, tokens)
            },
            State::MacroWaitContent(mut name) => if ident(c) {
                push_char(&mut name, c);
                Ok(State::MacroWaitContent(name))
            } else if c == ' ' {
                Ok(State::Macro { name, content: String::new(), parem_depth: 0, start_line: line })
            } else {
                State::MacroWaitContent(name).fallback(c, line, file, tokens)
            },
            State::Macro { name, mut content, parem_depth, start_line } => if c == '(' {
                push_char(&mut content, '(');
                Ok(State::Macro { name, content, parem_depth: parem_depth + 1, start_line })
            } else if c == ')' && parem_depth == 0 {
                emit(tokens, line, TokenCont::Macro { name, content, line_span: start_line..line });
                proof {
                    lemma_emit_one(before, tokens@.last());
                }
                Ok(State::Nothing)
            } else if c == ')' {
                push_char(&mut content, ')');
                Ok(State::Macro { name, content, parem_depth: parem_depth - 1, start_line })
            } else {
                push_char(&mut content, c);
                Ok(State::Macro { name, content, parem_depth, start_line })
            },
        }
    }
}


/// Once the lexer fails on a prefix, it fails in the same way on the whole.
proof fn lemma_error_persists(cs: Seq<char>, i: int)
    requires
        0 <= i <= cs.len(),
        run_chars(cs.take(i)) is Err,
    ensures
        run_chars(cs) == run_chars(cs.take(i)),
    decreases cs.len() - i,
{
    if i < cs.len() {
        assert(cs.take(i + 1).drop_last() =~= cs.take(i));
        lemma_error_persists(cs, i + 1);
    } else {
        assert(cs.take(i) =~= cs);
    }
}

/// Turns a source text into its tokens; `file_name` names the source in errors.
pub fn tokenize(content: &str, file_name: &str) -> (r: Result<Vec<Token>, LyssCompError>)
    requires
        content@.len() < usize::MAX,
    ensures
        lexed_as(r, file_name@, lex(content@)),
{
    let mut state = State::Nothing;
    let mut tokens: Vec<Token> = Vec::new();
    let mut line: usize = 1;
    proof {
        assert(content@.take(0) =~= Seq::<char>::empty());
        assert(tokens_view(tokens@) =~= Seq::<TokenV>::empty());
    }
    for c in it: content.chars()
        invariant
            it.seq() == content@,
            content@.len() < usize::MAX,
            run_chars(content@.take(it.index() as int)) == Ok::<(StateV, nat, Seq<TokenV>), LexErr>(
                (state@, line as nat, tokens_view(tokens@)),
            ),
            line <= it.index() + 1,
            depth_of(state@) <= it.index(),
    {
        let ghost i = it.index() as int;
        proof {
            assert(content@.take(i + 1).drop_last() =~= content@.take(i));
            assert(content@.take(i + 1).last() == c);
        }
        match state.advance(c, line, file_name, &mut tokens) {
            Ok(next) => {
                state = next;
            },
            Err(e) => {
                proof {
                    lemma_error_persists(content@, i + 1);
                }
                return Err(e);
            },
        }
        if c == '\n' {
            line = line + 1;
        }
    }
    proof {
        assert(content@.take(content@.len() as int) =~= content@);
    }
    let ghost before = tokens@;
    match state.into_token(line, file_name) {
        Ok(Some(t)) => {
            tokens.push(Token { line, content: t });
            proof {
                lemma_emit_one(before, tokens@.last());
            }
            Ok(tokens)
        },
        Ok(None) => {
            proof {
                lemma_emit_none(before, line as nat);
            }
            Ok(tokens)
        },
        Err(e) => Err(e),
    }
}

} // verus!
