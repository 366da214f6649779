use lyss::tokenizer::{tokenize, State, TokenCont};
use lyss::LyssCompError;

#[test]
fn comment_runs_to_end_of_line() {
    let tokens = tokenize("# a (comment)\n(f)", "c.ls").unwrap();
    assert_eq!(tokens.len(), 3);
    assert!(matches!(&tokens[1].content, TokenCont::Ident(n) if n == "f"));
    assert_eq!(tokens[1].line, 2);
}

#[test]
fn string_escape_keeps_whitespace() {
    let tokens = tokenize("\"a\\ b\"", "s.ls").unwrap();
    assert_eq!(tokens.len(), 1);
    assert!(matches!(&tokens[0].content, TokenCont::String(t) if t == "a b"));
}

#[test]
fn string_holds_parentheses_and_quotes() {
    let tokens = tokenize("(p \"(x)'\")", "s.ls").unwrap();
    assert!(matches!(&tokens[2].content, TokenCont::String(t) if t == "(x)'"));
    assert_eq!(tokens.len(), 4);
}

#[test]
fn dotted_path_is_one_token() {
    let tokens = tokenize("(Builtin.Math.= 1 2)", "p.ls").unwrap();
    assert!(matches!(&tokens[1].content, TokenCont::Path(p) if p == &vec!["Builtin".to_string(), "Math".to_string(), "=".to_string()]));
    assert!(matches!(&tokens[2].content, TokenCont::Digit(d) if d == "1"));
    assert!(matches!(&tokens[3].content, TokenCont::Digit(d) if d == "2"));
    assert!(matches!(tokens[4].content, TokenCont::CParam));
}

#[test]
fn digits_keep_their_points() {
    let tokens = tokenize("(f 1.5 2. 3)", "d.ls").unwrap();
    assert!(matches!(&tokens[2].content, TokenCont::Digit(d) if d == "1.5"));
    assert!(matches!(&tokens[3].content, TokenCont::Digit(d) if d == "2."));
    assert!(matches!(&tokens[4].content, TokenCont::Digit(d) if d == "3"));
}

#[test]
fn macro_captures_verbatim_text() {
    let tokens = tokenize("!(m a (b)\nc)", "m.ls").unwrap();
    assert_eq!(tokens.len(), 1);
    match &tokens[0].content {
        TokenCont::Macro { name, content, line_span } => {
            assert_eq!(name, "m");
            assert_eq!(content, "a (b)\nc");
            assert_eq!(line_span.start, 1);
            assert_eq!(line_span.end, 2);
        }
        other => panic!("{other:?}"),
    }
    assert_eq!(tokens[0].line, 2);
}

#[test]
fn quotes_stand_alone() {
    let tokens = tokenize("'`", "q.ls").unwrap();
    assert!(matches!(tokens[0].content, TokenCont::SingleQuote));
    assert!(matches!(tokens[1].content, TokenCont::MacroQuote));
}

#[test]
fn lines_count_newlines() {
    let tokens = tokenize("(a)\n\n(b\n)", "l.ls").unwrap();
    let lines: Vec<usize> = tokens.iter().map(|t| t.line).collect();
    assert_eq!(lines, vec![1, 1, 1, 3, 3, 4]);
}

#[test]
fn identifier_at_end_is_flushed() {
    let tokens = tokenize("abc", "e.ls").unwrap();
    assert_eq!(tokens.len(), 1);
    assert!(matches!(&tokens[0].content, TokenCont::Ident(n) if n == "abc"));
}

#[test]
fn empty_source_has_no_tokens() {
    assert!(tokenize("", "e.ls").unwrap().is_empty());
}

#[test]
fn unfinished_comment_cannot_stop() {
    let r = tokenize("(a)\n# tail", "c.ls");
    assert!(matches!(r, Err(LyssCompError::CantStopToken { line: 2, file, tokenizer_state: State::Comment }) if file == "c.ls"));
}

#[test]
fn dangling_dot_cannot_stop() {
    let r = tokenize("(a. )", "d.ls");
    assert!(matches!(r, Err(LyssCompError::CantStopToken { tokenizer_state: State::PathDot(_), .. })));
}

#[test]
fn unfinished_macro_cannot_stop() {
    let r = tokenize("!(m abc", "m.ls");
    assert!(matches!(r, Err(LyssCompError::CantStopToken { tokenizer_state: State::Macro { .. }, .. })));
}

#[test]
fn digit_in_identifier_is_unexpected() {
    let r = tokenize("(x1)", "u.ls");
    assert!(matches!(r, Err(LyssCompError::UnexpectedChar { line: 1, character: '1', tokenizer_state: State::Ident(_), .. })));
}
