use lyss::parser::{parse, parse_atom, parse_code, Argument, ExprCont, TokenStream};
use lyss::tokenizer::{tokenize, TokenCont};
use lyss::{LyssCompError, Value};

fn stream(src: &str) -> TokenStream {
    TokenStream::new(tokenize(src, "p.ls").unwrap())
}

#[test]
fn nested_atoms_and_arguments() {
    let exprs = parse(&mut stream("(f (g x) Builtin.print \"s\" 4)")).unwrap();
    let ExprCont::Atom(f) = &exprs[0].cont else { panic!() };
    assert_eq!(f.arguments.len(), 4);
    let Argument::Atom(g) = &f.arguments[0] else { panic!() };
    assert_eq!(g.fn_name.0, vec!["g".to_string()]);
    assert!(matches!(&g.arguments[0], Argument::Ident(p) if p.0 == vec!["x".to_string()]));
    assert!(matches!(&f.arguments[1], Argument::Ident(p) if p.0.len() == 2));
    assert!(matches!(&f.arguments[3], Argument::Value(Value::Num(n)) if n.to_text() == "4"));
}

#[test]
fn quoted_code_becomes_a_value() {
    let exprs = parse(&mut stream("(if '((a) (b))' x)")).unwrap();
    let ExprCont::Atom(a) = &exprs[0].cont else { panic!() };
    let Argument::Value(Value::Code(code)) = &a.arguments[0] else { panic!() };
    assert_eq!(code.exprs.len(), 2);
}

#[test]
fn atom_spans_its_lines() {
    let exprs = parse(&mut stream("(f\n x\n)")).unwrap();
    assert_eq!(exprs[0].line_span.start, 1);
    assert_eq!(exprs[0].line_span.end, 3);
}

#[test]
fn macro_use_at_top_level() {
    let exprs = parse(&mut stream("!(m x y)")).unwrap();
    assert!(matches!(&exprs[0].cont, ExprCont::Macro(m) if m.name == "m" && m.content == "x y"));
}

#[test]
fn code_without_root_atom() {
    let r = parse(&mut stream("(f 'x)"));
    assert!(matches!(r, Err(LyssCompError::CodeWithoutRootAtom { first_token: Some(t) }) if matches!(&t.content, TokenCont::Ident(n) if n == "x")));
}

#[test]
fn code_at_end_of_input() {
    let mut s = stream("");
    assert!(matches!(parse_code(&mut s), Err(LyssCompError::CodeWithoutRootAtom { first_token: None })));
}

#[test]
fn top_level_literal_is_unexpected() {
    let r = parse(&mut stream("\"s\""));
    assert!(matches!(r, Err(LyssCompError::UnexpectedToken { token: Some(_) })));
}

#[test]
fn unclosed_atom_is_unexpected_end() {
    let mut s = stream("f x");
    assert!(matches!(parse_atom(1, &mut s), Err(LyssCompError::UnexpectedToken { token: None })));
}

#[test]
fn atom_must_start_with_a_name() {
    let r = parse(&mut stream("(\"s\")"));
    assert!(matches!(r, Err(LyssCompError::UnexpectedToken { token: Some(_) })));
}

#[test]
fn code_needs_closing_quote() {
    let r = parse(&mut stream("(f '((a)) x)"));
    assert!(matches!(r, Err(LyssCompError::UnexpectedToken { token: Some(_) })));
}

#[test]
fn empty_stream_parses_to_nothing() {
    assert!(parse(&mut stream("")).unwrap().is_empty());
}

#[test]
fn dollar_path_of_three_is_a_name() {
    let exprs = parse(&mut stream("(f $.a.b)")).unwrap();
    let ExprCont::Atom(a) = &exprs[0].cont else { panic!() };
    assert!(matches!(&a.arguments[0], Argument::Ident(p) if p.0.len() == 3));
}
