use lyss::display::DisplayValue;
use lyss::number::Number;
use lyss::parser::{parse, Argument, Expr, ExprCont, FnName, TokenStream};
use lyss::tokenizer::tokenize;
use lyss::Value;

fn exprs(src: &str) -> Vec<Expr> {
    parse(&mut TokenStream::new(tokenize(src, "r.ls").unwrap())).unwrap()
}

/// The shape of an argument list: call names, argument counts and nesting.
fn shape_args(args: &[Argument]) -> String {
    let mut out = String::new();
    for a in args {
        match a {
            Argument::Atom(at) => out.push_str(&format!("({} {})", at.fn_name.0.join("."), shape_args(&at.arguments))),
            Argument::Value(Value::Code(c)) => out.push_str(&format!("'{}'", shape(&c.exprs))),
            _ => out.push('_'),
        }
    }
    out
}

fn shape(es: &[Expr]) -> String {
    let mut out = String::new();
    for e in es {
        match &e.cont {
            ExprCont::Atom(at) => out.push_str(&format!("({} {})", at.fn_name.0.join("."), shape_args(&at.arguments))),
            ExprCont::Macro(m) => out.push_str(&format!("!{}", m.name)),
        }
    }
    out
}

#[test]
fn printed_program_parses_to_the_same_shape() {
    let src = "(local $.x \"v\") (if '((Math.= $.x \"v\"))' '((print \"yes\" 1.50))' else '((print x))') !(m (a) b)";
    let first = exprs(src);
    let printed: Vec<String> = first.iter().map(|e| e.to_text()).collect();
    let second = exprs(&printed.join(" "));
    assert_eq!(shape(&first), shape(&second));
}

#[test]
fn call_renders_with_spaces() {
    let e = exprs("(f $.x \"s\" 2.0 (g) a.b)");
    assert_eq!(e[0].to_text(), "(f $.x \"s\" 2 (g ) a.b )");
}

#[test]
fn code_renders_between_quotes() {
    let e = exprs("(f '((g) (h 1))')");
    let ExprCont::Atom(a) = &e[0].cont else { panic!() };
    assert_eq!(a.arguments[0].to_text(), "'( (g ) (h 1 ) )'");
}

#[test]
fn macro_renders_its_content() {
    let e = exprs("!(m x (y))");
    assert_eq!(e[0].to_text(), "! (m x (y))");
    assert_eq!(e[0].cont.to_text(), "! (m x (y))");
}

#[test]
fn values_render() {
    assert_eq!(Value::Bool(true).to_text(), "true");
    assert_eq!(Value::Str("a b".to_string()).to_text(), "\"a b\"");
    assert_eq!(Value::Num(Number::parse("3.10").unwrap()).to_text(), "3.1");
    let l = Value::List(vec![Value::Bool(false), Value::Str("s".to_string())]);
    assert_eq!(l.to_text(), "[ false  \"s\" ]");
    assert_eq!(FnName(vec!["a".to_string(), "b".to_string()]).to_text(), "a.b");
}

#[test]
fn output_shows_strings_bare() {
    assert_eq!(DisplayValue(Value::Str("hi".to_string())).to_text(), "hi");
    assert_eq!(DisplayValue(Value::Bool(false)).to_text(), "false");
    let l = Value::List(vec![Value::Str("s".to_string())]);
    assert_eq!(DisplayValue(l).to_text(), "[ \"s\" ]");
}
