use std::rc::Rc;

use lyss::number::Number;
use lyss::parser::{parse, Argument, ExprCont, TokenStream};
use lyss::runtime::api::Api;
use lyss::runtime::object::{Object, ObjectEntry};
use lyss::runtime::{Context, HostFunc};
use lyss::tokenizer::{tokenize, TokenCont};
use lyss::{LyssCompError, LyssRuntimeError, Value};

#[derive(Debug, Clone, Copy, PartialEq)]
enum Host {
    Greet,
    Echo,
    Fail,
    If,
    Local,
}

fn code_of(arg: &Argument) -> Result<&lyss::parser::Code, LyssRuntimeError> {
    match Api::expect_literal(arg) {
        Some(Value::Code(c)) => Ok(c),
        _ => Err(LyssRuntimeError::UnexpectedArg { arg: arg.clone(), expected: "code".to_string() }),
    }
}

impl HostFunc for Host {
    fn call(self, ctx: &mut Context<Host>, arguments: &[Argument]) -> Result<Value, LyssRuntimeError> {
        match self {
            Host::Greet => Ok(Value::Str("greet".to_string())),
            Host::Echo => {
                let a = Api::needs_nth_arg(arguments, 0)?;
                ctx.eval_argument(a)
            }
            Host::Fail => Err(LyssRuntimeError::NeedsArg),
            Host::Local => {
                Api::assert_args_count(arguments, 2)?;
                let name = Api::expect_var(Api::needs_nth_arg(arguments, 0)?).unwrap().clone();
                let v = ctx.eval_argument(Api::needs_nth_arg(arguments, 1)?)?;
                ctx.set_var(name, v.clone());
                Ok(v)
            }
            Host::If => {
                Api::assert_args_valid_counts(arguments, [4])?;
                Api::expect_this_text(Api::needs_nth_arg(arguments, 2)?, "else")?;
                let cond = code_of(Api::needs_nth_arg(arguments, 0)?)?;
                let c = ctx.run(&cond.exprs)?;
                let branch = match c {
                    Some(Value::Bool(true)) => 1,
                    Some(Value::Bool(false)) => 3,
                    _ => return Err(LyssRuntimeError::NeedsArg),
                };
                let code = code_of(Api::needs_nth_arg(arguments, branch)?)?;
                ctx.run(&code.exprs)?.ok_or(LyssRuntimeError::NeedsArg)
            }
        }
    }
}

fn parse_text(src: &str) -> Vec<lyss::parser::Expr> {
    let tokens = tokenize(src, "test.ls").unwrap();
    let mut stream = TokenStream::new(tokens);
    parse(&mut stream).unwrap()
}

fn s(x: &str) -> String {
    x.to_string()
}

#[test]
fn lexing_print_hi() {
    let tokens = tokenize("(print \"hi\")", "test.ls").unwrap();
    assert_eq!(tokens.len(), 4);
    assert!(matches!(tokens[0].content, TokenCont::OParam));
    assert!(matches!(&tokens[1].content, TokenCont::Ident(n) if n == "print"));
    assert!(matches!(&tokens[2].content, TokenCont::String(t) if t == "hi"));
    assert!(matches!(tokens[3].content, TokenCont::CParam));
    assert!(tokens.iter().all(|t| t.line == 1));
}

#[test]
fn parsing_local_var() {
    let exprs = parse_text("(local $.x \"v\")");
    assert_eq!(exprs.len(), 1);
    let ExprCont::Atom(atom) = &exprs[0].cont else { panic!("not an atom") };
    assert_eq!(atom.fn_name.0, vec![s("local")]);
    assert_eq!(atom.arguments.len(), 2);
    assert!(matches!(&atom.arguments[0], Argument::Var(x) if x == "x"));
    assert!(matches!(&atom.arguments[1], Argument::Value(Value::Str(v)) if v == "v"));
}

#[test]
fn find_leaf_in_math_branch() {
    let mut math: Object<u32> = Object::new();
    math.insert(s("="), ObjectEntry::Leaf(7));
    let mut root: Object<u32> = Object::new();
    root.insert(s("Math"), ObjectEntry::Branch(Rc::new(math)));
    assert_eq!(root.find_leaf(&[s("Math"), s("=")]).unwrap(), 7);
    assert!(matches!(root.find_leaf(&[s("Math")]), Err(LyssRuntimeError::EntryWasBranch { .. })));
}

#[test]
fn alias_resolves_to_same_leaf() {
    let mut ctx: Context<Host> = Context::new();
    let mut builtin: Object<Host> = Object::new();
    builtin.insert(s("print"), ObjectEntry::Leaf(Host::Greet));
    ctx.register_object(s("Builtin"), builtin);
    ctx.set_alias(s("$greet"), vec![s("Builtin")]);
    assert_eq!(ctx.resolve(&[s("$greet"), s("print")]).unwrap(), Host::Greet);
    assert_eq!(ctx.resolve(&[s("Builtin"), s("print")]).unwrap(), Host::Greet);
    let exprs = parse_text("($greet.print \"hi\") (Builtin.print \"hi\")");
    let ExprCont::Atom(a) = &exprs[0].cont else { panic!() };
    let ExprCont::Atom(b) = &exprs[1].cont else { panic!() };
    let ra = ctx.execute_atom(a).unwrap();
    let rb = ctx.execute_atom(b).unwrap();
    assert!(matches!((ra, rb), (Value::Str(x), Value::Str(y)) if x == y));
}

#[test]
fn run_gives_last_value() {
    let mut ctx: Context<Host> = Context::new();
    ctx.register(s("echo"), ObjectEntry::Leaf(Host::Echo));
    let exprs = parse_text("(echo \"a\") (echo \"b\") (echo \"c\")");
    let r = ctx.run(&exprs).unwrap();
    assert!(matches!(r, Some(Value::Str(x)) if x == "c"));
    assert!(ctx.run(&[]).unwrap().is_none());
}

#[test]
fn untaken_branch_never_runs() {
    let mut ctx: Context<Host> = Context::new();
    ctx.register(s("if"), ObjectEntry::Leaf(Host::If));
    ctx.register(s("echo"), ObjectEntry::Leaf(Host::Echo));
    ctx.register(s("fail"), ObjectEntry::Leaf(Host::Fail));
    ctx.register(s("local"), ObjectEntry::Leaf(Host::Local));
    ctx.set_var(s("t"), Value::Bool(true));
    let exprs = parse_text("(if '((echo $.t))' '((echo \"A\"))' else '((fail))')");
    let r = ctx.run(&exprs).unwrap();
    assert!(matches!(r, Some(Value::Str(x)) if x == "A"));
}

#[test]
fn number_literal_is_normalised() {
    let exprs = parse_text("(f 007.50 3)");
    let ExprCont::Atom(a) = &exprs[0].cont else { panic!() };
    let Argument::Value(Value::Num(n)) = &a.arguments[0] else { panic!() };
    assert_eq!(n.to_text(), "7.5");
    assert!(Number::parse("7.500").unwrap() == *n);
    assert!(Number::parse("1.2.3").is_none());
}

#[test]
fn bad_number_fails_to_parse() {
    let tokens = tokenize("(f 1.2.3)", "test.ls").unwrap();
    let mut stream = TokenStream::new(tokens);
    assert!(matches!(parse(&mut stream), Err(LyssCompError::ParseFloat { text }) if text == "1.2.3"));
}
