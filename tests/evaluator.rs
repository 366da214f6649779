use std::rc::Rc;

use lyss::number::Number;
use lyss::parser::{parse, Argument, Atom, ExprCont, FnName, MacroUse, TokenStream};
use lyss::runtime::object::{Object, ObjectEntry};
use lyss::runtime::{Context, HostFunc};
use lyss::tokenizer::tokenize;
use lyss::{LyssRuntimeError, Value};

#[derive(Debug, Clone, Copy, PartialEq)]
enum Probe {
    One,
    Two,
    Count,
}

impl HostFunc for Probe {
    fn call(self, ctx: &mut Context<Probe>, arguments: &[Argument]) -> Result<Value, LyssRuntimeError> {
        match self {
            Probe::One => Ok(Value::Bool(true)),
            Probe::Two => Ok(Value::Bool(false)),
            Probe::Count => {
                let n = ctx.get_var("n").map(|v| matches!(v, Value::Bool(true))).unwrap_or(false);
                ctx.set_var("n".to_string(), Value::Bool(!n));
                Ok(Value::Str(format!("{}", arguments.len())))
            }
        }
    }
}

fn s(x: &str) -> String {
    x.to_string()
}

fn exprs(src: &str) -> Vec<lyss::parser::Expr> {
    parse(&mut TokenStream::new(tokenize(src, "e.ls").unwrap())).unwrap()
}

fn atom(name: &[&str]) -> Atom {
    Atom { line_span: 1..1, fn_name: FnName(name.iter().map(|x| s(x)).collect()), arguments: Vec::new() }
}

#[test]
fn functions_come_before_scopes() {
    let mut ctx: Context<Probe> = Context::new();
    let mut ns: Object<Probe> = Object::new();
    ns.insert(s("f"), ObjectEntry::Leaf(Probe::Two));
    ctx.register_object(s("Ns"), ns);
    ctx.push_scope(&[s("Ns")]).unwrap();
    assert_eq!(ctx.resolve(&[s("f")]).unwrap(), Probe::Two);
    ctx.register(s("f"), ObjectEntry::Leaf(Probe::One));
    assert_eq!(ctx.resolve(&[s("f")]).unwrap(), Probe::One);
}

#[test]
fn latest_scope_wins() {
    let mut ctx: Context<Probe> = Context::new();
    let mut a: Object<Probe> = Object::new();
    a.insert(s("g"), ObjectEntry::Leaf(Probe::One));
    let mut b: Object<Probe> = Object::new();
    b.insert(s("g"), ObjectEntry::Leaf(Probe::Two));
    ctx.register_object(s("A"), a);
    ctx.register_object(s("B"), b);
    ctx.push_scope(&[s("A")]).unwrap();
    ctx.push_scope(&[s("B")]).unwrap();
    assert_eq!(ctx.resolve(&[s("g")]).unwrap(), Probe::Two);
    assert_eq!(ctx.scopes.len(), 2);
}

#[test]
fn scope_shares_the_branch() {
    let mut ctx: Context<Probe> = Context::new();
    let mut a: Object<Probe> = Object::new();
    a.insert(s("g"), ObjectEntry::Leaf(Probe::One));
    ctx.register_object(s("A"), a);
    ctx.push_scope(&[s("A")]).unwrap();
    let ObjectEntry::Branch(b) = ctx.functions.find_entry(&[s("A")]).unwrap() else { panic!() };
    assert!(Rc::ptr_eq(b, &ctx.scopes[0]));
}

#[test]
fn scope_on_a_leaf_fails() {
    let mut ctx: Context<Probe> = Context::new();
    ctx.register(s("f"), ObjectEntry::Leaf(Probe::One));
    assert!(matches!(ctx.push_scope(&[s("f")]), Err(LyssRuntimeError::EntryWasLeaf { .. })));
    assert!(matches!(ctx.push_scope(&[s("nothing")]), Err(LyssRuntimeError::EntryNotFound { .. })));
    assert!(ctx.scopes.is_empty());
}

#[test]
fn unknown_name_reports_its_path() {
    let mut ctx: Context<Probe> = Context::new();
    let r = ctx.execute_atom(&atom(&["no", "such"]));
    assert!(matches!(r, Err(LyssRuntimeError::EntryNotFound { path }) if path == vec![s("no"), s("such")]));
}

#[test]
fn unknown_alias_is_not_found() {
    let ctx: Context<Probe> = Context::new();
    let r = ctx.resolve(&[s("$nope"), s("f")]);
    assert!(matches!(r, Err(LyssRuntimeError::EntryNotFound { path }) if path.len() == 2));
}

#[test]
fn alias_reports_the_substituted_path() {
    let mut ctx: Context<Probe> = Context::new();
    ctx.set_alias(s("$b"), vec![s("Builtin")]);
    let r = ctx.resolve(&[s("$b"), s("f")]);
    assert!(matches!(r, Err(LyssRuntimeError::EntryNotFound { path }) if path == vec![s("Builtin"), s("f")]));
}

#[test]
fn host_function_gets_raw_arguments() {
    let mut ctx: Context<Probe> = Context::new();
    ctx.register(s("count"), ObjectEntry::Leaf(Probe::Count));
    let code = exprs("(count (count) (nothing) $.missing)");
    let r = ctx.run(&code).unwrap();
    assert!(matches!(r, Some(Value::Str(n)) if n == "3"));
    assert!(matches!(ctx.get_var("n"), Some(Value::Bool(true))));
}

#[test]
fn run_of_nothing_is_no_value() {
    let mut ctx: Context<Probe> = Context::new();
    assert!(ctx.run(&[]).unwrap().is_none());
}

#[test]
fn macro_use_is_unimplemented() {
    let mut ctx: Context<Probe> = Context::new();
    let r = ctx.run(&exprs("!(m x)"));
    assert!(matches!(r, Err(LyssRuntimeError::MacroUnimplemented { name }) if name == "m"));
}

#[test]
fn error_stops_the_run() {
    let mut ctx: Context<Probe> = Context::new();
    ctx.register(s("count"), ObjectEntry::Leaf(Probe::Count));
    let r = ctx.run(&exprs("(count) (nothing) (count)"));
    assert!(matches!(r, Err(LyssRuntimeError::EntryNotFound { .. })));
    assert!(matches!(ctx.get_var("n"), Some(Value::Bool(true))));
}

#[test]
fn evaluating_arguments() {
    let mut ctx: Context<Probe> = Context::new();
    ctx.register(s("one"), ObjectEntry::Leaf(Probe::One));
    ctx.set_var(s("x"), Value::Str(s("v")));
    let v = ctx.eval_argument(&Argument::Var(s("x"))).unwrap();
    assert!(matches!(v, Value::Str(t) if t == "v"));
    assert!(matches!(ctx.eval_argument(&Argument::Var(s("y"))), Err(LyssRuntimeError::VarNotFound { name }) if name == "y"));
    assert!(matches!(ctx.eval_argument(&Argument::Atom(atom(&["one"]))), Ok(Value::Bool(true))));
    let lit = Value::Num(Number::parse("2.50").unwrap());
    assert!(ctx.eval_argument(&Argument::Value(lit.clone())).unwrap() == lit);
    let m = Argument::Macro(MacroUse { name: s("m"), content: s("") });
    assert!(matches!(ctx.eval_argument(&m), Err(LyssRuntimeError::MacroUnimplemented { .. })));
    let i = Argument::Ident(FnName(vec![s("a")]));
    assert!(matches!(ctx.eval_argument(&i), Err(LyssRuntimeError::IdentUnimplemented { path }) if path == vec![s("a")]));
}

#[test]
fn quoted_code_is_not_run_when_forced() {
    let mut ctx: Context<Probe> = Context::new();
    ctx.register(s("count"), ObjectEntry::Leaf(Probe::Count));
    let code = exprs("(f '((count))')");
    let ExprCont::Atom(a) = &code[0].cont else { panic!() };
    let v = ctx.eval_argument(&a.arguments[0]).unwrap();
    assert!(matches!(v, Value::Code(c) if c.exprs.len() == 1));
    assert!(ctx.get_var("n").is_none());
}

#[test]
fn set_var_replaces() {
    let mut ctx: Context<Probe> = Context::new();
    ctx.set_var(s("x"), Value::Bool(true));
    ctx.set_var(s("x"), Value::Bool(false));
    assert!(matches!(ctx.get_var("x"), Some(Value::Bool(false))));
    assert_eq!(ctx.variables.len(), 1);
}

#[test]
fn value_equality() {
    let n1 = Value::Num(Number::parse("1.0").unwrap());
    let n2 = Value::Num(Number::parse("01").unwrap());
    assert!(n1 == n2);
    assert!(Value::Str(s("a")) == Value::Str(s("a")));
    assert!(Value::Str(s("a")) != Value::Str(s("b")));
    assert!(Value::Bool(true) != Value::Str(s("true")));
    let l = Value::List(vec![]);
    assert!(l != l.clone());
    let c = exprs("(f '()')");
    let ExprCont::Atom(a) = &c[0].cont else { panic!() };
    let Argument::Value(code) = &a.arguments[0] else { panic!() };
    assert!(code != code);
}
