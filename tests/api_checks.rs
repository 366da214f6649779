use lyss::number::Number;
use lyss::parser::{Argument, FnName};
use lyss::runtime::api::Api;
use lyss::{LyssRuntimeError, Value};

fn ident(x: &str) -> Argument {
    Argument::Ident(FnName(vec![x.to_string()]))
}

#[test]
fn expect_this_text_matches_bare_names() {
    assert!(Api::expect_this_text(&ident("else"), "else").is_ok());
    assert!(Api::expect_this_text(&Argument::Value(Value::Ident(FnName(vec!["else".to_string()]))), "else").is_ok());
    let r = Api::expect_this_text(&ident("elsewhere"), "else");
    assert!(matches!(r, Err(LyssRuntimeError::LiteralNotFound { expected, got: Argument::Ident(_) }) if expected == "else"));
    assert!(Api::expect_this_text(&Argument::Var("else".to_string()), "else").is_err());
}

#[test]
fn expectations_pick_their_kind() {
    let v = Argument::Var("x".to_string());
    assert_eq!(Api::expect_var(&v).map(|s| s.as_str()), Some("x"));
    assert!(Api::expect_ident(&v).is_none());
    assert!(Api::expect_ident(&ident("a")).is_some());
    assert!(Api::expect_atom(&v).is_none());
    let lit = Argument::Value(Value::Bool(true));
    assert!(matches!(Api::expect_literal(&lit), Some(Value::Bool(true))));
    assert!(Api::expect_literal(&v).is_none());
}

#[test]
fn nth_argument_must_exist() {
    let args = vec![ident("a"), ident("b")];
    assert!(matches!(Api::needs_nth_arg(&args, 1), Ok(Argument::Ident(p)) if p.0[0] == "b"));
    assert!(matches!(Api::needs_nth_arg(&args, 2), Err(LyssRuntimeError::NeedsArg)));
}

#[test]
fn argument_count_checks() {
    let args = vec![ident("a"), ident("b")];
    assert!(Api::assert_args_count(&args, 2).is_ok());
    assert!(matches!(Api::assert_args_count(&args, 3), Err(LyssRuntimeError::TooFewArgs { got, needs: 3 }) if got.len() == 2));
    assert!(matches!(Api::assert_args_count(&args, 1), Err(LyssRuntimeError::TooManyArgs { got, needs: 1 }) if got.len() == 2));
}

#[test]
fn valid_counts_report_the_choices() {
    let args = vec![ident("a"), ident("b"), ident("c")];
    assert!(Api::assert_args_valid_counts(&args, [2, 3]).is_ok());
    let r = Api::assert_args_valid_counts(&args, [2, 4]);
    assert!(matches!(r, Err(LyssRuntimeError::UnmatchedArgCount { got, could_usize }) if got.len() == 3 && could_usize == vec![2, 4]));
    assert!(Api::assert_args_valid_counts(&[], [0]).is_ok());
}

#[test]
fn numbers_normalise() {
    assert_eq!(Number::parse("0").unwrap().to_text(), "0");
    assert_eq!(Number::parse("000").unwrap().to_text(), "0");
    assert_eq!(Number::parse("0.0").unwrap().to_text(), "0");
    assert_eq!(Number::parse(".5").unwrap().to_text(), "0.5");
    assert_eq!(Number::parse("12.").unwrap().to_text(), "12");
    assert_eq!(Number::parse("10.010").unwrap().to_text(), "10.01");
    assert!(Number::parse(".").is_none());
    assert!(Number::parse("").is_none());
    assert!(Number::parse("1a").is_none());
}
