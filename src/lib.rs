//! Front end and tree-walking evaluator of a small homoiconic scripting
//! language: a character-level lexer, a recursive-descent parser and an
//! evaluator over a hierarchical, aliasable namespace of host functions.
use vstd::prelude::*;

pub mod display;
pub mod named;
pub mod number;
pub mod parser;
pub mod reprint;
pub mod runtime;
pub mod text;
pub mod tokenizer;

use number::Number;
use parser::{code_v, Code, CodeV, FnName};

verus! {

/// A value of the language.
#[derive(Debug)]
pub enum Value {
    Bool(bool),
    Str(String),
    Num(Number),
    List(Vec<Value>),
    Ident(FnName),
    Code(Code),
}

/// The mathematical content of a value.
pub enum ValueV {
    Bool(bool),
    Str(Seq<char>),
    Num(Seq<char>),
    List(Seq<ValueV>),
    Ident(Seq<Seq<char>>),
    Code(CodeV),
}

pub open spec fn value_v(v: Value) -> ValueV
    decreases v, 2nat,
{
    match v {
        Value::Bool(b) => ValueV::Bool(b),
        Value::Str(s) => ValueV::Str(s@),
        Value::Num(n) => ValueV::Num(n@),
        Value::List(l) => ValueV::List(values_v(l@)),
        Value::Ident(p) => ValueV::Ident(text::strs_view(p.0@)),
        Value::Code(c) => ValueV::Code(code_v(c)),
    }
}

pub open spec fn values_v(s: Seq<Value>) -> Seq<ValueV>
    decreases s, 0nat,
{
    if s.len() == 0 {
        seq![]
    } else {
        values_v(s.drop_last()).push(value_v(s.last()))
    }
}

/// Failures found while turning source text into an AST.
#[derive(Debug)]
pub enum LyssCompError {
    /// A quoted code block did not open with `(`.
    CodeWithoutRootAtom { first_token: Option<tokenizer::Token> },
    /// A numeric literal is not a well-formed number.
    ParseFloat { text: String },
    /// The input ended in a state that needs an explicit closing character.
    CantStopToken { line: usize, file: String, tokenizer_state: tokenizer::State },
    /// A character that no transition of the lexer accepts in its state.
    UnexpectedChar {
        line: usize,
        file: String,
        tokenizer_state: tokenizer::State,
        character: char,
    },
    /// A token that cannot stand where it was found (`None`: the input ended).
    UnexpectedToken { token: Option<tokenizer::Token> },
}

/// A copy of a value.
pub fn clone_value(v: &Value) -> (r: Value)
    ensures
        value_v(r) == value_v(*v),
    decreases *v, 2nat,
{
    match v {
        Value::Bool(b) => Value::Bool(*b),
        Value::Str(s) => Value::Str(s.clone()),
        Value::Num(n) => Value::Num(n.clone()),
        Value::List(l) => Value::List(clone_values(l)),
        Value::Ident(p) => Value::Ident(parser::clone_fn_name(p)),
        Value::Code(c) => Value::Code(parser::clone_code(c)),
    }
}

/// A copy of a list of values.
pub fn clone_values(v: &Vec<Value>) -> (r: Vec<Value>)
    ensures
        values_v(r@) == values_v(v@),
    decreases *v, 0nat,
{
    let mut r: Vec<Value> = Vec::new();
    let mut i: usize = 0;
    proof {
        assert(v@.take(0) =~= Seq::<Value>::empty());
        assert(values_v(r@) =~= values_v(v@.take(0)));
    }
    while i < v.len()
        invariant
            i <= v@.len(),
            values_v(r@) == values_v(v@.take(i as int)),
        decreases v@.len() - i,
    {
        let x = clone_value(&v[i]);
        let ghost before = r@;
        r.push(x);
        proof {
            assert(r@.drop_last() =~= before);
            assert(v@.take(i + 1).drop_last() =~= v@.take(i as int));
        }
        i = i + 1;
    }
    proof {
        assert(v@.take(v@.len() as int) =~= v@);
    }
    r
}

impl Clone for Value {
    fn clone(&self) -> (r: Value)
        ensures
            value_v(r) == value_v(*self),
    {
        clone_value(self)
    }
}

/// Equality of values: booleans, numbers and strings compare by content; a
/// list, a name or a code block equals nothing, itself included.
pub open spec fn value_eq(a: Value, b: Value) -> bool {
    match (a, b) {
        (Value::Bool(x), Value::Bool(y)) => x == y,
        (Value::Num(x), Value::Num(y)) => x@ == y@,
        (Value::Str(x), Value::Str(y)) => x@ == y@,
        _ => false,
    }
}

impl PartialEq for Value {
    fn eq(&self, other: &Value) -> (r: bool)
        ensures
            r == value_eq(*self, *other),
    {
        match (self, other) {
            (Value::Bool(a), Value::Bool(b)) => *a == *b,
            (Value::Num(a), Value::Num(b)) => a.eq(b),
            (Value::Str(a), Value::Str(b)) => a.eq(b),
            _ => false,
        }
    }
}

impl vstd::std_specs::cmp::PartialEqSpecImpl for Value {
    open spec fn obeys_eq_spec() -> bool {
        true
    }

    open spec fn eq_spec(&self, other: &Value) -> bool {
        value_eq(*self, *other)
    }
}

/// Failures while running a program.
#[derive(Debug)]
pub enum LyssRuntimeError {
    EntryNotFound { path: Vec<String> },
    EntryWasLeaf { path: Vec<String> },
    EntryWasBranch { path: Vec<String> },
    VarNotFound { name: String },
    /// Expected a specific literal name, such as `else`.
    LiteralNotFound { expected: String, got: parser::Argument },
    /// An argument of the wrong kind.
    UnexpectedArg { arg: parser::Argument, expected: String },
    /// A required argument is absent.
    NeedsArg,
    TooManyArgs { got: Vec<parser::Argument>, needs: usize },
    TooFewArgs { got: Vec<parser::Argument>, needs: usize },
    /// The argument count is none of the acceptable ones.
    UnmatchedArgCount { got: Vec<parser::Argument>, could_usize: Vec<usize> },
    /// A macro use was to be run or evaluated: macros are not expanded.
    MacroUnimplemented { name: String },
    /// A bare name was to be evaluated to a value.
    IdentUnimplemented { path: Vec<String> },
}

} // verus!
