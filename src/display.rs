//! Rendering values and the AST back to source-like text.
use vstd::prelude::*;
use vstd::string::StringExecFns;

use crate::parser::{
    arg_v, args_v, atom_v, code_v, expr_v, exprs_v, macro_v, Argument, ArgumentV, Atom, AtomV,
    Code, CodeV, Expr, ExprCont, ExprContV, ExprV, FnName, MacroUse, MacroUseV,
};
use crate::text::{push_char, strs_view};
use crate::{value_v, values_v, Value, ValueV};

verus! {

/// A path with its segments joined by `.`.
pub open spec fn join_path(p: Seq<Seq<char>>) -> Seq<char>
    decreases p.len(),
{
    if p.len() == 0 {
        seq![]
    } else if p.len() == 1 {
        p[0]
    } else {
        join_path(p.drop_last()) + seq!['.'] + p.last()
    }
}

pub open spec fn show_bool(b: bool) -> Seq<char> {
    if b {
        seq!['t', 'r', 'u', 'e']
    } else {
        seq!['f', 'a', 'l', 's', 'e']
    }
}

/// A value as source text: strings quoted.
pub open spec fn show_value(v: ValueV) -> Seq<char>
    decreases v, 1nat,
{
    match v {
        ValueV::Bool(b) => show_bool(b),
        ValueV::Str(s) => seq!['"'] + s + seq!['"'],
        ValueV::Num(n) => n,
        ValueV::List(l) => seq!['['] + show_list(l) + seq![']'],
        ValueV::Ident(p) => join_path(p),
        ValueV::Code(c) => show_code(c),
    }
}

/// The items of a list, each between spaces.
pub open spec fn show_list(l: Seq<ValueV>) -> Seq<char>
    decreases l, 0nat,
{
    if l.len() == 0 {
        seq![]
    } else {
        show_list(l.drop_last()) + seq![' '] + show_value(l[l.len() - 1]) + seq![' ']
    }
}

/// A code block: `'( expr expr )'`.
pub open spec fn show_code(c: CodeV) -> Seq<char>
    decreases c, 1nat,
{
    seq!['\'', '(', ' '] + show_exprs(c.exprs) + seq![')', '\'']
}

/// Expressions, each followed by a space.
pub open spec fn show_exprs(s: Seq<ExprV>) -> Seq<char>
    decreases s, 0nat,
{
    if s.len() == 0 {
        seq![]
    } else {
        show_exprs(s.drop_last()) + show_expr(s[s.len() - 1]) + seq![' ']
    }
}

pub open spec fn show_expr(e: ExprV) -> Seq<char>
    decreases e, 1nat,
{
    match e.cont {
        ExprContV::Atom(a) => show_atom(a),
        ExprContV::Macro(m) => show_macro(m),
    }
}

/// A macro use: `! (name content)`.
pub open spec fn show_macro(m: MacroUseV) -> Seq<char> {
    seq!['!', ' ', '('] + m.name + seq![' '] + m.content + seq![')']
}

/// A call: `(name arg arg )`.
pub open spec fn show_atom(a: AtomV) -> Seq<char>
    decreases a, 1nat,
{
    seq!['('] + join_path(a.fn_name) + seq![' '] + show_args(a.arguments) + seq![')']
}

/// Arguments, each followed by a space.
pub open spec fn show_args(s: Seq<ArgumentV>) -> Seq<char>
    decreases s, 0nat,
{
    if s.len() == 0 {
        seq![]
    } else {
        show_args(s.drop_last()) + show_arg(s[s.len() - 1]) + seq![' ']
    }
}

pub open spec fn show_arg(a: ArgumentV) -> Seq<char>
    decreases a, 1nat,
{
    match a {
        ArgumentV::Atom(at) => show_atom(at),
        ArgumentV::Macro(m) => show_macro(m),
        ArgumentV::Value(v) => show_value(v),
        ArgumentV::Var(name) => seq!['$', '.'] + name,
        ArgumentV::Ident(p) => join_path(p),
    }
}

/// A value as a program's output shows it: like `show_value`, but a string
/// stands as its bare characters.
pub open spec fn show_plain(v: ValueV) -> Seq<char> {
    match v {
        ValueV::Str(s) => s,
        _ => show_value(v),
    }
}

fn put(out: &mut String, s: &str)
    ensures
        final(out)@ == old(out)@ + s@,
{
    out.append(s);
}

fn write_bool(b: bool, out: &mut String)
    ensures
        final(out)@ == old(out)@ + show_bool(b),
{
    if b {
        put(out, "true");
        proof {
            reveal_strlit("true");
        }
    } else {
        put(out, "false");
        proof {
            reveal_strlit("false");
        }
    }
    proof {
        assert(final(out)@ =~= old(out)@ + show_bool(b));
    }
}

fn write_path(p: &FnName, out: &mut String)
    ensures
        final(out)@ == old(out)@ + join_path(strs_view(p.0@)),
{
    let ghost pv = strs_view(p.0@);
    let ghost start = out@;
    let mut i: usize = 0;
    proof {
        assert(pv.take(0) =~= Seq::<Seq<char>>::empty());
        assert(out@ =~= start + join_path(pv.take(0)));
    }
    while i < p.0.len()
        invariant
            i <= p.0@.len(),
            pv == strs_view(p.0@),
            out@ == start + join_path(pv.take(i as int)),
        decreases p.0@.len() - i,
    {
        if i > 0 {
            push_char(out, '.');
        }
        put(out, p.0[i].as_str());
        proof {
            assert(pv.take(i + 1).drop_last() =~= pv.take(i as int));
            assert(pv[i as int] == p.0@[i as int]@);
            if i == 0 {
                assert(out@ =~= start + join_path(pv.take(i + 1)));
            } else {
                assert(out@ =~= start + join_path(pv.take(i + 1)));
            }
        }
        i = i + 1;
    }
    proof {
        assert(pv.take(p.0@.len() as int) =~= pv);
    }
}

fn write_macro(m: &MacroUse, out: &mut String)
    ensures
        final(out)@ == old(out)@ + show_macro(macro_v(*m)),
{
    let ghost start = out@;
    push_char(out, '!');
    push_char(out, ' ');
    push_char(out, '(');
    put(out, m.name.as_str());
    push_char(out, ' ');
    put(out, m.content.as_str());
    push_char(out, ')');
    proof {
        assert(out@ =~= start + show_macro(macro_v(*m)));
    }
}

fn write_value(v: &Value, out: &mut String)
    ensures
        final(out)@ == old(out)@ + show_value(value_v(*v)),
    decreases *v, 1nat,
{
    let ghost start = out@;
    match v {
        Value::Bool(b) => write_bool(*b, out),
        Value::Str(s) => {
            push_char(out, '"');
            put(out, s.as_str());
            push_char(out, '"');
            proof {
                assert(out@ =~= start + show_value(value_v(*v)));
            }
        },
        Value::Num(n) => {
            let t = n.to_text();
            put(out, t.as_str());
        },
        Value::List(l) => {
            push_char(out, '[');
            write_values(l, out);
            push_char(out, ']');
            proof {
                assert(out@ =~= start + show_value(value_v(*v)));
            }
        },
        Value::Ident(p) => write_path(p, out),
        Value::Code(c) => write_code(c, out),
    }
}

fn write_values(l: &Vec<Value>, out: &mut String)
    ensures
        final(out)@ == old(out)@ + show_list(values_v(l@)),
    decreases *l, 0nat,
{
    let ghost start = out@;
    let mut i: usize = 0;
    proof {
        assert(values_v(l@.take(0)) =~= Seq::<ValueV>::empty());
        assert(out@ =~= start + show_list(values_v(l@.take(0))));
    }
    while i < l.len()
        invariant
            i <= l@.len(),
            out@ == start + show_list(values_v(l@.take(i as int))),
        decreases l@.len() - i,
    {
        push_char(out, ' ');
        write_value(&l[i], out);
        push_char(out, ' ');
        proof {
            assert(l@.take(i + 1).drop_last() =~= l@.take(i as int));
            let s = values_v(l@.take(i + 1));
            assert(s.drop_last() == values_v(l@.take(i as int)));
            assert(s[s.len() - 1] == value_v(l@[i as int]));
            assert(out@ =~= start + show_list(values_v(l@.take(i + 1))));
        }
        i = i + 1;
    }
    proof {
        assert(l@.take(l@.len() as int) =~= l@);
    }
}

fn write_code(c: &Code, out: &mut String)
    ensures
        final(out)@ == old(out)@ + show_code(code_v(*c)),
    decreases *c, 1nat,
{
    let ghost start = out@;
    push_char(out, '\'');
    push_char(out, '(');
    push_char(out, ' ');
    write_exprs(&c.exprs, out);
    push_char(out, ')');
    push_char(out, '\'');
    proof {
        assert(out@ =~= start + show_code(code_v(*c)));
    }
}

fn write_exprs(v: &Vec<Expr>, out: &mut String)
    ensures
        final(out)@ == old(out)@ + show_exprs(exprs_v(v@)),
    decreases *v, 0nat,
{
    let ghost start = out@;
    let mut i: usize = 0;
    proof {
        assert(exprs_v(v@.take(0)) =~= Seq::<ExprV>::empty());
        assert(out@ =~= start + show_exprs(exprs_v(v@.take(0))));
    }
    while i < v.len()
        invariant
            i <= v@.len(),
            out@ == start + show_exprs(exprs_v(v@.take(i as int))),
        decreases v@.len() - i,
    {
        write_expr(&v[i], out);
        push_char(out, ' ');
        proof {
            assert(v@.take(i + 1).drop_last() =~= v@.take(i as int));
            let s = exprs_v(v@.take(i + 1));
            assert(s.drop_last() == exprs_v(v@.take(i as int)));
            assert(s[s.len() - 1] == expr_v(v@[i as int]));
            assert(out@ =~= start + show_exprs(exprs_v(v@.take(i + 1))));
        }
        i = i + 1;
    }
    proof {
        assert(v@.take(v@.len() as int) =~= v@);
    }
}

fn write_expr(e: &Expr, out: &mut String)
    ensures
        final(out)@ == old(out)@ + show_expr(expr_v(*e)),
    decreases *e, 1nat,
{
    match &e.cont {
        ExprCont::Atom(a) => write_atom(a, out),
        ExprCont::Macro(m) => write_macro(m, out),
    }
}

fn write_atom(a: &Atom, out: &mut String)
    ensures
        final(out)@ == old(out)@ + show_atom(atom_v(*a)),
    decreases *a, 1nat,
{
    let ghost start = out@;
    push_char(out, '(');
    write_path(&a.fn_name, out);
    push_char(out, ' ');
    write_args(&a.arguments, out);
    push_char(out, ')');
    proof {
        assert(out@ =~= start + show_atom(atom_v(*a)));
    }
}

fn write_args(v: &Vec<Argument>, out: &mut String)
    ensures
        final(out)@ == old(out)@ + show_args(args_v(v@)),
    decreases *v, 0nat,
{
    let ghost start = out@;
    let mut i: usize = 0;
    proof {
        assert(args_v(v@.take(0)) =~= Seq::<ArgumentV>::empty());
        assert(out@ =~= start + show_args(args_v(v@.take(0))));
    }
    while i < v.len()
        invariant
            i <= v@.len(),
            out@ == start + show_args(args_v(v@.take(i as int))),
        decreases v@.len() - i,
    {
        write_arg(&v[i], out);
        push_char(out, ' ');
        proof {
            assert(v@.take(i + 1).drop_last() =~= v@.take(i as int));
            let s = args_v(v@.take(i + 1));
            assert(s.drop_last() == args_v(v@.take(i as int)));
            assert(s[s.len() - 1] == arg_v(v@[i as int]));
            assert(out@ =~= start + show_args(args_v(v@.take(i + 1))));
        }
        i = i + 1;
    }
    proof {
        assert(v@.take(v@.len() as int) =~= v@);
    }
}

fn write_arg(a: &Argument, out: &mut String)
    ensures
        final(out)@ == old(out)@ + show_arg(arg_v(*a)),
    decreases *a, 1nat,
{
    let ghost start = out@;
    match a {
        Argument::Atom(at) => write_atom(at, out),
        Argument::Macro(m) => write_macro(m, out),
        Argument::Value(v) => write_value(v, out),
        Argument::Var(name) => {
            push_char(out, '$');
            push_char(out, '.');
            put(out, name.as_str());
            proof {
                assert(out@ =~= start + show_arg(arg_v(*a)));
            }
        },
        Argument::Ident(p) => write_path(p, out),
    }
}

impl Value {
    /// The value as source text (see `show_value`).
    pub fn to_text(&self) -> (r: String)
        ensures
            r@ == show_value(value_v(*self)),
    {
        let mut out = String::new();
        write_value(self, &mut out);
        proof {
            assert(out@ =~= show_value(value_v(*self)));
        }
        out
    }
}

/// A value shown as a program's output shows it.
pub struct DisplayValue(pub Value);

impl DisplayValue {
    /// The value as output (see `show_plain`).
    pub fn to_text(&self) -> (r: String)
        ensures
            r@ == show_plain(value_v(self.0)),
    {
        match &self.0 {
            Value::Str(s) => s.clone(),
            v => v.to_text(),
        }
    }
}

impl Expr {
    pub fn to_text(&self) -> (r: String)
        ensures
            r@ == show_expr(expr_v(*self)),
    {
        let mut out = String::new();
        write_expr(self, &mut out);
        proof {
            assert(out@ =~= show_expr(expr_v(*self)));
        }
        out
    }
}

impl Code {
    pub fn to_text(&self) -> (r: String)
        ensures
            r@ == show_code(code_v(*self)),
    {
        let mut out = String::new();
        write_code(self, &mut out);
        proof {
            assert(out@ =~= show_code(code_v(*self)));
        }
        out
    }
}

impl FnName {
    pub fn to_text(&self) -> (r: String)
        ensures
            r@ == join_path(strs_view(self.0@)),
    {
        let mut out = String::new();
        write_path(self, &mut out);
        proof {
            assert(out@ =~= join_path(strs_view(self.0@)));
        }
        out
    }
}

impl ExprCont {
    pub fn to_text(&self) -> (r: String)
        ensures
            r@ == match *self {
                ExprCont::Atom(a) => show_atom(atom_v(a)),
                ExprCont::Macro(m) => show_macro(macro_v(m)),
            },
    {
        match self {
            ExprCont::Atom(a) => a.to_text(),
            ExprCont::Macro(m) => m.to_text(),
        }
    }
}

impl MacroUse {
    pub fn to_text(&self) -> (r: String)
        ensures
            r@ == show_macro(macro_v(*self)),
    {
        let mut out = String::new();
        write_macro(self, &mut out);
        proof {
            assert(out@ =~= show_macro(macro_v(*self)));
        }
        out
    }
}

impl Atom {
    pub fn to_text(&self) -> (r: String)
        ensures
            r@ == show_atom(atom_v(*self)),
    {
        let mut out = String::new();
        write_atom(self, &mut out);
        proof {
            assert(out@ =~= show_atom(atom_v(*self)));
        }
        out
    }
}

impl Argument {
    pub fn to_text(&self) -> (r: String)
        ensures
            r@ == show_arg(arg_v(*self)),
    {
        let mut out = String::new();
        write_arg(self, &mut out);
        proof {
            assert(out@ =~= show_arg(arg_v(*self)));
        }
        out
    }
}

} // verus!
