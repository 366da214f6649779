//! Helpers for host functions: forcing arguments and checking their shape.
use vstd::prelude::*;
use vstd::string::StrSliceExecFns;

use super::{atom_done, Context, HostFunc};
use crate::named::named;
use crate::parser::{arg_v, args_v, clone_arg, clone_fn_name, Argument, Atom, FnName};
use crate::{clone_value, value_v, LyssRuntimeError, Value};

verus! {

/// The value that forcing `argument` owes, where it is owed without running
/// a host function: `None` for a nested call.
pub open spec fn forced<H>(ctx: Context<H>, argument: Argument, r: Result<Value, LyssRuntimeError>) -> bool {
    match argument {
        Argument::Var(name) => match named(ctx.variables@, name@) {
            Some(v) => r is Ok && value_v(r->Ok_0) == value_v(v),
            None => r matches Err(LyssRuntimeError::VarNotFound { name: n }) && n@ == name@,
        },
        Argument::Value(v) => r is Ok && value_v(r->Ok_0) == value_v(v),
        Argument::Macro(m) => r matches Err(LyssRuntimeError::MacroUnimplemented { name }) && name@ == m.name@,
        Argument::Ident(p) => r matches Err(LyssRuntimeError::IdentUnimplemented { path }) && path@ == p.0@,
        Argument::Atom(_) => true,
    }
}

impl<H: HostFunc> Context<H> {
    /// Forces one argument to a value: a variable is looked up, a nested call
    /// is run, a literal is copied. Macro uses and bare names cannot be forced.
    pub fn eval_argument(&mut self, argument: &Argument) -> (r: Result<Value, LyssRuntimeError>)
        ensures
            match *argument {
                Argument::Atom(a) => atom_done(*old(self), *final(self), a, r),
                _ => forced(*old(self), *argument, r) && *final(self) == *old(self),
            },
    {
        match argument {
            Argument::Var(name) => match self.get_var(name.as_str()) {
                Some(v) => Ok(clone_value(v)),
                None => Err(LyssRuntimeError::VarNotFound { name: name.clone() }),
            },
            Argument::Atom(atom) => self.execute_atom(atom),
            Argument::Value(v) => Ok(clone_value(v)),
            Argument::Macro(m) => Err(LyssRuntimeError::MacroUnimplemented { name: m.name.clone() }),
            Argument::Ident(path) => Err(
                LyssRuntimeError::IdentUnimplemented { path: clone_fn_name(path).0 },
            ),
        }
    }
}

/// Argument checks for host functions.
pub struct Api;

/// Whether `argument` is a bare name of one segment, `text`.
pub open spec fn names_text(argument: Argument, text: Seq<char>) -> bool {
    match argument {
        Argument::Ident(p) => p.0@.len() == 1 && p.0@[0]@ == text,
        Argument::Value(Value::Ident(p)) => p.0@.len() == 1 && p.0@[0]@ == text,
        _ => false,
    }
}

/// Whether two strings hold the same characters.
fn same_text(a: &str, b: &str) -> (r: bool)
    ensures
        r == (a@ == b@),
{
    let n = a.unicode_len();
    if n != b.unicode_len() {
        return false;
    }
    let mut i: usize = 0;
    while i < n
        invariant
            n == a@.len(),
            n == b@.len(),
            i <= n,
            a@.take(i as int) == b@.take(i as int),
        decreases n - i,
    {
        if a.get_char(i) != b.get_char(i) {
            return false;
        }
        proof {
            assert(a@.take(i + 1) =~= a@.take(i as int).push(a@[i as int]));
            assert(b@.take(i + 1) =~= b@.take(i as int).push(b@[i as int]));
        }
        i = i + 1;
    }
    proof {
        assert(a@.take(n as int) =~= a@);
        assert(b@.take(n as int) =~= b@);
    }
    true
}

/// A copy of a list of arguments.
pub fn args_to_vec(args: &[Argument]) -> (r: Vec<Argument>)
    ensures
        args_v(r@) == args_v(args@),
{
    let mut r: Vec<Argument> = Vec::new();
    let mut i: usize = 0;
    proof {
        assert(args@.take(0) =~= Seq::<Argument>::empty());
        assert(args_v(r@) =~= args_v(args@.take(0)));
    }
    while i < args.len()
        invariant
            i <= args@.len(),
            args_v(r@) == args_v(args@.take(i as int)),
        decreases args@.len() - i,
    {
        let a = clone_arg(&args[i]);
        let ghost before = r@;
        r.push(a);
        proof {
            assert(r@.drop_last() =~= before);
            assert(args@.take(i + 1).drop_last() =~= args@.take(i as int));
        }
        i = i + 1;
    }
    proof {
        assert(args@.take(args@.len() as int) =~= args@);
    }
    r
}

impl Api {
    /// Succeeds when `argument` is the bare name `text` (such as `else`).
    pub fn expect_this_text(argument: &Argument, text: &str) -> (r: Result<(), LyssRuntimeError>)
        ensures
            r is Ok <==> names_text(*argument, text@),
            r is Err ==> (r->Err_0 matches LyssRuntimeError::LiteralNotFound { expected, got }
                && expected@ == text@ && arg_v(got) == arg_v(*argument)),
    {
        let path: &FnName = match argument {
            Argument::Ident(p) => p,
            Argument::Value(Value::Ident(p)) => p,
            _ => {
                return Err(
                    LyssRuntimeError::LiteralNotFound {
                        expected: text.to_owned(),
                        got: clone_arg(argument),
                    },
                );
            },
        };
        if path.0.len() == 1 && same_text(path.0[0].as_str(), text) {
            Ok(())
        } else {
            Err(LyssRuntimeError::LiteralNotFound { expected: text.to_owned(), got: clone_arg(argument) })
        }
    }

    /// The name of a variable reference.
    pub fn expect_var(argument: &Argument) -> (r: Option<&String>)
        ensures
            match *argument {
                Argument::Var(name) => r == Some(&name),
                _ => r is None,
            },
    {
        match argument {
            Argument::Var(txt) => Some(txt),
            _ => None,
        }
    }

    /// The path of a bare name.
    pub fn expect_ident(argument: &Argument) -> (r: Option<&FnName>)
        ensures
            match *argument {
                Argument::Ident(path) => r == Some(&path),
                _ => r is None,
            },
    {
        match argument {
            Argument::Ident(path) => Some(path),
            _ => None,
        }
    }

    /// The call of a nested atom.
    pub fn expect_atom(argument: &Argument) -> (r: Option<&Atom>)
        ensures
            match *argument {
                Argument::Atom(atom) => r == Some(&atom),
                _ => r is None,
            },
    {
        match argument {
            Argument::Atom(atom) => Some(atom),
            _ => None,
        }
    }

    /// The value of a literal.
    pub fn expect_literal(argument: &Argument) -> (r: Option<&Value>)
        ensures
            match *argument {
                Argument::Value(v) => r == Some(&v),
                _ => r is None,
            },
    {
        match argument {
            Argument::Value(v) => Some(v),
            _ => None,
        }
    }

    /// The argument at `index`, which must be there.
    pub fn needs_nth_arg(args: &[Argument], index: usize) -> (r: Result<&Argument, LyssRuntimeError>)
        ensures
            index < args@.len() ==> r is Ok && *r->Ok_0 == args@[index as int],
            index >= args@.len() ==> r matches Err(LyssRuntimeError::NeedsArg),
    {
        if index < args.len() {
            Ok(&args[index])
        } else {
            Err(LyssRuntimeError::NeedsArg)
        }
    }

    /// Succeeds when there are exactly `count` arguments.
    pub fn assert_args_count(args: &[Argument], count: usize) -> (r: Result<(), LyssRuntimeError>)
        ensures
            args@.len() == count ==> r is Ok,
            args@.len() < count ==> (r matches Err(LyssRuntimeError::TooFewArgs { got, needs })
                && needs == count && args_v(got@) == args_v(args@)),
            args@.len() > count ==> (r matches Err(LyssRuntimeError::TooManyArgs { got, needs })
                && needs == count && args_v(got@) == args_v(args@)),
    {
        if args.len() < count {
            Err(LyssRuntimeError::TooFewArgs { got: args_to_vec(args), needs: count })
        } else if args.len() > count {
            Err(LyssRuntimeError::TooManyArgs { got: args_to_vec(args), needs: count })
        } else {
            Ok(())
        }
    }

    /// Succeeds when the number of arguments is one of `valid_counts`.
    pub fn assert_args_valid_counts<const N: usize>(args: &[Argument], valid_counts: [usize; N]) -> (r:
        Result<(), LyssRuntimeError>)
        ensures
            r is Ok <==> exists|k: int| 0 <= k < valid_counts@.len() && valid_counts@[k] == args@.len(),
            r is Err ==> (r->Err_0 matches LyssRuntimeError::UnmatchedArgCount { got, could_usize }
                && args_v(got@) == args_v(args@) && could_usize@ == valid_counts@),
    {
        let mut i: usize = 0;
        while i < N
            invariant
                i <= N,
                N == valid_counts@.len(),
                forall|j: int| 0 <= j < i ==> valid_counts@[j] != args@.len(),
            decreases N - i,
        {
            if valid_counts[i] == args.len() {
                proof {
                    assert(valid_counts@[i as int] == args@.len());
                }
                return Ok(());
            }
            i = i + 1;
        }
        let mut could: Vec<usize> = Vec::new();
        let mut j: usize = 0;
        while j < N
            invariant
                forall|k: int| 0 <= k < N ==> valid_counts@[k] != args@.len(),
                j <= N,
                N == valid_counts@.len(),
                could@ == valid_counts@.take(j as int),
            decreases N - j,
        {
            could.push(valid_counts[j]);
            proof {
                assert(could@ =~= valid_counts@.take(j + 1));
            }
            j = j + 1;
        }
        proof {
            assert(valid_counts@.take(N as int) =~= valid_counts@);
        }
        Err(LyssRuntimeError::UnmatchedArgCount { got: args_to_vec(args), could_usize: could })
    }
}

} // verus!
