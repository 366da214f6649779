//! The evaluator: a context of host functions, variables, scopes and
//! aliases, and the rules that resolve and run calls.
use std::rc::Rc;
use vstd::prelude::*;
use vstd::string::StrSliceExecFns;

pub mod api;
pub mod object;

use crate::named::{named, position, set_named};
use crate::parser::{clone_strs, Argument, Atom, Expr, ExprCont};
use crate::text::strs_view;
use crate::{LyssRuntimeError, Value};
use object::{copy_path, leaf_at, lookup_err_is, walk, Found, LookupErr, Object, ObjectEntry, ObjectFindResult};

verus! {

/// A function of the host, called by name from a program. It receives the
/// context and the raw, unevaluated arguments of the call, and evaluates
/// those it needs, when it needs them.
pub trait HostFunc: Sized + Copy {
    fn call(self, ctx: &mut Context<Self>, arguments: &[Argument]) -> Result<Value, LyssRuntimeError>;
}

/// The state of a program run: host functions by name, the scopes pushed so
/// far (shared branches searched by unqualified name, most recent first),
/// variables, and aliases (a name standing for a path).
#[derive(Debug)]
pub struct Context<H> {
    pub functions: Object<H>,
    pub scopes: Vec<Rc<Object<H>>>,
    pub variables: Vec<(String, Value)>,
    pub aliases: Vec<(String, Vec<String>)>,
}

/// The context a host creates.
pub type HostContext<H> = Context<H>;

/// A first segment that stands for an aliased path: `$` and a name.
pub open spec fn is_alias_marker(s: Seq<char>) -> bool {
    s.len() > 1 && s[0] == '$'
}

/// The host function that `name` reaches without scopes: through the alias
/// table when its first segment is an alias marker, else in `functions`.
/// On failure: why, and the path that was searched.
pub open spec fn direct_lookup<H>(ctx: Context<H>, name: Seq<Seq<char>>) -> Result<
    H,
    (LookupErr, Seq<Seq<char>>),
> {
    if name.len() > 0 && is_alias_marker(name[0]) {
        match named(ctx.aliases@, name[0]) {
            None => Err((LookupErr::NotFound, name)),
            Some(target) => {
                let p = strs_view(target@) + name.drop_first();
                match leaf_at(ctx.functions, p) {
                    Ok(h) => Ok(h),
                    Err(e) => Err((e, p)),
                }
            },
        }
    } else {
        match leaf_at(ctx.functions, name) {
            Ok(h) => Ok(h),
            Err(e) => Err((e, name)),
        }
    }
}

/// The leaf that `name` reaches in the scopes, most recently pushed first.
pub open spec fn scope_lookup<H>(scopes: Seq<Rc<Object<H>>>, name: Seq<Seq<char>>) -> Option<H>
    decreases scopes.len(),
{
    if scopes.len() == 0 {
        None
    } else {
        match leaf_at(*scopes.last(), name) {
            Ok(h) => Some(h),
            Err(_) => scope_lookup(scopes.drop_last(), name),
        }
    }
}

/// The host function that a call of `name` resolves to: directly, else in
/// the scopes; when neither has it, the direct lookup's failure.
pub open spec fn resolve_spec<H>(ctx: Context<H>, name: Seq<Seq<char>>) -> Result<
    H,
    (LookupErr, Seq<Seq<char>>),
> {
    match direct_lookup(ctx, name) {
        Ok(h) => Ok(h),
        Err(e) => match scope_lookup(ctx.scopes@, name) {
            Some(h) => Ok(h),
            None => Err(e),
        },
    }
}

/// `r` is what `resolve_spec` gives.
pub open spec fn resolved_as<H>(
    r: Result<H, LyssRuntimeError>,
    expected: Result<H, (LookupErr, Seq<Seq<char>>)>,
) -> bool {
    match expected {
        Ok(h) => r == Ok::<H, LyssRuntimeError>(h),
        Err((e, p)) => r is Err && lookup_err_is(r->Err_0, e, p),
    }
}

/// What a call of `atom` owes whatever its host function does: a name that
/// resolves to nothing fails with the lookup's error and changes nothing.
pub open spec fn atom_done<H>(
    before: Context<H>,
    after: Context<H>,
    atom: Atom,
    r: Result<Value, LyssRuntimeError>,
) -> bool {
    match resolve_spec(before, strs_view(atom.fn_name.0@)) {
        Err((e, p)) => r is Err && lookup_err_is(r->Err_0, e, p) && after == before,
        Ok(_) => true,
    }
}

/// The same context but for its variables.
pub open spec fn same_but_variables<H>(a: Context<H>, b: Context<H>) -> bool {
    a.functions == b.functions && a.scopes == b.scopes && a.aliases == b.aliases
}

/// The same context but for its functions.
pub open spec fn same_but_functions<H>(a: Context<H>, b: Context<H>) -> bool {
    a.variables == b.variables && a.scopes == b.scopes && a.aliases == b.aliases
}

/// Whether a first segment is an alias marker.
fn alias_marker(s: &String) -> (r: bool)
    ensures
        r == is_alias_marker(s@),
{
    let t = s.as_str();
    t.unicode_len() > 1 && t.get_char(0) == '$'
}

/// Relies on `Rc::clone`: a new handle on the same value.
#[verifier::external_body]
fn share<T>(rc: &Rc<T>) -> (r: Rc<T>)
    ensures
        r == *rc,
{
    Rc::clone(rc)
}

impl<H: HostFunc> Context<H> {
    /// An empty context.
    pub fn new() -> (r: Context<H>)
        ensures
            r.functions.0@.len() == 0,
            r.scopes@.len() == 0,
            r.variables@.len() == 0,
            r.aliases@.len() == 0,
    {
        Context {
            functions: Object::new(),
            scopes: Vec::new(),
            variables: Vec::new(),
            aliases: Vec::new(),
        }
    }

    /// Makes `name` stand for `entry` at the top level of the functions.
    pub fn register(&mut self, name: String, entry: ObjectEntry<H>)
        ensures
            named(final(self).functions.0@, name@) == Some(entry),
            forall|k: Seq<char>| k != name@ ==> named(final(self).functions.0@, k) == named(old(self).functions.0@, k),
            same_but_functions(*final(self), *old(self)),
    {
        self.functions.insert(name, entry);
    }

    /// Makes `name` stand for the whole namespace `entry`, as a branch.
    pub fn register_object(&mut self, name: String, entry: Object<H>)
        ensures
            named(final(self).functions.0@, name@) matches Some(ObjectEntry::Branch(b)) && *b == entry,
            forall|k: Seq<char>| k != name@ ==> named(final(self).functions.0@, k) == named(old(self).functions.0@, k),
            same_but_functions(*final(self), *old(self)),
    {
        self.functions.insert(name, ObjectEntry::Branch(Rc::new(entry)));
    }

    /// Makes `name` stand for `entry` at the top level of the functions.
    pub fn register_entry(&mut self, name: String, entry: ObjectEntry<H>)
        ensures
            named(final(self).functions.0@, name@) == Some(entry),
            forall|k: Seq<char>| k != name@ ==> named(final(self).functions.0@, k) == named(old(self).functions.0@, k),
            same_but_functions(*final(self), *old(self)),
    {
        self.functions.insert(name, entry);
    }

    /// Sets variable `name` to `value`.
    pub fn set_var(&mut self, name: String, value: Value)
        ensures
            named(final(self).variables@, name@) == Some(value),
            forall|k: Seq<char>| k != name@ ==> named(final(self).variables@, k) == named(old(self).variables@, k),
            same_but_variables(*final(self), *old(self)),
    {
        set_named(&mut self.variables, name, value);
    }

    /// The value of variable `name`, if it is set.
    pub fn get_var(&self, name: &str) -> (r: Option<&Value>)
        ensures
            match named(self.variables@, name@) {
                Some(v) => r is Some && *r->Some_0 == v,
                None => r is None,
            },
    {
        let key = name.to_owned();
        match position(&self.variables, &key) {
            Some(i) => Some(&self.variables[i].1),
            None => None,
        }
    }

    /// Makes the alias marker `name` stand for `path`.
    pub fn set_alias(&mut self, name: String, path: Vec<String>)
        ensures
            named(final(self).aliases@, name@) == Some(path),
            forall|k: Seq<char>| k != name@ ==> named(final(self).aliases@, k) == named(old(self).aliases@, k),
            final(self).functions == old(self).functions,
            final(self).scopes == old(self).scopes,
            final(self).variables == old(self).variables,
    {
        set_named(&mut self.aliases, name, path);
    }

    /// Adds the branch at `path` of the functions to the scopes, shared, not copied.
    pub fn push_scope(&mut self, path: &[String]) -> (r: Result<(), LyssRuntimeError>)
        requires
            path@.len() > 0,
        ensures
            match walk(Found::Branch(old(self).functions), strs_view(path@)) {
                Ok(Found::Branch(b)) => r is Ok && final(self).scopes@.len() == old(self).scopes@.len() + 1
                    && *final(self).scopes@.last() == b
                    && final(self).scopes@.drop_last() == old(self).scopes@,
                Ok(Found::Leaf(_)) | Err(ObjectFindResult::EarlyLeaf) => r matches Err(LyssRuntimeError::EntryWasLeaf { path: p }) && strs_view(p@) == strs_view(path@),
                Err(ObjectFindResult::NotFound) => r matches Err(LyssRuntimeError::EntryNotFound { path: p }) && strs_view(p@) == strs_view(path@),
            },
            final(self).functions == old(self).functions,
            final(self).variables == old(self).variables,
            final(self).aliases == old(self).aliases,
            r is Err ==> final(self).scopes == old(self).scopes,
    {
        let shared = match self.functions.find_entry(path) {
            Ok(ObjectEntry::Branch(b)) => share(b),
            Ok(ObjectEntry::Leaf(_)) => {
                return Err(LyssRuntimeError::EntryWasLeaf { path: copy_path(path) });
            },
            Err(e) => {
                return Err(e);
            },
        };
        self.scopes.push(shared);
        proof {
            assert(self.scopes@.drop_last() =~= old(self).scopes@);
        }
        Ok(())
    }

    /// The host function that `name` reaches without scopes.
    fn find_direct(&self, name: &[String]) -> (r: Result<H, LyssRuntimeError>)
        ensures
            resolved_as(r, direct_lookup(*self, strs_view(name@))),
    {
        let ghost nv = strs_view(name@);
        if name.len() > 0 && alias_marker(&name[0]) {
            match position(&self.aliases, &name[0]) {
                None => Err(LyssRuntimeError::EntryNotFound { path: copy_path(name) }),
                Some(i) => {
                    let mut full = clone_strs(&self.aliases[i].1);
                    let ghost prefix = full@;
                    let mut j: usize = 1;
                    while j < name.len()
                        invariant
                            1 <= j <= name@.len(),
                            full@ == prefix + name@.subrange(1, j as int),
                        decreases name@.len() - j,
                    {
                        full.push(name[j].clone());
                        proof {
                            assert(name@.subrange(1, j + 1) =~= name@.subrange(1, j as int).push(name@[j as int]));
                            assert(full@ =~= prefix + name@.subrange(1, j + 1));
                        }
                        j = j + 1;
                    }
                    proof {
                        assert(strs_view(full@) =~= strs_view(prefix) + nv.drop_first());
                    }
                    self.functions.find_leaf(full.as_slice())
                },
            }
        } else {
            self.functions.find_leaf(name)
        }
    }

    /// The host function that a call of `name` resolves to (see `resolve_spec`).
    pub fn resolve(&self, name: &[String]) -> (r: Result<H, LyssRuntimeError>)
        ensures
            resolved_as(r, resolve_spec(*self, strs_view(name@))),
    {
        let direct = self.find_direct(name);
        if direct.is_ok() {
            return direct;
        }
        let ghost nv = strs_view(name@);
        let mut i = self.scopes.len();
        proof {
            assert(self.scopes@.take(i as int) =~= self.scopes@);
        }
        while i > 0
            invariant
                i <= self.scopes@.len(),
                scope_lookup(self.scopes@, nv) == scope_lookup(self.scopes@.take(i as int), nv),
                nv == strs_view(name@),
                direct_lookup(*self, nv) is Err,
                resolved_as(direct, direct_lookup(*self, nv)),
            decreases i,
        {
            proof {
                assert(self.scopes@.take(i as int).drop_last() =~= self.scopes@.take(i - 1));
            }
            let scope: &Object<H> = &*self.scopes[i - 1];
            proof {
                assert(self.scopes@.take(i as int).last() == self.scopes@[i - 1]);
            }
            match scope.find_leaf(name) {
                Ok(h) => {
                    return Ok(h);
                },
                Err(_) => {},
            }
            i = i - 1;
        }
        direct
    }

    /// Runs `code` in order and gives the value of its last expression, or
    /// no value when it is empty; the first failure ends the run.
    pub fn run(&mut self, code: &[Expr]) -> (r: Result<Option<Value>, LyssRuntimeError>)
        ensures
            code@.len() == 0 ==> r == Ok::<Option<Value>, LyssRuntimeError>(None) && *final(self) == *old(self),
            code@.len() > 0 && r is Ok ==> r->Ok_0 is Some,
            code@.len() > 0 ==> match code@[0].cont {
                ExprCont::Macro(m) => r matches Err(LyssRuntimeError::MacroUnimplemented { name }) && name@ == m.name@ && *final(self) == *old(self),
                ExprCont::Atom(a) => match resolve_spec(*old(self), strs_view(a.fn_name.0@)) {
                    Err((e, p)) => r is Err && lookup_err_is(r->Err_0, e, p) && *final(self) == *old(self),
                    Ok(_) => true,
                },
            },
    {
        let mut result: Option<Value> = None;
        let mut i: usize = 0;
        while i < code.len()
            invariant
                i <= code@.len(),
                i == 0 ==> result is None && *self == *old(self),
                i > 0 ==> result is Some,
                i > 0 ==> match code@[0].cont {
                    ExprCont::Macro(_) => false,
                    ExprCont::Atom(a) => resolve_spec(*old(self), strs_view(a.fn_name.0@)) is Ok,
                },
            decreases code@.len() - i,
        {
            match self.execute_expr(&code[i]) {
                Ok(v) => {
                    result = Some(v);
                },
                Err(e) => {
                    return Err(e);
                },
            }
            i = i + 1;
        }
        Ok(result)
    }

    /// Runs one top-level expression: a call, or a macro use, which fails.
    fn execute_expr(&mut self, expr: &Expr) -> (r: Result<Value, LyssRuntimeError>)
        ensures
            match expr.cont {
                ExprCont::Macro(m) => r matches Err(LyssRuntimeError::MacroUnimplemented { name }) && name@ == m.name@ && *final(self) == *old(self),
                ExprCont::Atom(a) => atom_done(*old(self), *final(self), a, r),
            },
    {
        match &expr.cont {
            ExprCont::Atom(atom) => self.execute_atom(atom),
            ExprCont::Macro(m) => Err(LyssRuntimeError::MacroUnimplemented { name: m.name.clone() }),
        }
    }

    /// What a call of `atom` will run: the host function its name resolves
    /// to (see `resolve_spec`) and the call's own arguments, unevaluated.
    /// The context is only read: preparing a call evaluates nothing.
    pub fn prepare_call<'a>(&self, atom: &'a Atom) -> (r: Result<(H, &'a [Argument]), LyssRuntimeError>)
        ensures
            match resolve_spec(*self, strs_view(atom.fn_name.0@)) {
                Ok(h) => r is Ok && r->Ok_0.0 == h && r->Ok_0.1@ == atom.arguments@,
                Err((e, p)) => r is Err && lookup_err_is(r->Err_0, e, p),
            },
    {
        match self.resolve(atom.fn_name.0.as_slice()) {
            Ok(h) => Ok((h, atom.arguments.as_slice())),
            Err(e) => Err(e),
        }
    }

    /// Runs a call: prepares it (see `prepare_call`) and hands the host
    /// function the context and the raw arguments; the host decides which of
    /// them to evaluate, and when.
    pub fn execute_atom(&mut self, atom: &Atom) -> (r: Result<Value, LyssRuntimeError>)
        ensures
            atom_done(*old(self), *final(self), *atom, r),
    {
        let (host_fn, arguments) = match self.prepare_call(atom) {
            Ok(call) => call,
            Err(e) => {
                return Err(e);
            },
        };
        host_fn.call(self, arguments)
    }
}

} // verus!
