//! The namespace model: a trie of named entries, each a branch (an inner
//! namespace, shared by reference count) or a leaf.
use std::rc::Rc;
use vstd::prelude::*;
use vstd::slice::slice_subrange;

use crate::named::{named, position, set_named};
use crate::text::strs_view;
use crate::{LyssRuntimeError, Value};

verus! {

/// A namespace entry.
#[derive(Debug)]
pub enum ObjectEntry<V> {
    Branch(Rc<Object<V>>),
    Leaf(V),
}

/// What a search ends on.
pub enum ObjectSearch<'o, V> {
    Branch(&'o Object<V>),
    Leaf(&'o V),
}

/// A namespace: names mapped to entries. A name stands for the first entry
/// that carries it.
#[derive(Debug)]
pub struct Object<V>(pub Vec<(String, ObjectEntry<V>)>);

/// The namespace of variables.
#[derive(Debug)]
pub struct VarsObject(pub Object<Value>);

/// Why a walk down a path stops.
#[derive(Debug)]
pub enum ObjectFindResult {
    /// Some segment names nothing.
    NotFound,
    /// A leaf was reached before the path ended.
    EarlyLeaf,
}

/// What a walk reaches, as a value.
pub enum Found<V> {
    Branch(Object<V>),
    Leaf(V),
}

pub open spec fn found_of<V>(e: ObjectEntry<V>) -> Found<V> {
    match e {
        ObjectEntry::Branch(b) => Found::Branch(*b),
        ObjectEntry::Leaf(l) => Found::Leaf(l),
    }
}

pub open spec fn search_v<V>(s: ObjectSearch<'_, V>) -> Found<V> {
    match s {
        ObjectSearch::Branch(b) => Found::Branch(*b),
        ObjectSearch::Leaf(l) => Found::Leaf(*l),
    }
}

/// The walk from `at` down `path`, one segment at a time.
pub open spec fn walk<V>(at: Found<V>, path: Seq<Seq<char>>) -> Result<Found<V>, ObjectFindResult>
    decreases path.len(),
{
    if path.len() == 0 {
        Ok(at)
    } else {
        match at {
            Found::Leaf(_) => Err(ObjectFindResult::EarlyLeaf),
            Found::Branch(o) => match named(o.0@, path[0]) {
                None => Err(ObjectFindResult::NotFound),
                Some(e) => walk(found_of(e), path.drop_first()),
            },
        }
    }
}

/// How a lookup by path can fail.
pub enum LookupErr {
    NotFound,
    WasLeaf,
    WasBranch,
}

/// The leaf at `path` from `o`, or why there is none.
pub open spec fn leaf_at<V>(o: Object<V>, path: Seq<Seq<char>>) -> Result<V, LookupErr> {
    match walk(Found::Branch(o), path) {
        Ok(Found::Leaf(l)) => Ok(l),
        Ok(Found::Branch(_)) => Err(LookupErr::WasBranch),
        Err(ObjectFindResult::NotFound) => Err(LookupErr::NotFound),
        Err(ObjectFindResult::EarlyLeaf) => Err(LookupErr::WasLeaf),
    }
}

/// The branch at `path` from `o`, or why there is none.
pub open spec fn branch_at<V>(o: Object<V>, path: Seq<Seq<char>>) -> Result<Object<V>, LookupErr> {
    match walk(Found::Branch(o), path) {
        Ok(Found::Leaf(_)) => Err(LookupErr::WasLeaf),
        Ok(Found::Branch(b)) => Ok(b),
        Err(ObjectFindResult::NotFound) => Err(LookupErr::NotFound),
        Err(ObjectFindResult::EarlyLeaf) => Err(LookupErr::WasLeaf),
    }
}

/// `e` is the runtime error for lookup failure `le` on `path`.
pub open spec fn lookup_err_is(e: LyssRuntimeError, le: LookupErr, path: Seq<Seq<char>>) -> bool {
    match le {
        LookupErr::NotFound => e matches LyssRuntimeError::EntryNotFound { path: p } && strs_view(p@) == path,
        LookupErr::WasLeaf => e matches LyssRuntimeError::EntryWasLeaf { path: p } && strs_view(p@) == path,
        LookupErr::WasBranch => e matches LyssRuntimeError::EntryWasBranch { path: p } && strs_view(p@) == path,
    }
}

/// A copy of a path.
pub fn copy_path(path: &[String]) -> (r: Vec<String>)
    ensures
        r@ == path@,
{
    let mut r: Vec<String> = Vec::new();
    let mut i: usize = 0;
    while i < path.len()
        invariant
            i <= path@.len(),
            r@ == path@.take(i as int),
        decreases path@.len() - i,
    {
        r.push(path[i].clone());
        proof {
            assert(r@ =~= path@.take(i + 1));
        }
        i = i + 1;
    }
    proof {
        assert(path@.take(path@.len() as int) =~= path@);
    }
    r
}

impl<V> Object<V> {
    /// An empty namespace.
    pub fn new() -> (r: Object<V>)
        ensures
            r.0@.len() == 0,
    {
        Object(Vec::new())
    }

    /// The entry that `key` names, if any.
    pub fn get(&self, key: &String) -> (r: Option<&ObjectEntry<V>>)
        ensures
            match named(self.0@, key@) {
                Some(e) => r is Some && *r->Some_0 == e,
                None => r is None,
            },
    {
        match position(&self.0, key) {
            Some(i) => Some(&self.0[i].1),
            None => None,
        }
    }

    /// Makes `name` stand for `entry`, in place of what it stood for.
    pub fn insert(&mut self, name: String, entry: ObjectEntry<V>)
        ensures
            named(final(self).0@, name@) == Some(entry),
            forall|k: Seq<char>| k != name@ ==> named(final(self).0@, k) == named(old(self).0@, k),
    {
        set_named(&mut self.0, name, entry);
    }
}

impl<V> Object<V> {
    /// The entry that one segment names, as a search result.
    fn find_next(&self, path: &String) -> (r: Option<ObjectSearch<'_, V>>)
        ensures
            match named(self.0@, path@) {
                Some(e) => r is Some && search_v(r->Some_0) == found_of(e),
                None => r is None,
            },
    {
        match self.get(path) {
            Some(ObjectEntry::Leaf(l)) => Some(ObjectSearch::Leaf(l)),
            Some(ObjectEntry::Branch(b)) => Some(ObjectSearch::Branch(&**b)),
            None => None,
        }
    }

    /// Walks down `path` one segment at a time.
    fn find_deep(&self, path: &[String]) -> (r: Result<ObjectSearch<'_, V>, ObjectFindResult>)
        ensures
            match walk(Found::Branch(*self), strs_view(path@)) {
                Ok(f) => r is Ok && search_v(r->Ok_0) == f,
                Err(ObjectFindResult::NotFound) => r matches Err(ObjectFindResult::NotFound),
                Err(ObjectFindResult::EarlyLeaf) => r matches Err(ObjectFindResult::EarlyLeaf),
            },
    {
        let ghost pv = strs_view(path@);
        let mut obj = ObjectSearch::Branch(self);
        let mut i: usize = 0;
        proof {
            assert(pv.skip(0) =~= pv);
        }
        while i < path.len()
            invariant
                i <= path@.len(),
                pv == strs_view(path@),
                walk(Found::Branch(*self), pv) == walk(search_v(obj), pv.skip(i as int)),
            decreases path@.len() - i,
        {
            proof {
                assert(pv.skip(i as int).drop_first() =~= pv.skip(i + 1));
                assert(pv.skip(i as int)[0] == path@[i as int]@);
            }
            obj = match obj {
                ObjectSearch::Branch(b) => match b.find_next(&path[i]) {
                    Some(next) => next,
                    None => {
                        return Err(ObjectFindResult::NotFound);
                    },
                },
                ObjectSearch::Leaf(_) => {
                    return Err(ObjectFindResult::EarlyLeaf);
                },
            };
            i = i + 1;
        }
        proof {
            assert(pv.skip(i as int) =~= Seq::<Seq<char>>::empty());
        }
        Ok(obj)
    }

    /// The branch at `path`, or why there is none.
    pub fn find_branch(&self, path: &[String]) -> (r: Result<&Object<V>, LyssRuntimeError>)
        ensures
            match branch_at(*self, strs_view(path@)) {
                Ok(b) => r is Ok && *r->Ok_0 == b,
                Err(e) => r is Err && lookup_err_is(r->Err_0, e, strs_view(path@)),
            },
    {
        match self.find_deep(path) {
            Ok(ObjectSearch::Branch(b)) => Ok(b),
            Ok(ObjectSearch::Leaf(_)) => Err(LyssRuntimeError::EntryWasLeaf { path: copy_path(path) }),
            Err(ObjectFindResult::EarlyLeaf) => Err(
                LyssRuntimeError::EntryWasLeaf { path: copy_path(path) },
            ),
            Err(ObjectFindResult::NotFound) => Err(
                LyssRuntimeError::EntryNotFound { path: copy_path(path) },
            ),
        }
    }

    /// The entry at a path of one segment or more, as it is held: a leaf, or
    /// a shared handle on a branch.
    pub fn find_entry(&self, path: &[String]) -> (r: Result<&ObjectEntry<V>, LyssRuntimeError>)
        requires
            path@.len() > 0,
        ensures
            match walk(Found::Branch(*self), strs_view(path@)) {
                Ok(f) => r is Ok && found_of(*r->Ok_0) == f,
                Err(ObjectFindResult::NotFound) => r matches Err(LyssRuntimeError::EntryNotFound { path: p }) && strs_view(p@) == strs_view(path@),
                Err(ObjectFindResult::EarlyLeaf) => r matches Err(LyssRuntimeError::EntryWasLeaf { path: p }) && strs_view(p@) == strs_view(path@),
            },
    {
        let last = path.len() - 1;
        let ghost pv = strs_view(path@);
        proof {
            lemma_walk_split(Found::Branch(*self), pv, last as int);
            assert(strs_view(path@.take(last as int)) =~= pv.take(last as int));
        }
        let parent = match self.find_deep(slice_subrange(path, 0, last)) {
            Ok(ObjectSearch::Branch(b)) => b,
            Ok(ObjectSearch::Leaf(_)) | Err(ObjectFindResult::EarlyLeaf) => {
                return Err(LyssRuntimeError::EntryWasLeaf { path: copy_path(path) });
            },
            Err(ObjectFindResult::NotFound) => {
                return Err(LyssRuntimeError::EntryNotFound { path: copy_path(path) });
            },
        };
        proof {
            assert(pv.skip(last as int).drop_first() =~= Seq::<Seq<char>>::empty());
            assert(pv.skip(last as int)[0] == path@[last as int]@);
        }
        match parent.get(&path[last]) {
            Some(e) => {
                proof {
                    let rest = pv.skip(last as int);
                    assert(walk(found_of(*e), rest.drop_first()) == Ok::<Found<V>, ObjectFindResult>(found_of(*e)));
                    assert(walk(Found::Branch(*parent), rest) == walk(found_of(*e), rest.drop_first()));
                }
                Ok(e)
            },
            None => Err(LyssRuntimeError::EntryNotFound { path: copy_path(path) }),
        }
    }
}

impl<V> Default for Object<V> {
    fn default() -> (r: Object<V>)
        ensures
            r.0@.len() == 0,
    {
        Object::new()
    }
}

impl<V: Copy> Object<V> {
    /// The leaf at `path`, or why there is none: a segment that names
    /// nothing, a leaf before the path ends, or a branch where it ends.
    pub fn find_leaf(&self, path: &[String]) -> (r: Result<V, LyssRuntimeError>)
        ensures
            match leaf_at(*self, strs_view(path@)) {
                Ok(l) => r == Ok::<V, LyssRuntimeError>(l),
                Err(e) => r is Err && lookup_err_is(r->Err_0, e, strs_view(path@)),
            },
    {
        match self.find_deep(path) {
            Ok(ObjectSearch::Leaf(l)) => Ok(*l),
            Ok(ObjectSearch::Branch(_)) => Err(LyssRuntimeError::EntryWasBranch { path: copy_path(path) }),
            Err(ObjectFindResult::EarlyLeaf) => Err(
                LyssRuntimeError::EntryWasLeaf { path: copy_path(path) },
            ),
            Err(ObjectFindResult::NotFound) => Err(
                LyssRuntimeError::EntryNotFound { path: copy_path(path) },
            ),
        }
    }
}

/// A walk down `p` is the walk down its first `k` segments, then the rest.
proof fn lemma_walk_split<V>(at: Found<V>, p: Seq<Seq<char>>, k: int)
    requires
        0 <= k <= p.len(),
    ensures
        walk(at, p) == match walk(at, p.take(k)) {
            Ok(f) => walk(f, p.skip(k)),
            Err(e) => Err(e),
        },
    decreases k,
{
    if k == 0 {
        assert(p.skip(0) =~= p);
        assert(p.take(0) =~= Seq::<Seq<char>>::empty());
    } else {
        assert(p.take(k).drop_first() =~= p.drop_first().take(k - 1));
        assert(p.skip(k) =~= p.drop_first().skip(k - 1));
        match at {
            Found::Leaf(_) => {},
            Found::Branch(o) => match named(o.0@, p[0]) {
                None => {},
                Some(e) => {
                    lemma_walk_split(found_of(e), p.drop_first(), k - 1);
                },
            },
        }
    }
}

} // verus!
