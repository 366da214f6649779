//! Tables of named values: a name stands for the first entry that carries it.
use vstd::prelude::*;

verus! {

/// What `key` stands for among `entries`: the first entry that carries it.
pub open spec fn named<T>(entries: Seq<(String, T)>, key: Seq<char>) -> Option<T>
    decreases entries.len(),
{
    if entries.len() == 0 {
        None
    } else if entries[0].0@ == key {
        Some(entries[0].1)
    } else {
        named(entries.drop_first(), key)
    }
}

/// The position of the first entry that carries `key`.
pub fn position<T>(entries: &Vec<(String, T)>, key: &String) -> (r: Option<usize>)
    ensures
        match named(entries@, key@) {
            Some(v) => r is Some && r->Some_0 < entries@.len() && entries@[r->Some_0 as int].1
                == v,
            None => r is None,
        },
{
    let mut i: usize = 0;
    proof {
        assert(entries@.skip(0) =~= entries@);
    }
    while i < entries.len()
        invariant
            i <= entries@.len(),
            named(entries@, key@) == named(entries@.skip(i as int), key@),
        decreases entries@.len() - i,
    {
        proof {
            assert(entries@.skip(i as int).drop_first() =~= entries@.skip(i + 1));
        }
        if entries[i].0 == *key {
            return Some(i);
        }
        i = i + 1;
    }
    None
}

/// Makes `name` stand for `value`, in place of what it stood for.
pub fn set_named<T>(entries: &mut Vec<(String, T)>, name: String, value: T)
    ensures
        named(final(entries)@, name@) == Some(value),
        forall|k: Seq<char>| k != name@ ==> named(final(entries)@, k) == named(old(entries)@, k),
{
    let ghost n = name@;
    let mut i: usize = 0;
    while i < entries.len()
        invariant
            i <= entries@.len(),
            entries@ == old(entries)@,
            name@ == n,
            forall|j: int| 0 <= j < i ==> entries@[j].0@ != n,
        decreases entries@.len() - i,
    {
        if entries[i].0 == name {
            let ghost before = entries@;
            let ghost x = (name, value);
            entries.set(i, (name, value));
            proof {
                assert forall|k: Seq<char>| k != n implies named(entries@, k) == named(before, k) by {
                    lemma_named_update(before, i as int, n, x, k);
                }
                lemma_named_update(before, i as int, n, x, n);
            }
            return;
        }
        i = i + 1;
    }
    let ghost before = entries@;
    let ghost x = (name, value);
    entries.push((name, value));
    proof {
        assert forall|k: Seq<char>| k != n implies named(entries@, k) == named(before, k) by {
            lemma_named_push(before, n, x, k);
        }
        lemma_named_push(before, n, x, n);
    }
}

/// Replacing the first entry that carries `n` changes what `n` names and nothing else.
proof fn lemma_named_update<T>(s: Seq<(String, T)>, i: int, n: Seq<char>, x: (String, T), k: Seq<char>)
    requires
        0 <= i < s.len(),
        s[i].0@ == n,
        x.0@ == n,
        forall|j: int| 0 <= j < i ==> s[j].0@ != n,
    ensures
        named(s.update(i, x), k) == if k == n {
            Some(x.1)
        } else {
            named(s, k)
        },
    decreases s.len(),
{
    assert(s.update(i, x).drop_first() =~= if i == 0 {
        s.drop_first()
    } else {
        s.drop_first().update(i - 1, x)
    });
    if i > 0 {
        assert(s.update(i, x)[0] == s[0]);
        if s[0].0@ != k {
            lemma_named_update(s.drop_first(), i - 1, n, x, k);
        }
    }
}

/// Appending an entry for a name that no entry carries makes it name that entry.
proof fn lemma_named_push<T>(s: Seq<(String, T)>, n: Seq<char>, x: (String, T), k: Seq<char>)
    requires
        forall|j: int| 0 <= j < s.len() ==> s[j].0@ != n,
        x.0@ == n,
    ensures
        named(s.push(x), k) == if k == n {
            Some(x.1)
        } else {
            named(s, k)
        },
    decreases s.len(),
{
    if s.len() > 0 {
        assert(s.push(x).drop_first() =~= s.drop_first().push(x));
        assert(s.push(x)[0] == s[0]);
        if s[0].0@ != k {
            lemma_named_push(s.drop_first(), n, x, k);
        }
    } else {
        assert(s.push(x).drop_first() =~= s);
    }
}

} // verus!
