//! Numeric literals, held exactly as normalised decimal text.
use vstd::prelude::*;

use crate::text::push_char;
use crate::tokenizer::{digit, is_digit};

verus! {

/// A number written in decimal, held in its normalised form: no leading zero
/// before the point (but a lone `0`), no trailing zero after it, and no point
/// when nothing follows it. Two numbers are equal exactly when their texts are.
#[derive(Debug)]
pub struct Number {
    text: String,
}

/// The digits before the point, with leading zeros dropped.
pub open spec fn drop_leading_zeros(s: Seq<char>) -> Seq<char>
    decreases s.len(),
{
    if s.len() > 0 && s[0] == '0' {
        drop_leading_zeros(s.drop_first())
    } else {
        s
    }
}

/// The digits after the point, with trailing zeros dropped.
pub open spec fn drop_trailing_zeros(s: Seq<char>) -> Seq<char>
    decreases s.len(),
{
    if s.len() > 0 && s.last() == '0' {
        drop_trailing_zeros(s.drop_last())
    } else {
        s
    }
}

pub open spec fn all_digits(s: Seq<char>) -> bool {
    forall|i: int| 0 <= i < s.len() ==> is_digit(#[trigger] s[i])
}

/// The normalised text of a whole part and a fraction part.
pub open spec fn normal_form(whole: Seq<char>, frac: Seq<char>) -> Seq<char> {
    let w = drop_leading_zeros(whole);
    let f = drop_trailing_zeros(frac);
    let w2 = if w.len() == 0 {
        seq!['0']
    } else {
        w
    };
    if f.len() == 0 {
        w2
    } else {
        w2 + seq!['.'] + f
    }
}

/// Where a literal with one point splits into its whole and fraction parts.
pub open spec fn point_at(t: Seq<char>, k: int) -> bool {
    0 <= k < t.len() && t[k] == '.' && all_digits(t.take(k)) && all_digits(t.skip(k + 1))
        && t.len() > 1
}

/// The number a literal denotes, as normalised text: `None` unless the
/// literal is digits with at most one point and a digit on at least one side.
pub open spec fn number_text(t: Seq<char>) -> Option<Seq<char>> {
    if all_digits(t) && t.len() > 0 {
        Some(normal_form(t, seq![]))
    } else if exists|k: int| point_at(t, k) {
        let k = choose|k: int| point_at(t, k);
        Some(normal_form(t.take(k), t.skip(k + 1)))
    } else {
        None
    }
}

impl View for Number {
    type V = Seq<char>;

    closed spec fn view(&self) -> Seq<char> {
        self.text@
    }
}

/// Every position of a literal but its point holds a digit.
proof fn lemma_point_digits(t: Seq<char>, k: int, m: int)
    requires
        point_at(t, k),
        0 <= m < t.len(),
        m != k,
    ensures
        is_digit(t[m]),
{
    if m < k {
        assert(t.take(k)[m] == t[m]);
    } else {
        assert(t.skip(k + 1)[m - k - 1] == t[m]);
    }
}

/// A character that is neither a digit nor a point makes no number.
proof fn lemma_stray_char(t: Seq<char>, i: int)
    requires
        0 <= i < t.len(),
        !is_digit(t[i]),
        t[i] != '.',
    ensures
        number_text(t) is None,
{
    assert(!all_digits(t));
    assert forall|k: int| !point_at(t, k) by {
        if point_at(t, k) {
            lemma_point_digits(t, k, i);
        }
    }
}

/// Two characters that are not digits make no number.
proof fn lemma_two_points(t: Seq<char>, i: int, j: int)
    requires
        0 <= i < t.len(),
        0 <= j < t.len(),
        i != j,
        !is_digit(t[i]),
        !is_digit(t[j]),
    ensures
        number_text(t) is None,
{
    assert(!all_digits(t));
    assert forall|k: int| !point_at(t, k) by {
        if point_at(t, k) {
            if k == i {
                lemma_point_digits(t, k, j);
            } else {
                lemma_point_digits(t, k, i);
            }
        }
    }
}

/// The position of the leading zeros' end: `drop_leading_zeros(s) == s.skip(a)`.
fn skip_leading_zeros(s: &Vec<char>) -> (a: usize)
    ensures
        a <= s@.len(),
        drop_leading_zeros(s@) == s@.skip(a as int),
{
    let mut a: usize = 0;
    proof {
        assert(s@.skip(0) =~= s@);
    }
    while a < s.len() && s[a] == '0'
        invariant
            a <= s@.len(),
            drop_leading_zeros(s@.skip(a as int)) == drop_leading_zeros(s@),
        decreases s@.len() - a,
    {
        proof {
            assert(s@.skip(a as int).drop_first() =~= s@.skip(a + 1));
        }
        a = a + 1;
    }
    a
}

/// The end of the digits before the trailing zeros: `drop_trailing_zeros(s) == s.take(b)`.
fn keep_before_trailing_zeros(s: &Vec<char>) -> (b: usize)
    ensures
        b <= s@.len(),
        drop_trailing_zeros(s@) == s@.take(b as int),
{
    let mut b: usize = s.len();
    proof {
        assert(s@.take(s@.len() as int) =~= s@);
    }
    while b > 0 && s[b - 1] == '0'
        invariant
            b <= s@.len(),
            drop_trailing_zeros(s@.take(b as int)) == drop_trailing_zeros(s@),
        decreases b,
    {
        proof {
            assert(s@.take(b as int).drop_last() =~= s@.take(b - 1));
        }
        b = b - 1;
    }
    b
}

/// Appends `s[from..to]` to `out`.
fn push_range(out: &mut String, s: &Vec<char>, from: usize, to: usize)
    requires
        from <= to <= s@.len(),
    ensures
        final(out)@ == old(out)@ + s@.subrange(from as int, to as int),
{
    let mut i = from;
    while i < to
        invariant
            from <= i <= to <= s@.len(),
            out@ == old(out)@ + s@.subrange(from as int, i as int),
        decreases to - i,
    {
        push_char(out, s[i]);
        proof {
            assert(s@.subrange(from as int, i + 1) =~= s@.subrange(from as int, i as int).push(s@[i as int]));
        }
        i = i + 1;
    }
}

/// The normalised text of the parts `whole` and `frac`.
fn normalise(whole: &Vec<char>, frac: &Vec<char>) -> (r: String)
    ensures
        r@ == normal_form(whole@, frac@),
{
    let a = skip_leading_zeros(whole);
    let b = keep_before_trailing_zeros(frac);
    let mut out = String::new();
    if a == whole.len() {
        push_char(&mut out, '0');
    } else {
        push_range(&mut out, whole, a, whole.len());
    }
    if b > 0 {
        push_char(&mut out, '.');
        push_range(&mut out, frac, 0, b);
    }
    proof {
        assert(whole@.subrange(a as int, whole@.len() as int) =~= whole@.skip(a as int));
        assert(frac@.subrange(0, b as int) =~= frac@.take(b as int));
        assert(seq!['0'] =~= Seq::<char>::empty().push('0'));
        let w = drop_leading_zeros(whole@);
        let w2 = if w.len() == 0 { seq!['0'] } else { w };
        if b > 0 {
            assert(out@ =~= w2 + seq!['.'] + drop_trailing_zeros(frac@));
        } else {
            assert(out@ =~= w2);
        }
    }
    out
}

impl Number {
    /// Reads a numeric literal; `None` unless it is digits with at most one
    /// point and a digit on at least one side of it.
    pub fn parse(t: &str) -> (r: Option<Number>)
        ensures
            match number_text(t@) {
                Some(n) => r is Some && r->Some_0@ == n,
                None => r is None,
            },
    {
        let mut whole: Vec<char> = Vec::new();
        let mut frac: Vec<char> = Vec::new();
        let mut seen_dot = false;
        let ghost mut dot: int = 0;
        for c in it: t.chars()
            invariant
                it.seq() == t@,
                !seen_dot ==> whole@ == t@.take(it.index() as int) && frac@.len() == 0,
                seen_dot ==> 0 <= dot < it.index() && t@[dot] == '.' && whole@ == t@.take(dot)
                    && frac@ == t@.subrange(dot + 1, it.index() as int),
                all_digits(whole@),
                all_digits(frac@),
        {
            let ghost i = it.index() as int;
            if digit(c) {
                if seen_dot {
                    frac.push(c);
                    proof {
                        assert(frac@ =~= t@.subrange(dot + 1, i + 1));
                    }
                } else {
                    whole.push(c);
                    proof {
                        assert(whole@ =~= t@.take(i + 1));
                    }
                }
            } else if c == '.' && !seen_dot {
                seen_dot = true;
                proof {
                    dot = i;
                }
            } else {
                proof {
                    if c == '.' {
                        assert(!is_digit(t@[dot]));
                        lemma_two_points(t@, dot, i);
                    } else {
                        lemma_stray_char(t@, i);
                    }
                }
                return None;
            }
        }
        if !seen_dot {
            proof {
                assert(whole@ =~= t@);
            }
            if whole.len() == 0 {
                return None;
            }
            return Some(Number { text: normalise(&whole, &frac) });
        }
        proof {
            assert(frac@ =~= t@.skip(dot + 1));
        }
        if whole.len() == 0 && frac.len() == 0 {
            proof {
                assert(t@.len() == 1);
                assert(!is_digit(t@[0]));
                assert(!all_digits(t@));
            }
            return None;
        }
        proof {
            assert(point_at(t@, dot));
            assert(!is_digit(t@[dot]));
            assert(!all_digits(t@));
            assert forall|k: int| point_at(t@, k) implies k == dot by {
                if k != dot {
                    lemma_point_digits(t@, k, dot);
                }
            }
        }
        Some(Number { text: normalise(&whole, &frac) })
    }

    /// The normalised decimal text of the number.
    pub fn to_text(&self) -> (r: String)
        ensures
            r@ == self@,
    {
        self.text.clone()
    }
}

impl Clone for Number {
    fn clone(&self) -> (r: Number)
        ensures
            r@ == self@,
    {
        Number { text: self.text.clone() }
    }
}

impl PartialEq for Number {
    fn eq(&self, other: &Number) -> (r: bool)
        ensures
            r == (self@ == other@),
    {
        self.text == other.text
    }
}

impl vstd::std_specs::cmp::PartialEqSpecImpl for Number {
    open spec fn obeys_eq_spec() -> bool {
        true
    }

    open spec fn eq_spec(&self, other: &Number) -> bool {
        self@ == other@
    }
}

} // verus!
