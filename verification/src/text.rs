//! Character-level helpers on strings: equality, copying into a character
//! vector, and the code-point order used for sorted extension lists.

use vstd::prelude::*;
use vstd::string::*;

verus! {

/// Copies the characters of `s` into a vector.
pub fn chars_of(s: &str) -> (v: Vec<char>)
    ensures
        v@ == s@,
{
    let mut v: Vec<char> = Vec::new();
    let n = s.unicode_len();
    let mut i: usize = 0;
    while i < n
        invariant
            n == s@.len(),
            i <= n,
            v@ == s@.take(i as int),
        decreases n - i,
    {
        let c = s.get_char(i);
        v.push(c);
        i = i + 1;
        assert(v@ =~= s@.take(i as int));
    }
    assert(s@.take(n as int) =~= s@);
    v
}

/// Whether two strings hold the same characters.
pub fn str_eq(a: &str, b: &str) -> (r: bool)
    ensures
        r == (a@ == b@),
{
    let x = chars_of(a);
    let y = chars_of(b);
    if x.len() != y.len() {
        return false;
    }
    let mut i: usize = 0;
    while i < x.len()
        invariant
            x@ == a@,
            y@ == b@,
            x.len() == y.len(),
            i <= x.len(),
            forall|k: int| 0 <= k < i ==> x@[k] == y@[k],
        decreases x.len() - i,
    {
        if x[i] != y[i] {
            return false;
        }
        i = i + 1;
    }
    assert(x@ =~= y@);
    true
}


/// Code-point lexicographic order: `a` comes strictly before `b`. On UTF-8
/// text this is the byte order that `String`'s `Ord` uses.
pub open spec fn seq_lt(a: Seq<char>, b: Seq<char>) -> bool
    decreases a.len(),
{
    if a.len() == 0 {
        b.len() > 0
    } else if b.len() == 0 {
        false
    } else if a[0] != b[0] {
        (a[0] as int) < (b[0] as int)
    } else {
        seq_lt(a.drop_first(), b.drop_first())
    }
}

/// The order is transitive.
pub proof fn lemma_lt_transitive(a: Seq<char>, b: Seq<char>, c: Seq<char>)
    requires
        seq_lt(a, b),
        seq_lt(b, c),
    ensures
        seq_lt(a, c),
    decreases a.len(),
{
    if a.len() > 0 && b.len() > 0 && c.len() > 0 {
        if a[0] == b[0] && b[0] == c[0] {
            lemma_lt_transitive(a.drop_first(), b.drop_first(), c.drop_first());
        }
    }
}

/// Of two different texts, one comes before the other.
pub proof fn lemma_lt_total(a: Seq<char>, b: Seq<char>)
    requires
        a != b,
    ensures
        seq_lt(a, b) || seq_lt(b, a),
    decreases a.len(),
{
    if a.len() > 0 && b.len() > 0 && a[0] == b[0] {
        if a.drop_first() == b.drop_first() {
            assert(a =~= seq![a[0]] + a.drop_first());
            assert(b =~= seq![b[0]] + b.drop_first());
        }
        lemma_lt_total(a.drop_first(), b.drop_first());
    } else if a.len() > 0 && b.len() > 0 {
        assert((a[0] as int) != (b[0] as int));
    } else if a.len() == 0 && b.len() == 0 {
        assert(a =~= b);
    }
}

/// A sequence of texts in strictly increasing order, so with no repeats.
pub open spec fn strictly_sorted(s: Seq<Seq<char>>) -> bool {
    forall|i: int, j: int| 0 <= i < j < s.len() ==> seq_lt(#[trigger] s[i], #[trigger] s[j])
}

/// Whether `a` comes strictly before `b`.
pub fn chars_lt(a: &Vec<char>, b: &Vec<char>) -> (r: bool)
    ensures
        r == seq_lt(a@, b@),
{
    let mut i: usize = 0;
    assert(a@.skip(0) =~= a@);
    assert(b@.skip(0) =~= b@);
    while i < a.len() && i < b.len()
        invariant
            i <= a.len(),
            i <= b.len(),
            seq_lt(a@, b@) == seq_lt(a@.skip(i as int), b@.skip(i as int)),
        decreases a.len() - i,
    {
        if a[i] != b[i] {
            proof {
                let x = a@.skip(i as int);
                let y = b@.skip(i as int);
                assert(x[0] == a@[i as int]);
                assert(y[0] == b@[i as int]);
            }
            return a[i] < b[i];
        }
        proof {
            let x = a@.skip(i as int);
            let y = b@.skip(i as int);
            assert(x.drop_first() =~= a@.skip(i + 1));
            assert(y.drop_first() =~= b@.skip(i + 1));
        }
        i = i + 1;
    }
    proof {
        let x = a@.skip(i as int);
        let y = b@.skip(i as int);
        assert(x.len() == 0 || y.len() == 0);
    }
    i == a.len() && i < b.len()
}

/// Inserts `x` into a strictly sorted vector of texts unless it is already
/// there; the vector stays strictly sorted and holds exactly the texts it
/// held before and `x`.
pub fn insert_sorted(v: &mut Vec<String>, x: String)
    requires
        strictly_sorted(crate::model::strings_view(old(v)@)),
    ensures
        strictly_sorted(crate::model::strings_view(final(v)@)),
        forall|t: Seq<char>|
            crate::model::strings_view(final(v)@).contains(t) <==> (crate::model::strings_view(
                old(v)@,
            ).contains(t) || t == x@),
{
    let ghost old_view = crate::model::strings_view(v@);
    let xs = chars_of(x.as_str());
    let mut p: usize = 0;
    while p < v.len()
        invariant
            p <= v.len(),
            v@ == old(v)@,
            old_view == crate::model::strings_view(v@),
            xs@ == x@,
            strictly_sorted(old_view),
            forall|q: int| 0 <= q < p ==> seq_lt(#[trigger] old_view[q], x@),
        ensures
            p <= v.len(),
            v@ == old(v)@,
            forall|q: int| 0 <= q < p ==> seq_lt(#[trigger] old_view[q], x@),
            p < v.len() ==> !seq_lt(old_view[p as int], x@),
        decreases v.len() - p,
    {
        let cur = chars_of(v[p].as_str());
        assert(cur@ == old_view[p as int]);
        if !chars_lt(&cur, &xs) {
            break;
        }
        p = p + 1;
    }
    if p < v.len() {
        let cur = chars_of(v[p].as_str());
        if !chars_lt(&xs, &cur) {
            // neither comes before the other: x is already present
            proof {
                if cur@ != x@ {
                    lemma_lt_total(cur@, x@);
                }
                assert(old_view[p as int] == x@);
            }
            return;
        }
    }
    proof {
        assert forall|q: int| p <= q < old_view.len() implies seq_lt(x@, #[trigger] old_view[q]) by {
            if q > p {
                lemma_lt_transitive(x@, old_view[p as int], old_view[q]);
            }
        }
    }
    v.insert(p, x);
    proof {
        let nv = crate::model::strings_view(v@);
        assert(nv =~= old_view.insert(p as int, x@));
        assert forall|i: int, j: int| 0 <= i < j < nv.len() implies seq_lt(#[trigger] nv[i], #[trigger] nv[j]) by {
            if j < p {
            } else if j == p {
            } else if i < p {
                lemma_lt_transitive(nv[i], x@, nv[j]);
            } else if i == p {
            } else {
            }
        }
        assert forall|t: Seq<char>| nv.contains(t) <==> (old_view.contains(t) || t == x@) by {
            if nv.contains(t) {
                let k = choose|k: int| 0 <= k < nv.len() && nv[k] == t;
                if k < p {
                    assert(old_view[k] == t);
                } else if k > p {
                    assert(old_view[k - 1] == t);
                }
            }
            if old_view.contains(t) {
                let k = choose|k: int| 0 <= k < old_view.len() && old_view[k] == t;
                if k < p {
                    assert(nv[k] == t);
                } else {
                    assert(nv[k + 1] == t);
                }
            }
            if t == x@ {
                assert(nv[p as int] == t);
            }
        }
    }
}

} // verus!
