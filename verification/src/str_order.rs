//! The order of strings that `String`'s `Ord` gives: lexicographic by
//! character (UTF-8 byte order and code point order agree), and a sorted
//! insertion into a list kept in that order.

use vstd::prelude::*;
use crate::text::chars_of;

verus! {

/// Whether `a` comes strictly before `b`.
pub open spec fn str_lt(a: Seq<char>, b: Seq<char>) -> bool
    decreases a.len(),
{
    if a.len() == 0 {
        b.len() > 0
    } else if b.len() == 0 {
        false
    } else if a[0] < b[0] {
        true
    } else if a[0] > b[0] {
        false
    } else {
        str_lt(a.drop_first(), b.drop_first())
    }
}

pub proof fn lemma_str_lt_irreflexive(a: Seq<char>)
    ensures
        !str_lt(a, a),
    decreases a.len(),
{
    if a.len() > 0 {
        lemma_str_lt_irreflexive(a.drop_first());
    }
}

pub proof fn lemma_str_lt_transitive(a: Seq<char>, b: Seq<char>, c: Seq<char>)
    requires
        str_lt(a, b),
        str_lt(b, c),
    ensures
        str_lt(a, c),
    decreases a.len(),
{
    if a.len() > 0 && b.len() > 0 && c.len() > 0 {
        if a[0] == b[0] && b[0] == c[0] {
            lemma_str_lt_transitive(a.drop_first(), b.drop_first(), c.drop_first());
        } else {
            assert(a[0] <= b[0] && b[0] <= c[0]);
        }
    }
}

pub proof fn lemma_str_lt_total(a: Seq<char>, b: Seq<char>)
    requires
        a != b,
    ensures
        str_lt(a, b) || str_lt(b, a),
    decreases a.len(),
{
    if a.len() > 0 && b.len() > 0 {
        if a[0] == b[0] {
            if a.drop_first() == b.drop_first() {
                assert(a =~= seq![a[0]] + a.drop_first());
                assert(b =~= seq![b[0]] + b.drop_first());
            }
            lemma_str_lt_total(a.drop_first(), b.drop_first());
        }
    } else if a.len() == 0 && b.len() == 0 {
        assert(a =~= b);
    }
}

/// Whether `a` comes strictly before `b`.
pub fn str_less(a: &str, b: &str) -> (r: bool)
    ensures
        r == str_lt(a@, b@),
{
    let x = chars_of(a);
    let y = chars_of(b);
    let mut i: usize = 0;
    assert(x@.skip(0) =~= x@ && y@.skip(0) =~= y@);
    while i < x.len() && i < y.len()
        invariant
            x@ == a@,
            y@ == b@,
            i <= x@.len(),
            i <= y@.len(),
            str_lt(a@, b@) == str_lt(x@.skip(i as int), y@.skip(i as int)),
        decreases x@.len() - i,
    {
        let c = x[i];
        let d = y[i];
        assert(x@.skip(i as int)[0] == c && y@.skip(i as int)[0] == d);
        if c < d {
            return true;
        }
        if c > d {
            return false;
        }
        assert(x@.skip(i as int).drop_first() =~= x@.skip(i + 1));
        assert(y@.skip(i as int).drop_first() =~= y@.skip(i + 1));
        i = i + 1;
    }
    i == x.len() && i < y.len()
}

pub open spec fn strings_of(v: Seq<String>) -> Seq<Seq<char>> {
    v.map_values(|s: String| s@)
}

/// Whether the strings of `s` come in strictly increasing order.
pub open spec fn sorted_strictly(s: Seq<Seq<char>>) -> bool {
    forall|i: int, j: int| 0 <= i < j < s.len() ==> str_lt(#[trigger] s[i], #[trigger] s[j])
}

/// Inserts `x`, which `v` does not hold, at its place in the order.
pub fn insert_sorted(v: &mut Vec<String>, x: String)
    requires
        sorted_strictly(strings_of(old(v)@)),
        !strings_of(old(v)@).contains(x@),
    ensures
        sorted_strictly(strings_of(final(v)@)),
        strings_of(final(v)@).len() == strings_of(old(v)@).len() + 1,
        forall|y: Seq<char>| strings_of(final(v)@).contains(y) <==> (strings_of(old(v)@).contains(y) || y == x@),
{
    let n = v.len();
    let mut j: usize = 0;
    while j < n && !str_less(x.as_str(), v[j].as_str())
        invariant
            n == v@.len(),
            v@ == old(v)@,
            !strings_of(old(v)@).contains(x@),
            j <= n,
            forall|k: int| 0 <= k < j ==> str_lt(#[trigger] strings_of(v@)[k], x@),
        decreases n - j,
    {
        proof {
            let y = strings_of(v@)[j as int];
            assert(strings_of(old(v)@).contains(y));
            if y == x@ {
                assert(false);
            }
            lemma_str_lt_total(x@, y);
        }
        j = j + 1;
    }
    let ghost before = strings_of(v@);
    let ghost xv = x@;
    v.insert(j, x);
    proof {
        let after = strings_of(v@);
        assert(after =~= before.insert(j as int, xv));
        assert forall|a: int, b: int| 0 <= a < b < after.len() implies str_lt(#[trigger] after[a], #[trigger] after[b]) by {
            if b < j {
            } else if b == j {
            } else if a < j {
                assert(after[b] == before[b - 1]);
                if (j as int) < n {
                    assert(str_lt(xv, before[j as int]));
                    if b - 1 > j {
                        lemma_str_lt_transitive(xv, before[j as int], before[b - 1]);
                    }
                    lemma_str_lt_transitive(after[a], xv, after[b]);
                }
            } else if a == j {
                assert(str_lt(xv, before[j as int]));
                if b - 1 > j {
                    lemma_str_lt_transitive(xv, before[j as int], before[b - 1]);
                }
            } else {
                assert(after[a] == before[a - 1] && after[b] == before[b - 1]);
            }
        }
        assert forall|y: Seq<char>| after.contains(y) <==> (before.contains(y) || y == xv) by {
            if after.contains(y) {
                let k = choose|k: int| 0 <= k < after.len() && after[k] == y;
                if k < j {
                    assert(before[k] == y);
                } else if k > j {
                    assert(before[k - 1] == y);
                }
            }
            if before.contains(y) {
                let k = choose|k: int| 0 <= k < before.len() && before[k] == y;
                if k < j {
                    assert(after[k] == y);
                } else {
                    assert(after[k + 1] == y);
                }
            }
            if y == xv {
                assert(after[j as int] == y);
            }
        }
    }
}

} // verus!
