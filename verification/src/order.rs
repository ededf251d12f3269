//! The order of strings (lexicographic by character), and vectors of
//! strings kept sorted without repeats.

use vstd::prelude::*;
use crate::text::chars_of;

verus! {

/// `a` comes strictly before `b`: lexicographic order by character code,
/// a proper prefix first. For UTF-8 strings this is the order of `String`.
pub open spec fn seq_less(a: Seq<char>, b: Seq<char>) -> bool
    decreases a.len(),
{
    if a.len() == 0 {
        b.len() > 0
    } else if b.len() == 0 {
        false
    } else if a[0] != b[0] {
        a[0] < b[0]
    } else {
        seq_less(a.drop_first(), b.drop_first())
    }
}

/// The sequences are in strictly increasing order (so hold no repeats).
pub open spec fn strictly_sorted(s: Seq<Seq<char>>) -> bool {
    forall|i: int, j: int| 0 <= i < j < s.len() ==> seq_less(#[trigger] s[i], #[trigger] s[j])
}

/// The characters of each string.
pub open spec fn views_of(v: Seq<String>) -> Seq<Seq<char>> {
    v.map_values(|s: String| s@)
}

/// Two different sequences are ordered one way or the other, and not both.
pub proof fn lemma_less_total(a: Seq<char>, b: Seq<char>)
    ensures
        a == b || seq_less(a, b) || seq_less(b, a),
        !(seq_less(a, b) && seq_less(b, a)),
    decreases a.len(),
{
    if a.len() > 0 && b.len() > 0 && a[0] == b[0] {
        lemma_less_total(a.drop_first(), b.drop_first());
        if a.drop_first() == b.drop_first() {
            assert forall|i: int| 0 <= i < a.len() implies a[i] == b[i] by {
                if i > 0 {
                    assert(a[i] == a.drop_first()[i - 1]);
                    assert(b[i] == b.drop_first()[i - 1]);
                }
            }
            assert(a =~= b);
        }
    } else if a.len() == 0 && b.len() == 0 {
        assert(a =~= b);
    }
}

/// The order is transitive.
pub proof fn lemma_less_transitive(a: Seq<char>, b: Seq<char>, c: Seq<char>)
    requires
        seq_less(a, b),
        seq_less(b, c),
    ensures
        seq_less(a, c),
    decreases a.len(),
{
    if a.len() > 0 && b.len() > 0 && c.len() > 0 && a[0] == b[0] && b[0] == c[0] {
        lemma_less_transitive(a.drop_first(), b.drop_first(), c.drop_first());
    }
}

/// Whether `a` comes strictly before `b`.
pub fn less(a: &Vec<char>, b: &Vec<char>) -> (r: bool)
    ensures
        r == seq_less(a@, b@),
{
    let mut i: usize = 0;
    assert(a@.skip(0) =~= a@);
    assert(b@.skip(0) =~= b@);
    while i < a.len() && i < b.len() && a[i] == b[i]
        invariant
            i <= a.len(),
            i <= b.len(),
            seq_less(a@, b@) == seq_less(a@.skip(i as int), b@.skip(i as int)),
        decreases a.len() - i,
    {
        assert(a@.skip(i as int).drop_first() =~= a@.skip(i + 1));
        assert(b@.skip(i as int).drop_first() =~= b@.skip(i + 1));
        i = i + 1;
    }
    if i == a.len() {
        i < b.len()
    } else if i == b.len() {
        false
    } else {
        a[i] < b[i]
    }
}

/// Adds `x` to the sorted vector `v` unless it is already there, keeping
/// `v` strictly sorted.
pub fn insert_sorted(v: &mut Vec<String>, x: String)
    requires
        strictly_sorted(views_of(old(v)@)),
    ensures
        strictly_sorted(views_of(final(v)@)),
        forall|y: Seq<char>|
            views_of(final(v)@).contains(y) <==> (views_of(old(v)@).contains(y) || y == x@),
{
    let ghost old_views = views_of(v@);
    let xc = chars_of(x.as_str());
    let mut p: usize = 0;
    while p < v.len() && less(&chars_of(v[p].as_str()), &xc)
        invariant
            p <= v@.len(),
            xc@ == x@,
            views_of(v@) == old_views,
            forall|i: int| 0 <= i < p ==> seq_less(#[trigger] views_of(v@)[i], x@),
        decreases v@.len() - p,
    {
        p = p + 1;
    }
    if p < v.len() && crate::text::seq_eq(&chars_of(v[p].as_str()), &xc) {
        assert(views_of(v@)[p as int] == x@);
        return;
    }
    proof {
        if p < v@.len() {
            lemma_less_total(old_views[p as int], x@);
        }
    }
    v.insert(p, x);
    proof {
        let nv = views_of(v@);
        assert(nv =~= old_views.insert(p as int, x@));
        assert forall|i: int, j: int| 0 <= i < j < nv.len() implies seq_less(
            #[trigger] nv[i],
            #[trigger] nv[j],
        ) by {
            if j < p {
                assert(nv[i] == old_views[i] && nv[j] == old_views[j]);
            } else if j == p {
                assert(nv[i] == old_views[i]);
            } else if i == p {
                assert(nv[j] == old_views[j - 1]);
                if j - 1 > p {
                    lemma_less_transitive(x@, old_views[p as int], old_views[j - 1]);
                }
            } else if i < p {
                assert(nv[i] == old_views[i] && nv[j] == old_views[j - 1]);
                if p < old_views.len() {
                    lemma_less_transitive(old_views[i], x@, old_views[p as int]);
                    if j - 1 > p {
                        lemma_less_transitive(old_views[i], old_views[p as int], old_views[j - 1]);
                    }
                }
            } else {
                assert(nv[i] == old_views[i - 1] && nv[j] == old_views[j - 1]);
            }
        }
        assert forall|y: Seq<char>| nv.contains(y) <==> (old_views.contains(y) || y == x@) by {
            if nv.contains(y) {
                let k = choose|k: int| 0 <= k < nv.len() && nv[k] == y;
                if k < p {
                    assert(old_views[k] == y);
                } else if k > p {
                    assert(old_views[k - 1] == y);
                }
            }
            if old_views.contains(y) {
                let k = choose|k: int| 0 <= k < old_views.len() && old_views[k] == y;
                if k < p {
                    assert(nv[k] == y);
                } else {
                    assert(nv[k + 1] == y);
                }
            }
            if y == x@ {
                assert(nv[p as int] == y);
            }
        }
    }
}

} // verus!
