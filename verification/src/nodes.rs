//! The order in which the daemon tries the hidraw device nodes: by name, as
//! `str` orders strings (character by character, by code point, a prefix first).
use vstd::prelude::*;

use crate::text::chars_of;

verus! {

/// `a` comes no later than `b` in the lexicographic order of their characters.
pub open spec fn name_le(a: Seq<char>, b: Seq<char>) -> bool
    decreases a.len(),
{
    if a.len() == 0 {
        true
    } else if b.len() == 0 {
        false
    } else if a[0] != b[0] {
        (a[0] as int) < (b[0] as int)
    } else {
        name_le(a.drop_first(), b.drop_first())
    }
}

/// Any two names are ordered one way or the other.
pub proof fn lemma_name_le_total(a: Seq<char>, b: Seq<char>)
    ensures
        name_le(a, b) || name_le(b, a),
    decreases a.len(),
{
    if a.len() > 0 && b.len() > 0 && a[0] == b[0] {
        lemma_name_le_total(a.drop_first(), b.drop_first());
    }
}

/// The order is transitive.
pub proof fn lemma_name_le_transitive(a: Seq<char>, b: Seq<char>, c: Seq<char>)
    requires
        name_le(a, b),
        name_le(b, c),
    ensures
        name_le(a, c),
    decreases a.len(),
{
    if a.len() > 0 && b.len() > 0 && c.len() > 0 && a[0] == b[0] && b[0] == c[0] {
        lemma_name_le_transitive(a.drop_first(), b.drop_first(), c.drop_first());
    }
}

/// Whether the name `a` may stand before the name `b`.
pub fn name_precedes(a: &str, b: &str) -> (r: bool)
    ensures
        r == name_le(a@, b@),
{
    let x = chars_of(a);
    let y = chars_of(b);
    let mut i: usize = 0;
    assert(x@.skip(0) =~= x@);
    assert(y@.skip(0) =~= y@);
    while i < x.len() && i < y.len() && x[i] == y[i]
        invariant
            i <= x@.len(),
            i <= y@.len(),
            name_le(a@, b@) == name_le(x@.skip(i as int), y@.skip(i as int)),
            x@ == a@,
            y@ == b@,
        decreases x@.len() - i,
    {
        assert(x@.skip(i as int).drop_first() =~= x@.skip(i + 1));
        assert(y@.skip(i as int).drop_first() =~= y@.skip(i + 1));
        i = i + 1;
    }
    if i == x.len() {
        true
    } else if i == y.len() {
        false
    } else {
        x[i] < y[i]
    }
}

/// Whether the names are in order.
pub open spec fn names_sorted(s: Seq<String>) -> bool {
    forall|i: int, j: int| 0 <= i < j < s.len() ==> name_le(#[trigger] s[i]@, #[trigger] s[j]@)
}

/// The first place in the sorted `r` where `n` can go after the names that
/// precede it and their equals.
fn insertion_point(r: &Vec<String>, n: &String) -> (p: usize)
    requires
        names_sorted(r@),
    ensures
        p <= r@.len(),
        forall|k: int| 0 <= k < p ==> name_le(#[trigger] r@[k]@, n@),
        forall|k: int| p <= k < r@.len() ==> name_le(n@, #[trigger] r@[k]@),
{
    let mut p: usize = 0;
    while p < r.len() && name_precedes(r[p].as_str(), n.as_str())
        invariant
            p <= r@.len(),
            names_sorted(r@),
            forall|k: int| 0 <= k < p ==> name_le(#[trigger] r@[k]@, n@),
        decreases r@.len() - p,
    {
        p = p + 1;
    }
    if p < r.len() {
        proof {
            lemma_name_le_total(r@[p as int]@, n@);
            assert forall|k: int| p <= k < r@.len() implies name_le(n@, #[trigger] r@[k]@) by {
                if k > p {
                    assert(name_le(r@[p as int]@, r@[k]@));
                    lemma_name_le_transitive(n@, r@[p as int]@, r@[k]@);
                }
            }
        }
    }
    p
}

/// Puts the names in order, as `sort` on a vector of strings does: the same
/// names, each as often as before, sorted.
pub fn sort_names(names: &mut Vec<String>)
    ensures
        final(names)@.to_multiset() == old(names)@.to_multiset(),
        names_sorted(final(names)@),
{
    let ghost orig = names@;
    let mut r: Vec<String> = Vec::new();
    let mut i: usize = 0;
    proof {
        assert(orig.take(0) =~= r@);
    }
    while i < names.len()
        invariant
            names@ == orig,
            i <= orig.len(),
            names_sorted(r@),
            r@.to_multiset() == orig.take(i as int).to_multiset(),
        decreases orig.len() - i,
    {
        let n = names[i].clone();
        let p = insertion_point(&r, &n);
        let ghost before = r@;
        r.insert(p, n);
        proof {
            assert(orig.take(i + 1) =~= orig.take(i as int).push(orig[i as int]));
            assert(r@ == before.insert(p as int, n));
            vstd::seq_lib::to_multiset_insert(before, p as int, n);
            vstd::seq_lib::to_multiset_build(orig.take(i as int), orig[i as int]);
            assert forall|a: int, b: int| 0 <= a < b < r@.len() implies name_le(
                #[trigger] r@[a]@,
                #[trigger] r@[b]@,
            ) by {
                if a < p && p < b {
                    lemma_name_le_transitive(before[a]@, n@, before[b - 1]@);
                }
            }
        }
        i = i + 1;
    }
    proof {
        assert(orig.take(orig.len() as int) =~= orig);
    }
    *names = r;
}

} // verus!
