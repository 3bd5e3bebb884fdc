//! The order of strings by their characters, and sorting a list of strings with
//! duplicates removed (`sort` followed by `dedup`).
use crate::desktop::texts_of;
use crate::text::{chars_of, str_eq};
use vstd::prelude::*;

verus! {

/// Whether `a` comes before `b`: at the first position where they differ `a` has
/// the smaller character, or `a` is a proper prefix of `b`. For UTF-8 strings this is
/// the order of their bytes, the order `String`'s `Ord` uses.
pub open spec fn text_lt(a: Seq<char>, b: Seq<char>) -> bool
    decreases a.len(),
{
    if a.len() == 0 {
        b.len() > 0
    } else if b.len() == 0 {
        false
    } else if a[0] != b[0] {
        a[0] < b[0]
    } else {
        text_lt(a.drop_first(), b.drop_first())
    }
}

/// `a` never comes before itself.
pub proof fn lemma_lt_irreflexive(a: Seq<char>)
    ensures
        !text_lt(a, a),
    decreases a.len(),
{
    if a.len() > 0 {
        lemma_lt_irreflexive(a.drop_first());
    }
}

/// Of two different strings one comes before the other.
pub proof fn lemma_lt_total(a: Seq<char>, b: Seq<char>)
    requires
        a != b,
    ensures
        text_lt(a, b) || text_lt(b, a),
    decreases a.len(),
{
    if a.len() > 0 && b.len() > 0 && a[0] == b[0] {
        if a.drop_first() == b.drop_first() {
            assert(a =~= seq![a[0]] + a.drop_first());
            assert(b =~= seq![b[0]] + b.drop_first());
        }
        lemma_lt_total(a.drop_first(), b.drop_first());
    } else if a.len() == 0 && b.len() == 0 {
        assert(a =~= b);
    }
}

/// The order is transitive.
pub proof fn lemma_lt_transitive(a: Seq<char>, b: Seq<char>, c: Seq<char>)
    requires
        text_lt(a, b),
        text_lt(b, c),
    ensures
        text_lt(a, c),
    decreases a.len(),
{
    if a.len() > 0 && b.len() > 0 && c.len() > 0 && a[0] == b[0] && b[0] == c[0] {
        lemma_lt_transitive(a.drop_first(), b.drop_first(), c.drop_first());
    }
}

/// The order is asymmetric.
pub proof fn lemma_lt_asymmetric(a: Seq<char>, b: Seq<char>)
    requires
        text_lt(a, b),
    ensures
        !text_lt(b, a),
    decreases a.len(),
{
    if a.len() > 0 && b.len() > 0 && a[0] == b[0] {
        lemma_lt_asymmetric(a.drop_first(), b.drop_first());
    }
}

/// Whether `a` comes before `b`.
pub fn text_less(a: &str, b: &str) -> (r: bool)
    ensures
        r == text_lt(a@, b@),
{
    let x = chars_of(a);
    let y = chars_of(b);
    let mut i: usize = 0;
    assert(a@.skip(0) =~= a@);
    assert(b@.skip(0) =~= b@);
    while i < x.len() && i < y.len() && x[i] == y[i]
        invariant
            x@ == a@,
            y@ == b@,
            i <= x@.len(),
            i <= y@.len(),
            text_lt(a@, b@) == text_lt(a@.skip(i as int), b@.skip(i as int)),
        decreases x@.len() - i,
    {
        proof {
            assert(a@.skip(i as int).drop_first() =~= a@.skip(i + 1));
            assert(b@.skip(i as int).drop_first() =~= b@.skip(i + 1));
        }
        i = i + 1;
    }
    if i == x.len() {
        i < y.len()
    } else if i == y.len() {
        false
    } else {
        x[i] < y[i]
    }
}

/// Whether the texts of `s` are strictly increasing.
pub open spec fn strictly_sorted(s: Seq<Seq<char>>) -> bool {
    forall|i: int, j: int| 0 <= i < j < s.len() ==> text_lt(#[trigger] s[i], #[trigger] s[j])
}

/// `v` sorted with repeated entries dropped: the result is strictly increasing and
/// holds exactly the texts that `v` holds.
pub fn sort_dedup(v: Vec<String>) -> (r: Vec<String>)
    ensures
        strictly_sorted(texts_of(r@)),
        texts_of(r@).to_set() == texts_of(v@).to_set(),
{
    let mut r: Vec<String> = Vec::new();
    let mut k: usize = 0;
    while k < v.len()
        invariant
            k <= v@.len(),
            strictly_sorted(texts_of(r@)),
            texts_of(r@).to_set() == texts_of(v@).take(k as int).to_set(),
        decreases v@.len() - k,
    {
        let x = v[k].clone();
        let ghost before = texts_of(r@);
        // the first position whose entry does not come before `x`
        let mut p: usize = 0;
        while p < r.len() && text_less(r[p].as_str(), x.as_str())
            invariant
                p <= r@.len(),
                r@.len() == before.len(),
                texts_of(r@) == before,
                forall|i: int| 0 <= i < p ==> text_lt(#[trigger] before[i], x@),
            decreases r@.len() - p,
        {
            p = p + 1;
        }
        let same = p < r.len() && str_eq(r[p].as_str(), x.as_str());
        proof {
            assert(texts_of(v@).take(k + 1) =~= texts_of(v@).take(k as int).push(x@));
            texts_of(v@).take(k as int).lemma_push_to_set_commute(x@);
        }
        if same {
            proof {
                assert(before[p as int] == x@);
                assert(before.to_set().contains(x@));
                assert(before.to_set().insert(x@) =~= before.to_set());
            }
        } else {
            proof {
                if p < before.len() {
                    lemma_lt_total(before[p as int], x@);
                    assert(!text_lt(before[p as int], x@));
                    assert(text_lt(x@, before[p as int]));
                }
            }
            r.insert(p, x);
            proof {
                let after = texts_of(r@);
                assert(after =~= before.insert(p as int, x@));
                assert forall|i: int, j: int| 0 <= i < j < after.len() implies text_lt(
                    #[trigger] after[i],
                    #[trigger] after[j],
                ) by {
                    if i < p && j < p {
                        assert(after[i] == before[i] && after[j] == before[j]);
                    } else if i < p && j == p {
                        assert(after[i] == before[i] && after[j] == x@);
                    } else if i < p && j > p {
                        assert(after[i] == before[i] && after[j] == before[j - 1]);
                        if j - 1 == p as int {
                            lemma_lt_transitive(before[i], x@, before[p as int]);
                        } else {
                            lemma_lt_transitive(before[i], x@, before[p as int]);
                            lemma_lt_transitive(before[i], before[p as int], before[j - 1]);
                        }
                    } else if i == p {
                        assert(after[i] == x@ && after[j] == before[j - 1]);
                        if j - 1 > p as int {
                            lemma_lt_transitive(x@, before[p as int], before[j - 1]);
                        }
                    } else {
                        assert(after[i] == before[i - 1] && after[j] == before[j - 1]);
                    }
                }
                assert(after.to_set() =~= before.to_set().insert(x@)) by {
                    assert forall|t: Seq<char>| after.to_set().contains(t) implies before.to_set().insert(x@).contains(
                        t,
                    ) by {
                        let i = choose|i: int| 0 <= i < after.len() && after[i] == t;
                        if i < p {
                            assert(before[i] == t);
                        } else if i > p {
                            assert(before[i - 1] == t);
                        }
                    }
                    assert forall|t: Seq<char>| before.to_set().insert(x@).contains(t) implies after.to_set().contains(
                        t,
                    ) by {
                        if t == x@ {
                            assert(after[p as int] == t);
                        } else {
                            let i = choose|i: int| 0 <= i < before.len() && before[i] == t;
                            if i < p {
                                assert(after[i] == t);
                            } else {
                                assert(after[i + 1] == t);
                            }
                        }
                    }
                }
            }
        }
        k = k + 1;
    }
    proof {
        assert(texts_of(v@).take(v@.len() as int) =~= texts_of(v@));
    }
    r
}

} // verus!
