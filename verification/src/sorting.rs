//! Canonical ordering of a multi-value source: sorting byte strings into
//! descending lexicographic order, the drain order of a max-heap keyed by
//! value.

use vstd::prelude::*;
use vstd::relations::sorted_by;
use crate::bytes::{
    lemma_lex_geq_total_ordering, lemma_lex_total, lemma_lex_trans, lex_geq_order, lex_leq,
    lex_leq_bytes,
};

verus! {

broadcast use vstd::seq_lib::group_to_multiset_ensures;

/// Index of a maximum element of the non-empty `v`, in lexicographic order.
fn max_index(v: &Vec<Vec<u8>>) -> (best: usize)
    requires
        v@.len() > 0,
    ensures
        best < v@.len(),
        forall|j: int| 0 <= j < v@.len() ==> lex_leq(v.deep_view()[j], v.deep_view()[best as int]),
{
    let ghost dv = v.deep_view();
    proof {
        crate::bytes::lemma_lex_refl(dv[0]);
    }
    let mut best: usize = 0;
    let mut k: usize = 1;
    while k < v.len()
        invariant
            dv == v.deep_view(),
            dv.len() == v@.len(),
            best < k <= v@.len(),
            forall|j: int| 0 <= j < k ==> lex_leq(dv[j], dv[best as int]),
        decreases v@.len() - k,
    {
        proof {
            assert(dv[k as int] == v@[k as int]@);
            assert(dv[best as int] == v@[best as int]@);
        }
        if lex_leq_bytes(&v[best], &v[k]) {
            proof {
                assert forall|j: int| 0 <= j < k + 1 implies lex_leq(dv[j], dv[k as int]) by {
                    if j < k {
                        lemma_lex_trans(dv[j], dv[best as int], dv[k as int]);
                    } else {
                        crate::bytes::lemma_lex_refl(dv[j]);
                    }
                }
            }
            best = k;
        } else {
            proof {
                lemma_lex_total(dv[best as int], dv[k as int]);
            }
        }
        k += 1;
    }
    best
}

/// Sorts byte strings into descending lexicographic order by repeatedly
/// extracting a maximum: exactly the order in which a max-heap keyed by
/// value drains. The result holds the same multiset of values.
pub fn sort_descending(input: Vec<Vec<u8>>) -> (out: Vec<Vec<u8>>)
    ensures
        sorted_by(out.deep_view(), lex_geq_order()),
        out.deep_view().to_multiset() == input.deep_view().to_multiset(),
        out@.len() == input@.len(),
{
    let ghost goal = input.deep_view();
    let mut rest = input;
    let mut out: Vec<Vec<u8>> = Vec::new();
    proof {
        assert(out.deep_view() =~= Seq::<Seq<u8>>::empty());
        assert(out.deep_view().to_multiset().add(rest.deep_view().to_multiset()) =~= goal.to_multiset());
    }
    while rest.len() > 0
        invariant
            sorted_by(out.deep_view(), lex_geq_order()),
            out.deep_view().to_multiset().add(rest.deep_view().to_multiset())
                == goal.to_multiset(),
            out@.len() + rest@.len() == goal.len(),
            goal.len() == goal.to_multiset().len(),
            forall|i: int, j: int|
                0 <= i < out.deep_view().len() && 0 <= j < rest.deep_view().len() ==> lex_leq(
                    rest.deep_view()[j],
                    out.deep_view()[i],
                ),
        decreases rest@.len(),
    {
        let ghost old_rest = rest.deep_view();
        let ghost old_out = out.deep_view();
        let best = max_index(&rest);
        let m = rest.remove(best);
        proof {
            assert(rest.deep_view() =~= old_rest.remove(best as int));
            assert(m@ == old_rest[best as int]);
            assert(old_rest.remove(best as int).to_multiset() == old_rest.to_multiset().remove(
                m@,
            ));
            assert(old_rest.to_multiset().contains(m@));
        }
        out.push(m);
        proof {
            assert(out.deep_view() =~= old_out.push(m@));
            assert(out.deep_view().to_multiset() == old_out.to_multiset().insert(m@));
            // The extracted maximum follows everything already emitted and
            // precedes everything left, so the emitted prefix stays sorted.
            assert forall|i: int, j: int|
                0 <= i < j < out.deep_view().len() implies lex_geq_order()(
                out.deep_view()[i],
                out.deep_view()[j],
            ) by {
                if j < out.deep_view().len() - 1 {
                    assert(old_out[i] == out.deep_view()[i]);
                    assert(old_out[j] == out.deep_view()[j]);
                    assert(sorted_by(old_out, lex_geq_order()));
                } else {
                    assert(out.deep_view()[j] == m@);
                }
            }
            assert forall|i: int, j: int|
                0 <= i < out.deep_view().len() && 0 <= j < rest.deep_view().len() implies lex_leq(
                rest.deep_view()[j],
                out.deep_view()[i],
            ) by {
                let r = rest.deep_view()[j];
                if j < best {
                    assert(r == old_rest[j]);
                } else {
                    assert(r == old_rest[j + 1]);
                }
                if i < out.deep_view().len() - 1 {
                    lemma_lex_trans(r, m@, out.deep_view()[i]);
                }
            }
            // The multiset balance is preserved: moving one occurrence of
            // the maximum from the remainder to the output.
            assert(old_out.to_multiset().insert(m@).add(
                old_rest.to_multiset().remove(m@),
            ) =~= old_out.to_multiset().add(old_rest.to_multiset()));
        }
    }
    proof {
        assert(rest.deep_view() =~= Seq::<Seq<u8>>::empty());
        assert(out.deep_view().to_multiset().add(Seq::<Seq<u8>>::empty().to_multiset())
            =~= out.deep_view().to_multiset());
        assert(out@.len() == out.deep_view().len());
    }
    out
}

/// Descending sort agrees with the canonical specification-level sort: any
/// sorted arrangement of a multiset under a total order is unique.
pub proof fn lemma_sort_descending_canonical(s: Seq<Seq<u8>>, t: Seq<Seq<u8>>)
    requires
        sorted_by(t, lex_geq_order()),
        t.to_multiset() == s.to_multiset(),
    ensures
        t == s.sort_by(lex_geq_order()),
{
    lemma_lex_geq_total_ordering();
    s.lemma_sort_by_ensures(lex_geq_order());
    vstd::seq_lib::lemma_sorted_unique(t, s.sort_by(lex_geq_order()), lex_geq_order());
}

} // verus!
