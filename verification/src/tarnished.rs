//! The record type of the ledger, and the ranking of records.

use vstd::prelude::*;
use vstd::assert_multisets_equal;
use crate::ledger::{entries_map, names_unique, Ledger};
use crate::remote_client::StrikesResponse;

verus! {

/// One record of the ledger: a name and how many strikes it carries.
#[derive(Debug, Clone, PartialEq, Eq)]
pub struct Tarnished {
    pub name: String,
    pub strikes: u8,
}

/// Records ordered by strike count, highest first.
pub open spec fn sorted_desc(s: Seq<Tarnished>) -> bool {
    forall|i: int, j: int| 0 <= i <= j < s.len() ==> s[i].strikes >= s[j].strikes
}

/// Whether a record carries the given count.
pub open spec fn has_count(c: u8) -> spec_fn(Tarnished) -> bool {
    |t: Tarnished| t.strikes == c
}

/// The records carrying a given count, in their sequence order.
pub open spec fn with_count(s: Seq<Tarnished>, c: u8) -> Seq<Tarnished> {
    s.filter(has_count(c))
}

impl Tarnished {
    /// Ranking: a copy of the records ordered by strike count, descending.
    ///
    /// The tie-break is deterministic and part of the contract: among
    /// records with the same count, the one that appears first in the
    /// input comes first in the result (the records of each count come
    /// out exactly as they went in).
    pub fn sort_desc_by_strike(tarnished: Vec<Tarnished>) -> (r: Vec<Tarnished>)
        ensures
            sorted_desc(r@),
            r@.to_multiset() == tarnished@.to_multiset(),
            r@.len() == tarnished@.len(),
            forall|c: u8| #[trigger] with_count(r@, c) == with_count(tarnished@, c),
    {
        broadcast use vstd::seq_lib::group_to_multiset_ensures;
        broadcast use vstd::multiset::group_multiset_axioms;

        let mut rest = tarnished;
        let mut out: Vec<Tarnished> = Vec::new();
        proof {
            assert_multisets_equal!(out@.to_multiset().add(rest@.to_multiset()), rest@.to_multiset());
        }
        let ghost all = rest@.to_multiset();
        let ghost all_records = rest@;
        proof {
            assert forall|c: u8| #[trigger] with_count(out@, c) + with_count(rest@, c)
                == with_count(all_records, c) by {
                crate::seqs::lemma_filter_all_false(out@, has_count(c));
                assert(with_count(out@, c) + with_count(rest@, c) =~= with_count(all_records, c));
            };
        }
        while rest.len() > 0
            invariant
                sorted_desc(out@),
                out@.to_multiset().add(rest@.to_multiset()) == all,
                out@.len() + rest@.len() == all.len(),
                forall|i: int, j: int|
                    0 <= i < out@.len() && 0 <= j < rest@.len()
                        ==> out@[i].strikes >= rest@[j].strikes,
                forall|c: u8| #[trigger] with_count(out@, c) + with_count(rest@, c)
                    == with_count(all_records, c),
            decreases rest.len(),
        {
            let best = index_of_max(&rest);
            let ghost old_out = out@;
            let ghost old_rest = rest@;
            let item = rest.remove(best);
            out.push(item);
            proof {
                let ghost picked = old_rest[best as int];
                assert(out@ == old_out.push(picked));
                assert(rest@ == old_rest.remove(best as int));
                vstd::seq_lib::to_multiset_build(old_out, picked);
                vstd::seq_lib::to_multiset_remove(old_rest, best as int);
                assert(out@.to_multiset() =~= old_out.to_multiset().insert(picked));
                assert(rest@.to_multiset() =~= old_rest.to_multiset().remove(picked));
                assert(old_rest.contains(picked));
                vstd::seq_lib::to_multiset_contains(old_rest, picked);
                assert(old_rest.to_multiset().count(picked) > 0);
                assert_multisets_equal!(out@.to_multiset().add(rest@.to_multiset()), all);
                assert forall|i: int, j: int|
                    0 <= i < out@.len() && 0 <= j < rest@.len()
                        implies out@[i].strikes >= rest@[j].strikes by {
                    assert(rest@[j] == if j < best { old_rest[j] } else { old_rest[j + 1] });
                };
                let pre = old_rest.subrange(0, best as int);
                let mid = old_rest.subrange(best as int, old_rest.len() as int);
                assert forall|c: u8| #[trigger] with_count(out@, c) + with_count(rest@, c)
                    == with_count(all_records, c) by {
                    assert(with_count(old_out, c) + with_count(old_rest, c) == with_count(
                        all_records,
                        c,
                    ));
                    assert(old_rest =~= pre + mid);
                    assert(rest@ =~= pre + mid.drop_first());
                    assert(mid =~= seq![picked] + mid.drop_first());
                    assert(out@ =~= old_out + seq![picked]);
                    Seq::<Tarnished>::filter_distributes_over_add(pre, mid, has_count(c));
                    Seq::<Tarnished>::filter_distributes_over_add(
                        pre,
                        mid.drop_first(),
                        has_count(c),
                    );
                    Seq::<Tarnished>::filter_distributes_over_add(
                        seq![picked],
                        mid.drop_first(),
                        has_count(c),
                    );
                    Seq::<Tarnished>::filter_distributes_over_add(
                        old_out,
                        seq![picked],
                        has_count(c),
                    );
                    crate::seqs::lemma_filter_singleton(picked, has_count(c));
                    if c == picked.strikes {
                        assert forall|i: int| 0 <= i < pre.len() implies !(has_count(c)(
                        pre[i],
                        )) by {
                            assert(pre[i] == old_rest[i]);
                        };
                        crate::seqs::lemma_filter_all_false(pre, has_count(c));
                        assert(with_count(out@, c) + with_count(rest@, c) =~= with_count(
                            all_records,
                            c,
                        ));
                    } else {
                        assert(with_count(out@, c) + with_count(rest@, c) =~= with_count(
                            all_records,
                            c,
                        ));
                    }
                };
            }
        }
        proof {
            vstd::seq_lib::to_multiset_len(rest@);
            assert(rest@.to_multiset().len() == 0);
            assert_multisets_equal!(out@.to_multiset(), all);
            assert forall|c: u8| #[trigger] with_count(out@, c) == with_count(
                all_records,
                c,
            ) by {
                crate::seqs::lemma_filter_all_false(rest@, has_count(c));
                assert(with_count(out@, c) =~= with_count(out@, c) + with_count(rest@, c));
            };
        }
        out
    }

    /// The records of a ledger, one per name, unsorted.
    pub fn from_map(db: &Ledger) -> (r: Vec<Tarnished>)
        ensures
            r@ == db.records_seq(),
            names_unique(r@),
            entries_map(r@) == db@,
            r@.len() == 0 <==> db@ == Map::<Seq<char>, u8>::empty(),
    {
        db.records()
    }

    /// The records of a ledger, under the name an earlier client used.
    pub fn as_tarnished(db: &Ledger) -> (r: Vec<Tarnished>)
        ensures
            r@ == db.records_seq(),
            names_unique(r@),
            entries_map(r@) == db@,
            r@.len() == 0 <==> db@ == Map::<Seq<char>, u8>::empty(),
    {
        Tarnished::from_map(db)
    }

    /// The rows of a remote listing, each as a record, in the given order.
    pub fn from_vec(sr: Vec<StrikesResponse>) -> (r: Vec<Tarnished>)
        ensures
            r@.len() == sr@.len(),
            forall|i: int|
                0 <= i < sr@.len() ==> r@[i].name == sr@[i].name && r@[i].strikes
                    == sr@[i].strike_count,
    {
        let mut out: Vec<Tarnished> = Vec::new();
        let mut k: usize = 0;
        while k < sr.len()
            invariant
                0 <= k <= sr@.len(),
                out@.len() == k,
                forall|i: int|
                    0 <= i < k ==> out@[i].name == sr@[i].name && out@[i].strikes
                        == sr@[i].strike_count,
            decreases sr@.len() - k,
        {
            out.push(Tarnished { name: sr[k].name.clone(), strikes: sr[k].strike_count });
            k = k + 1;
        }
        out
    }
}

/// The index of the first record holding the largest strike count: every
/// record before it counts strictly less.
fn index_of_max(v: &Vec<Tarnished>) -> (best: usize)
    requires
        v@.len() > 0,
    ensures
        0 <= best < v@.len(),
        forall|m: int| 0 <= m < v@.len() ==> v@[best as int].strikes >= v@[m].strikes,
        forall|m: int| 0 <= m < best ==> v@[best as int].strikes > v@[m].strikes,
{
    let mut best: usize = 0;
    let mut k: usize = 1;
    while k < v.len()
        invariant
            0 <= best < k <= v@.len(),
            forall|m: int| 0 <= m < k ==> v@[best as int].strikes >= v@[m].strikes,
            forall|m: int| 0 <= m < best ==> v@[best as int].strikes > v@[m].strikes,
        decreases v@.len() - k,
    {
        if v[k].strikes > v[best].strikes {
            best = k;
        }
        k = k + 1;
    }
    best
}

} // verus!
