//! The decisions of the remote table's protocol: what each outcome of a
//! table request means for the increment-or-create sequence, how rows
//! become records, and the ranking of rows.
//!
//! The table requests themselves are sent outside the library. The one
//! non-trivial control flow of the whole system lives here: an increment
//! first attempts the table's own atomic "add one to the row's count";
//! only the distinguishable "no such row" failure falls back to inserting
//! a brand-new row with a count of one, and every other failure is
//! surfaced unchanged.

use vstd::prelude::*;
use vstd::string::StringExecFns;
use crate::errors::{ErrorKind, StrikeError};
use crate::text::{all_digits, dec_value, parse_count, str_eq, valid_count};

verus! {

/// One row of the strikes table: a user and the strikes held against it.
#[derive(Debug, Clone, PartialEq, Eq)]
pub struct StrikeEntity {
    pub user_id: String,
    pub strikes: u8,
}

/// What the conditional "add one to the row's count" request came back
/// with.
#[derive(Debug)]
pub enum UpdateOutcome {
    /// The row existed and was updated; the string is the numeric field
    /// the table returned, written in decimal as the table writes numbers.
    Updated(String),
    /// The request failed; the service may have named an error code.
    Failed { code: Option<String>, message: String },
}

/// The next step of the increment-or-create sequence.
#[derive(Debug)]
pub enum IncrementStep {
    /// The row was updated: the increment is done with this count.
    Done(u8),
    /// The row does not exist yet: insert it with a count of one.
    InsertNew,
    /// The increment failed; the failure is surfaced unchanged.
    Fail(StrikeError),
}

/// Decide the next step from the outcome of the conditional update. The
/// one failure that is recovered, and never surfaced, is the service's
/// "no such row" validation code, which sends the sequence to the insert
/// step; any other failure is surfaced unchanged, and an updated count
/// that is not the writing of a count is a serialization error.
pub fn increment_step(outcome: UpdateOutcome) -> (r: IncrementStep)
    ensures
        outcome matches UpdateOutcome::Updated(ns) ==> (if valid_count(ns@) {
            r matches IncrementStep::Done(c) && c == dec_value(ns@)
        } else {
            r matches IncrementStep::Fail(e) && e.kind == ErrorKind::Serialization
        }),
        outcome matches UpdateOutcome::Failed { code, message } ==> (if (code matches Some(cc)
            && cc@ == "ValidationException"@) {
            r is InsertNew
        } else {
            r matches IncrementStep::Fail(e) && e.kind == ErrorKind::Transport && e.message
                == message
        }),
{
    match outcome {
        UpdateOutcome::Updated(ns) => match parse_count(ns.as_str()) {
            Some(c) => IncrementStep::Done(c),
            None => IncrementStep::Fail(
                StrikeError::serialization(
                    String::from_str("the updated row's count is not a strike count"),
                ),
            ),
        },
        UpdateOutcome::Failed { code, message } => {
            let no_such_row = match &code {
                Some(cc) => str_eq(cc.as_str(), "ValidationException"),
                None => false,
            };
            if no_such_row {
                IncrementStep::InsertNew
            } else {
                IncrementStep::Fail(StrikeError::transport(message))
            }
        },
    }
}

/// Conclude the insert step: a brand-new row was created with one strike,
/// so the increment returns one; the insert's own failure is surfaced
/// unchanged.
pub fn insert_step(insert_error: Option<String>) -> (r: Result<u8, StrikeError>)
    ensures
        insert_error is None ==> (r matches Ok(c) && c == 1),
        insert_error matches Some(m) ==> (r matches Err(e) && e.kind == ErrorKind::Transport
            && e.message == m),
{
    match insert_error {
        None => Ok(1),
        Some(m) => Err(StrikeError::transport(m)),
    }
}

/// The count a row's numeric field holds. The field must be the writing
/// of a count; a full scan uses `entities_from_rows`, which checks first.
pub fn extract_strike_count(n: &str) -> (r: u8)
    requires
        valid_count(n@),
    ensures
        r == dec_value(n@),
{
    parse_count(n).unwrap()
}

/// The rows of a full table scan, each as a row record: the user's name
/// and its count read from the numeric field. One row whose count is not
/// the writing of a count makes the whole scan a serialization error.
pub fn entities_from_rows(rows: Vec<(String, String)>) -> (r: Result<Vec<StrikeEntity>, StrikeError>)
    ensures
        r is Ok <==> (forall|i: int| 0 <= i < rows@.len() ==> valid_count(rows@[i].1@)),
        r matches Ok(v) ==> v@.len() == rows@.len() && (forall|i: int|
            0 <= i < rows@.len() ==> v@[i].user_id == rows@[i].0 && v@[i].strikes == dec_value(
                rows@[i].1@,
            )),
        r matches Err(e) ==> e.kind == ErrorKind::Serialization,
{
    let mut out: Vec<StrikeEntity> = Vec::new();
    let mut k: usize = 0;
    while k < rows.len()
        invariant
            0 <= k <= rows@.len(),
            out@.len() == k,
            forall|i: int| 0 <= i < k ==> valid_count(rows@[i].1@),
            forall|i: int|
                0 <= i < k ==> out@[i].user_id == rows@[i].0 && out@[i].strikes == dec_value(
                    rows@[i].1@,
                ),
        decreases rows@.len() - k,
    {
        match parse_count(rows[k].1.as_str()) {
            Some(count) => {
                out.push(StrikeEntity { user_id: rows[k].0.clone(), strikes: count });
            },
            None => {
                return Err(
                    StrikeError::serialization(
                        String::from_str("a row's count is not a strike count"),
                    ),
                );
            },
        }
        k = k + 1;
    }
    Ok(out)
}

/// Rows ordered by strike count, highest first.
pub open spec fn sorted_desc_entities(s: Seq<StrikeEntity>) -> bool {
    forall|i: int, j: int| 0 <= i <= j < s.len() ==> s[i].strikes >= s[j].strikes
}

/// Whether a row carries the given count.
pub open spec fn entity_has_count(c: u8) -> spec_fn(StrikeEntity) -> bool {
    |e: StrikeEntity| e.strikes == c
}

/// The rows carrying a given count, in their sequence order.
pub open spec fn entities_with_count(s: Seq<StrikeEntity>, c: u8) -> Seq<StrikeEntity> {
    s.filter(entity_has_count(c))
}

/// Ranking of rows: a copy ordered by strike count, descending. The
/// tie-break is deterministic and part of the contract: among rows with
/// the same count, the one that appears first in the input comes first in
/// the result (the rows of each count come out exactly as they went in).
pub fn sort_strikes_desc(strikes: &Vec<StrikeEntity>) -> (r: Vec<StrikeEntity>)
    ensures
        sorted_desc_entities(r@),
        r@.to_multiset() == strikes@.to_multiset(),
        r@.len() == strikes@.len(),
        forall|c: u8| #[trigger] entities_with_count(r@, c) == entities_with_count(strikes@, c),
{
    broadcast use vstd::seq_lib::group_to_multiset_ensures;
    broadcast use vstd::multiset::group_multiset_axioms;

    let mut rest: Vec<StrikeEntity> = Vec::new();
    let mut k: usize = 0;
    while k < strikes.len()
        invariant
            0 <= k <= strikes@.len(),
            rest@ == strikes@.subrange(0, k as int),
        decreases strikes@.len() - k,
    {
        rest.push(StrikeEntity { user_id: strikes[k].user_id.clone(), strikes: strikes[k].strikes });
        proof {
            assert(rest@ =~= strikes@.subrange(0, k + 1));
        }
        k = k + 1;
    }
    proof {
        assert(rest@ =~= strikes@);
    }
    let mut out: Vec<StrikeEntity> = Vec::new();
    proof {
        vstd::assert_multisets_equal!(out@.to_multiset().add(rest@.to_multiset()), strikes@.to_multiset());
    }
    let ghost all = strikes@.to_multiset();
    let ghost all_rows = rest@;
    proof {
        assert forall|c: u8| #[trigger] entities_with_count(out@, c) + entities_with_count(
            rest@,
            c,
        ) == entities_with_count(all_rows, c) by {
            crate::seqs::lemma_filter_all_false(out@, entity_has_count(c));
            assert(entities_with_count(out@, c) + entities_with_count(rest@, c)
                =~= entities_with_count(all_rows, c));
        };
    }
    while rest.len() > 0
        invariant
            sorted_desc_entities(out@),
            out@.to_multiset().add(rest@.to_multiset()) == all,
            out@.len() + rest@.len() == all.len(),
            all_rows =~= strikes@,
            forall|i: int, j: int|
                0 <= i < out@.len() && 0 <= j < rest@.len() ==> out@[i].strikes
                    >= rest@[j].strikes,
            forall|c: u8| #[trigger] entities_with_count(out@, c) + entities_with_count(rest@, c)
                == entities_with_count(all_rows, c),
        decreases rest.len(),
    {
        let best = index_of_max_entity(&rest);
        let ghost old_out = out@;
        let ghost old_rest = rest@;
        let item = rest.remove(best);
        out.push(item);
        proof {
            let ghost picked = old_rest[best as int];
            assert(out@ == old_out.push(picked));
            assert(rest@ == old_rest.remove(best as int));
            vstd::seq_lib::to_multiset_build(old_out, picked);
            vstd::seq_lib::to_multiset_remove(old_rest, best as int);
            assert(out@.to_multiset() =~= old_out.to_multiset().insert(picked));
            assert(rest@.to_multiset() =~= old_rest.to_multiset().remove(picked));
            assert(old_rest.contains(picked));
            vstd::seq_lib::to_multiset_contains(old_rest, picked);
            assert(old_rest.to_multiset().count(picked) > 0);
            vstd::assert_multisets_equal!(out@.to_multiset().add(rest@.to_multiset()), all);
            assert forall|i: int, j: int|
                0 <= i < out@.len() && 0 <= j < rest@.len() implies out@[i].strikes
                >= rest@[j].strikes by {
                assert(rest@[j] == if j < best {
                    old_rest[j]
                } else {
                    old_rest[j + 1]
                });
            };
            let pre = old_rest.subrange(0, best as int);
            let mid = old_rest.subrange(best as int, old_rest.len() as int);
            assert forall|c: u8| #[trigger] entities_with_count(out@, c) + entities_with_count(
                rest@,
                c,
            ) == entities_with_count(all_rows, c) by {
                assert(entities_with_count(old_out, c) + entities_with_count(old_rest, c)
                    == entities_with_count(all_rows, c));
                assert(old_rest =~= pre + mid);
                assert(rest@ =~= pre + mid.drop_first());
                assert(mid =~= seq![picked] + mid.drop_first());
                assert(out@ =~= old_out + seq![picked]);
                Seq::<StrikeEntity>::filter_distributes_over_add(pre, mid, entity_has_count(c));
                Seq::<StrikeEntity>::filter_distributes_over_add(
                    pre,
                    mid.drop_first(),
                    entity_has_count(c),
                );
                Seq::<StrikeEntity>::filter_distributes_over_add(
                    seq![picked],
                    mid.drop_first(),
                    entity_has_count(c),
                );
                Seq::<StrikeEntity>::filter_distributes_over_add(
                    old_out,
                    seq![picked],
                    entity_has_count(c),
                );
                crate::seqs::lemma_filter_singleton(picked, entity_has_count(c));
                if c == picked.strikes {
                    assert forall|i: int| 0 <= i < pre.len() implies !(entity_has_count(c)(
                    pre[i],
                    )) by {
                        assert(pre[i] == old_rest[i]);
                    };
                    crate::seqs::lemma_filter_all_false(pre, entity_has_count(c));
                    assert(entities_with_count(out@, c) + entities_with_count(rest@, c)
                        =~= entities_with_count(all_rows, c));
                } else {
                    assert(entities_with_count(out@, c) + entities_with_count(rest@, c)
                        =~= entities_with_count(all_rows, c));
                }
            };
        }
    }
    proof {
        vstd::seq_lib::to_multiset_len(rest@);
        assert(rest@.to_multiset().len() == 0);
        vstd::assert_multisets_equal!(out@.to_multiset(), all);
        assert forall|c: u8| #[trigger] entities_with_count(out@, c) == entities_with_count(
            strikes@,
            c,
        ) by {
            crate::seqs::lemma_filter_all_false(rest@, entity_has_count(c));
            assert(entities_with_count(out@, c) =~= entities_with_count(out@, c)
                + entities_with_count(rest@, c));
            assert(entities_with_count(all_rows, c) == entities_with_count(strikes@, c));
        };
    }
    out
}

/// The index of the first row holding the largest strike count: every row
/// before it counts strictly less.
fn index_of_max_entity(v: &Vec<StrikeEntity>) -> (best: usize)
    requires
        v@.len() > 0,
    ensures
        0 <= best < v@.len(),
        forall|m: int| 0 <= m < v@.len() ==> v@[best as int].strikes >= v@[m].strikes,
        forall|m: int| 0 <= m < best ==> v@[best as int].strikes > v@[m].strikes,
{
    let mut best: usize = 0;
    let mut k: usize = 1;
    while k < v.len()
        invariant
            0 <= best < k <= v@.len(),
            forall|m: int| 0 <= m < k ==> v@[best as int].strikes >= v@[m].strikes,
            forall|m: int| 0 <= m < best ==> v@[best as int].strikes > v@[m].strikes,
        decreases v@.len() - k,
    {
        if v[k].strikes > v[best].strikes {
            best = k;
        }
        k = k + 1;
    }
    best
}

/// The keys of the rows a full clear deletes: every user of the scan, in
/// the scan's order. The deletes themselves are sent outside the library,
/// one per key; an interrupted clear leaves the remaining rows in place.
pub fn keys_to_delete(entities: &Vec<StrikeEntity>) -> (r: Vec<String>)
    ensures
        r@.len() == entities@.len(),
        forall|i: int| 0 <= i < entities@.len() ==> r@[i] == entities@[i].user_id,
{
    let mut out: Vec<String> = Vec::new();
    let mut k: usize = 0;
    while k < entities.len()
        invariant
            0 <= k <= entities@.len(),
            out@.len() == k,
            forall|i: int| 0 <= i < k ==> out@[i] == entities@[i].user_id,
        decreases entities@.len() - k,
    {
        out.push(entities[k].user_id.clone());
        k = k + 1;
    }
    out
}

} // verus!
