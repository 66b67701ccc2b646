//! Upserts of several callers that take turns at one store.
//!
//! An upsert is not one request but up to three, and between the requests of
//! one caller the store serves others. Here every request is one turn, the
//! turns of the callers come in any order, and the store carries out one
//! request at a time. What is shown is that callers who bring the same
//! candidate cannot, between them, report more than one change, and cannot
//! leave the store with two records for the candidate's key.

use vstd::prelude::*;

use crate::models::{Candidate, Record, Timestamp};
use crate::store::{
    after_status, holds, insert_outcome, inserted, is_position, lemma_inserted_well_formed,
    lemma_position_unique, lemma_replaced_well_formed, lookup, position, status_outcome,
    well_formed, DbFailure,
};
use crate::upsert::{
    after_upsert, settled, upsert_move, upsert_outcome, Move, Reply, UpsertRequest,
};

verus! {

/// The records after the store carried out a request of an upsert, and what
/// it answered.
pub open spec fn answered(
    s: Seq<Record>,
    asked: UpsertRequest,
    candidate: Candidate,
    now: Timestamp,
) -> (Seq<Record>, Reply) {
    match asked {
        UpsertRequest::UpdateStatus => (
            after_status(s, candidate.key(), candidate.status, now),
            Reply::Row(status_outcome(s, candidate.key(), candidate.status, now)),
        ),
        UpsertRequest::Find => (s, Reply::Row(lookup(s, candidate.key()))),
        UpsertRequest::Insert => match insert_outcome(s, candidate, now) {
            Ok(record) => (inserted(s, record), Reply::Row(Some(record))),
            Err(e) => (s, Reply::Failure(e)),
        },
    }
}

/// Where the upsert of one caller stands.
pub enum Progress {
    /// The caller is about to send the request.
    Asking(UpsertRequest),
    /// The upsert has ended with this result.
    Ended(Result<Option<Record>, DbFailure>),
}

impl Progress {
    /// The upsert has ended and reported a change.
    pub open spec fn changed(self) -> bool {
        self matches Progress::Ended(Ok(Some(_)))
    }

    /// The upsert has ended without a failure.
    pub open spec fn succeeded(self) -> bool {
        self matches Progress::Ended(Ok(_))
    }
}

/// One turn of a caller: the store carries out the request that the caller
/// is about to send, and the upsert decides how to go on. A caller whose
/// upsert has ended does nothing.
pub open spec fn turn(
    s: Seq<Record>,
    progress: Progress,
    candidate: Candidate,
    now: Timestamp,
) -> (Seq<Record>, Progress) {
    match progress {
        Progress::Asking(asked) => {
            let (after, reply) = answered(s, asked, candidate, now);
            match upsert_move(asked, reply) {
                Move::Ask(next) => (after, Progress::Asking(next)),
                Move::Finish(result) => (after, Progress::Ended(result)),
            }
        },
        Progress::Ended(_) => (s, progress),
    }
}

/// The records and the callers after the turns of a schedule. An entry of the
/// schedule names the caller whose turn it is and the time of the turn.
pub open spec fn after_turns(
    s: Seq<Record>,
    callers: Seq<Progress>,
    candidate: Candidate,
    schedule: Seq<(int, Timestamp)>,
) -> (Seq<Record>, Seq<Progress>)
    decreases schedule.len(),
{
    if schedule.len() == 0 {
        (s, callers)
    } else {
        let (before, standing) = after_turns(s, callers, candidate, schedule.drop_last());
        let (who, now) = schedule.last();
        if 0 <= who < standing.len() {
            let (after, progress) = turn(before, standing[who], candidate, now);
            (after, standing.update(who, progress))
        } else {
            (before, standing)
        }
    }
}

/// What holds of callers with one candidate at every moment: the store is
/// well-formed; a caller has reported a change, or ended without failure, or
/// is past its first request, only if the store has nothing more to take
/// from the candidate or, for the last of these, does not hold the key; and
/// no two callers have reported a change.
pub open spec fn in_step(s: Seq<Record>, callers: Seq<Progress>, candidate: Candidate) -> bool {
    &&& well_formed(s)
    &&& forall|i: int|
        0 <= i < callers.len() && (#[trigger] callers[i]).succeeded() ==> settled(s, candidate)
    &&& forall|i: int|
        0 <= i < callers.len() && #[trigger] callers[i] is Asking && callers[i]
            != Progress::Asking(UpsertRequest::UpdateStatus) ==> settled(s, candidate) || !holds(
            s,
            candidate.key(),
        )
    &&& forall|i: int, j: int|
        0 <= i < j < callers.len() ==> !((#[trigger] callers[i]).changed()
            && (#[trigger] callers[j]).changed())
}

/// A turn at a store that has nothing to take from the candidate changes
/// nothing and reports no change.
pub proof fn lemma_turn_when_reflected(
    s: Seq<Record>,
    progress: Progress,
    candidate: Candidate,
    now: Timestamp,
)
    requires
        well_formed(s),
        settled(s, candidate),
    ensures
        turn(s, progress, candidate, now).0 == s,
        progress is Ended ==> turn(s, progress, candidate, now).1 == progress,
        progress is Asking ==> !turn(s, progress, candidate, now).1.changed(),
        progress is Asking ==> turn(s, progress, candidate, now).1 != Progress::Asking(
            UpsertRequest::UpdateStatus,
        ),
{
}

/// A turn at a store that has something to take from the candidate reports a
/// change only if it makes the store take it, and leaves the store
/// well-formed; a turn that changes nothing leaves a missing key missing.
pub proof fn lemma_turn_when_not_reflected(
    s: Seq<Record>,
    progress: Progress,
    candidate: Candidate,
    now: Timestamp,
)
    requires
        well_formed(s),
        !settled(s, candidate),
        progress is Asking,
        progress != Progress::Asking(UpsertRequest::UpdateStatus) ==> !holds(s, candidate.key()),
    ensures
        ({
            let (after, next) = turn(s, progress, candidate, now);
            &&& well_formed(after)
            &&& after == s || settled(after, candidate)
            &&& next.changed() ==> settled(after, candidate)
            &&& next.succeeded() ==> settled(after, candidate)
            &&& next is Asking ==> next != Progress::Asking(UpsertRequest::UpdateStatus)
                && after == s && !holds(s, candidate.key())
        }),
{
    let key = candidate.key();
    match progress {
        Progress::Asking(UpsertRequest::UpdateStatus) => {
            if holds(s, key) {
                let i = position(s, key);
                assert(is_position(s, key, i));
                lemma_replaced_well_formed(s, i, s[i].with_status(candidate.status, now));
            }
        },
        Progress::Asking(UpsertRequest::Find) => {},
        Progress::Asking(UpsertRequest::Insert) => {
            if s.len() < i64::MAX {
                lemma_inserted_well_formed(s, candidate.created((s.len() + 1) as i64, now));
            }
        },
        Progress::Ended(_) => {},
    }
}

/// One turn keeps the callers in step.
pub proof fn lemma_turn_keeps_in_step(
    s: Seq<Record>,
    callers: Seq<Progress>,
    candidate: Candidate,
    who: int,
    now: Timestamp,
)
    requires
        in_step(s, callers, candidate),
        0 <= who < callers.len(),
    ensures
        in_step(
            turn(s, callers[who], candidate, now).0,
            callers.update(who, turn(s, callers[who], candidate, now).1),
            candidate,
        ),
{
    let (after, next) = turn(s, callers[who], candidate, now);
    let standing = callers.update(who, next);
    if callers[who] is Ended {
        assert(standing =~= callers);
    } else if settled(s, candidate) {
        lemma_turn_when_reflected(s, callers[who], candidate, now);
        assert forall|i: int, j: int| 0 <= i < j < standing.len() implies !((
        #[trigger] standing[i]).changed() && (#[trigger] standing[j]).changed()) by {
            assert(!(callers[i].changed() && callers[j].changed()));
        }
        assert forall|i: int|
            0 <= i < standing.len() && #[trigger] standing[i] is Asking && standing[i]
                != Progress::Asking(UpsertRequest::UpdateStatus) implies settled(after, candidate)
            || !holds(after, candidate.key()) by {}
    } else {
        assert forall|i: int| 0 <= i < callers.len() implies !(#[trigger] callers[i]).succeeded() by {}
        lemma_turn_when_not_reflected(s, callers[who], candidate, now);
        assert forall|i: int|
            0 <= i < standing.len() && (#[trigger] standing[i]).succeeded() implies settled(
            after,
            candidate,
        ) by {
            if i != who {
                assert(!callers[i].succeeded());
            }
        }
        assert forall|i: int, j: int| 0 <= i < j < standing.len() implies !((
        #[trigger] standing[i]).changed() && (#[trigger] standing[j]).changed()) by {
            if i != who {
                assert(!callers[i].succeeded());
            }
            if j != who {
                assert(!callers[j].succeeded());
            }
        }
        assert forall|i: int|
            0 <= i < standing.len() && #[trigger] standing[i] is Asking && standing[i]
                != Progress::Asking(UpsertRequest::UpdateStatus) implies settled(after, candidate)
            || !holds(after, candidate.key()) by {
            if i != who && !settled(after, candidate) {
                assert(after == s);
                assert(callers[i] is Asking);
            }
        }
    }
}

/// However the turns of callers that upsert the same candidate are ordered,
/// the store stays well-formed, so that it never holds two records with one
/// key; at most one of the callers reports a change; and every caller that
/// has ended without failure leaves the store holding the record of the
/// candidate's key, with the candidate's status or with a terminal one.
pub proof fn lemma_racing_upserts_change_once(
    s: Seq<Record>,
    callers: Seq<Progress>,
    candidate: Candidate,
    schedule: Seq<(int, Timestamp)>,
)
    requires
        well_formed(s),
        forall|i: int|
            0 <= i < callers.len() ==> #[trigger] callers[i] == Progress::Asking(
                UpsertRequest::UpdateStatus,
            ),
    ensures
        ({
            let (after, standing) = after_turns(s, callers, candidate, schedule);
            &&& standing.len() == callers.len()
            &&& well_formed(after)
            &&& forall|i: int, j: int|
                0 <= i < j < standing.len() ==> !((#[trigger] standing[i]).changed()
                    && (#[trigger] standing[j]).changed())
            &&& forall|i: int|
                0 <= i < standing.len() && (#[trigger] standing[i]).succeeded() ==> settled(
                    after,
                    candidate,
                )
        }),
{
    lemma_turns_keep_in_step(s, callers, candidate, schedule);
}

proof fn lemma_turns_keep_in_step(
    s: Seq<Record>,
    callers: Seq<Progress>,
    candidate: Candidate,
    schedule: Seq<(int, Timestamp)>,
)
    requires
        in_step(s, callers, candidate),
    ensures
        in_step(
            after_turns(s, callers, candidate, schedule).0,
            after_turns(s, callers, candidate, schedule).1,
            candidate,
        ),
        after_turns(s, callers, candidate, schedule).1.len() == callers.len(),
    decreases schedule.len(),
{
    if schedule.len() > 0 {
        lemma_turns_keep_in_step(s, callers, candidate, schedule.drop_last());
        let (before, standing) = after_turns(s, callers, candidate, schedule.drop_last());
        let (who, now) = schedule.last();
        if 0 <= who < standing.len() {
            lemma_turn_keeps_in_step(before, standing, candidate, who, now);
        }
    }
}

/// An upsert ends with its third request at the latest, whatever the store
/// holds when each request arrives.
pub proof fn lemma_upsert_ends_in_three_turns(
    first: Seq<Record>,
    second: Seq<Record>,
    third: Seq<Record>,
    candidate: Candidate,
    now: Timestamp,
)
    ensures
        ({
            let one = turn(first, Progress::Asking(UpsertRequest::UpdateStatus), candidate, now).1;
            let two = turn(second, one, candidate, now).1;
            turn(third, two, candidate, now).1 is Ended
        }),
{
}

/// A caller that has the store to itself upserts in its turns what
/// `upsert_outcome` and `after_upsert` state.
pub proof fn lemma_turns_alone_are_an_upsert(s: Seq<Record>, candidate: Candidate, now: Timestamp)
    requires
        well_formed(s),
    ensures
        ({
            let (s1, one) = turn(s, Progress::Asking(UpsertRequest::UpdateStatus), candidate, now);
            let (s2, two) = turn(s1, one, candidate, now);
            let (s3, three) = turn(s2, two, candidate, now);
            s3 == after_upsert(s, candidate, now) && three == Progress::Ended(
                upsert_outcome(s, candidate, now),
            )
        }),
{
    let key = candidate.key();
    if holds(s, key) {
        let i = position(s, key);
        assert(is_position(s, key, i));
        lemma_position_unique(s, key, i);
        if s[i].status != candidate.status {
            lemma_replaced_well_formed(s, i, s[i].with_status(candidate.status, now));
        }
    }
}

} // verus!
