use vstd::prelude::*;

use crate::ledger::{count_ballots, unchanged, vote_step, Ledger};
use crate::records::{ErrorCode, VoterKey};

verus! {

/// In every poll of a well-formed store, the count of votes is the number of voters.
pub proof fn lemma_total_votes_match_voters(l: Ledger, poll_id: u64)
    requires
        l.wf(),
        l.has_poll(poll_id),
    ensures
        l.poll_of(poll_id).total_votes == l.poll_of(poll_id).voters@.len(),
{
    let i = choose|i: int| 0 <= i < l.polls@.len() && (#[trigger] l.polls@[i]).poll_id == poll_id;
    assert(l.polls@[i].wf());
}

/// In a well-formed store, a candidate's count of votes is the number of accepted votes
/// that named it.
pub proof fn lemma_tally_counts_accepted_votes(l: Ledger, poll_id: u64, name: Seq<char>)
    requires
        l.wf(),
        l.has_candidate(poll_id, name),
    ensures
        l.candidate_of(poll_id, name).candidate_votes == count_ballots(l.ballots@, poll_id, name),
{
    let k = choose|k: int| #[trigger] l.is_candidate_at(k, poll_id, name);
    assert(l.is_candidate_at(k, poll_id, name));
}

/// One vote call adds one to the tally of the candidate it names when it is accepted,
/// and changes no other tally; every candidate stays registered.
pub proof fn lemma_vote_changes_one_tally(
    l0: Ledger,
    l1: Ledger,
    poll_id: u64,
    name: Seq<char>,
    voter: VoterKey,
    now: u64,
    r: Result<(), ErrorCode>,
    other_poll: u64,
    other_name: Seq<char>,
)
    requires
        l0.wf(),
        l1.wf(),
        vote_step(l0, l1, poll_id, name, voter, now, r),
        l0.has_candidate(other_poll, other_name),
    ensures
        l1.has_candidate(other_poll, other_name),
        l1.candidate_of(other_poll, other_name).candidate_votes == l0.candidate_of(
            other_poll,
            other_name,
        ).candidate_votes + if r is Ok && other_poll == poll_id && other_name == name {
            1int
        } else {
            0int
        },
{
    let k = choose|k: int| #[trigger] l0.is_candidate_at(k, other_poll, other_name);
    assert(l0.is_candidate_at(k, other_poll, other_name));
    if r is Ok {
        assert(l1.candidates@[k].poll_id == l0.candidates@[k].poll_id);
    }
    assert(l1.is_candidate_at(k, other_poll, other_name));
    lemma_tally_counts_accepted_votes(l0, other_poll, other_name);
    lemma_tally_counts_accepted_votes(l1, other_poll, other_name);
    if r is Ok {
        assert(l1.ballots@.drop_last() =~= l0.ballots@);
    }
}

/// No participant is among a poll's voters twice.
pub proof fn lemma_voters_distinct(l: Ledger, poll_id: u64)
    requires
        l.wf(),
        l.has_poll(poll_id),
    ensures
        l.poll_of(poll_id).voters@.no_duplicates(),
{
    let i = choose|i: int| 0 <= i < l.polls@.len() && (#[trigger] l.polls@[i]).poll_id == poll_id;
    assert(l.polls@[i].wf());
}

/// A vote by a participant who has not voted in the poll, for a candidate of the poll,
/// is refused with `OutsideVotingWindow` exactly when it comes before the start or
/// after the end, and accepted exactly when it comes between them, both included.
pub proof fn lemma_vote_window(l: Ledger, poll_id: u64, name: Seq<char>, voter: VoterKey, now: u64)
    requires
        l.has_poll(poll_id),
        l.has_candidate(poll_id, name),
        !l.poll_of(poll_id).voters@.contains(voter),
    ensures
        l.vote_outcome(poll_id, name, voter, now) == Err::<(), ErrorCode>(
            ErrorCode::OutsideVotingWindow,
        ) <==> (now < l.poll_of(poll_id).poll_start || now > l.poll_of(poll_id).poll_end),
        l.vote_outcome(poll_id, name, voter, now) is Ok <==> (l.poll_of(poll_id).poll_start <= now
            <= l.poll_of(poll_id).poll_end),
{
}

/// Creating a poll is refused with `InvalidWindow` when the end is zero or not after
/// the current time; an end one second after the current time is accepted for an id
/// that is free.
pub proof fn lemma_create_window(l: Ledger, poll_id: u64, poll_end: u64, now: u64)
    ensures
        poll_end == 0 ==> l.create_outcome(poll_id, poll_end, now) == Err::<(), ErrorCode>(
            ErrorCode::InvalidWindow,
        ),
        poll_end <= now ==> l.create_outcome(poll_id, poll_end, now) == Err::<(), ErrorCode>(
            ErrorCode::InvalidWindow,
        ),
        now < u64::MAX && !l.has_poll(poll_id) ==> l.create_outcome(
            poll_id,
            (now + 1) as u64,
            now,
        ) is Ok,
{
}

proof fn lemma_unchanged_same_outcome(
    l0: Ledger,
    l1: Ledger,
    poll_id: u64,
    name: Seq<char>,
    voter: VoterKey,
    now: u64,
)
    requires
        l0.wf(),
        unchanged(l0, l1),
    ensures
        l1.vote_outcome(poll_id, name, voter, now) == l0.vote_outcome(poll_id, name, voter, now),
{
    if l0.has_poll(poll_id) {
        let i = choose|i: int|
            0 <= i < l0.polls@.len() && (#[trigger] l0.polls@[i]).poll_id == poll_id;
        assert(l1.polls@[i].poll_id == poll_id);
        let c = choose|c: int|
            0 <= c < l1.polls@.len() && (#[trigger] l1.polls@[c]).poll_id == poll_id;
        assert(l0.polls@[c].poll_id == poll_id);
        assert(l1.poll_of(poll_id) == l0.poll_of(poll_id));
    }
    if l1.has_poll(poll_id) {
        let i = choose|i: int|
            0 <= i < l1.polls@.len() && (#[trigger] l1.polls@[i]).poll_id == poll_id;
        assert(l0.polls@[i].poll_id == poll_id);
    }
    if l0.has_candidate(poll_id, name) {
        let k = choose|k: int| #[trigger] l0.is_candidate_at(k, poll_id, name);
        assert(l1.is_candidate_at(k, poll_id, name));
    }
    if l1.has_candidate(poll_id, name) {
        let k = choose|k: int| #[trigger] l1.is_candidate_at(k, poll_id, name);
        assert(l0.is_candidate_at(k, poll_id, name));
    }
}

/// A refused vote, made again with the same inputs, is refused in the same way, and
/// neither call changes the store.
pub proof fn lemma_failed_vote_repeats(
    l0: Ledger,
    l1: Ledger,
    l2: Ledger,
    poll_id: u64,
    name: Seq<char>,
    voter: VoterKey,
    now: u64,
    r1: Result<(), ErrorCode>,
    r2: Result<(), ErrorCode>,
)
    requires
        l0.wf(),
        vote_step(l0, l1, poll_id, name, voter, now, r1),
        r1 is Err,
        vote_step(l1, l2, poll_id, name, voter, now, r2),
    ensures
        r2 == r1,
        unchanged(l0, l1),
        unchanged(l1, l2),
        unchanged(l0, l2),
{
    lemma_unchanged_same_outcome(l0, l1, poll_id, name, voter, now);
}

} // verus!
