use vstd::prelude::*;

use crate::records::{
    ballot_outcome, ballot_recorded, candidate_counted, is_new_poll, record_vote, valid_window,
    vote_tallied, Candidate, ErrorCode, Poll, VoterKey, MAX_CANDIDATE_NAME_LEN,
    MAX_DESCRIPTION_LEN,
};

verus! {

/// The records that opening a poll works on: the signer and the poll record to fill.
pub struct InitializePoll {
    pub signer: VoterKey,
    pub poll: Poll,
}

/// The records that registering a candidate works on: the signer, the poll, and the
/// candidate record to fill.
pub struct InitializeCandidate {
    pub signer: VoterKey,
    pub poll: Poll,
    pub candidate: Candidate,
}

/// The records that a vote works on: the voter, the poll and the chosen candidate.
pub struct Vote {
    pub signer: VoterKey,
    pub poll: Poll,
    pub candidate: Candidate,
}

/// Fills `ctx.poll` with a new poll that ends at `poll_end`, given the current time
/// `now`. Refused with `InvalidWindow`, and nothing written, when `poll_end` is zero
/// or not after `now`. The start is stored as given.
pub fn initialize_poll(
    ctx: &mut InitializePoll,
    poll_id: u64,
    description: String,
    poll_start: u64,
    poll_end: u64,
    now: u64,
) -> (r: Result<(), ErrorCode>)
    requires
        description@.len() <= MAX_DESCRIPTION_LEN,
    ensures
        r is Ok <==> valid_window(poll_end, now),
        r is Err ==> r == Err::<(), ErrorCode>(ErrorCode::InvalidWindow) && *final(ctx) == *old(
            ctx,
        ),
        r is Ok ==> final(ctx).poll.wf() && is_new_poll(
            final(ctx).poll,
            poll_id,
            description@,
            poll_start,
            poll_end,
        ) && final(ctx).signer == old(ctx).signer,
{
    match Poll::open(poll_id, description, poll_start, poll_end, now) {
        Ok(poll) => {
            ctx.poll = poll;
            Ok(())
        },
        Err(e) => Err(e),
    }
}

/// Fills `ctx.candidate` with a candidate named `candidate_name` and no votes, and
/// counts it in `ctx.poll`. The records come already resolved by `poll_id` and the
/// name, so no check is left to make here.
pub fn initialize_candidate(ctx: &mut InitializeCandidate, candidate_name: String, poll_id: u64) -> (r:
    Result<(), ErrorCode>)
    requires
        old(ctx).poll.candidate_amount < u64::MAX,
        candidate_name@.len() <= MAX_CANDIDATE_NAME_LEN,
    ensures
        r is Ok,
        candidate_counted(old(ctx).poll, final(ctx).poll),
        final(ctx).candidate.candidate_name@ == candidate_name@,
        final(ctx).candidate.candidate_votes == 0,
        final(ctx).signer == old(ctx).signer,
{
    ctx.candidate = ctx.poll.add_candidate(candidate_name);
    Ok(())
}

/// Casts the signer's vote for `ctx.candidate` in `ctx.poll` at time `now`. Refused
/// with `AlreadyVoted` when the signer is already among the poll's voters, else with
/// `OutsideVotingWindow` when `now` is before the poll's start or after its end; a
/// refused vote writes nothing. Otherwise the signer joins the voters and the
/// candidate's and the poll's counts go up by one. `candidate_name` and `poll_id` are
/// the keys by which the records were resolved.
pub fn vote(ctx: &mut Vote, candidate_name: String, poll_id: u64, now: u64) -> (r: Result<
    (),
    ErrorCode,
>)
    requires
        old(ctx).poll.wf(),
        old(ctx).poll.total_votes < u64::MAX,
        old(ctx).candidate.candidate_votes < u64::MAX,
    ensures
        r == ballot_outcome(old(ctx).poll, old(ctx).signer, now),
        r is Ok ==> ballot_recorded(old(ctx).poll, final(ctx).poll, old(ctx).signer)
            && vote_tallied(old(ctx).candidate, final(ctx).candidate) && final(ctx).signer == old(
            ctx,
        ).signer,
        r is Err ==> *final(ctx) == *old(ctx),
        final(ctx).poll.wf(),
{
    let signer = ctx.signer;
    record_vote(&mut ctx.poll, &mut ctx.candidate, &signer, now)
}

} // verus!
