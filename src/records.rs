use vstd::prelude::*;

verus! {

/// Longest poll description that a poll record can hold, in characters.
pub const MAX_DESCRIPTION_LEN: usize = 200;

/// Longest candidate name that a candidate record can hold, in characters.
pub const MAX_CANDIDATE_NAME_LEN: usize = 32;

/// An authenticated participant: the 32 bytes of its public key.
#[derive(Clone, Copy, Debug, PartialEq, Eq)]
pub struct VoterKey {
    pub bytes: [u8; 32],
}

impl VoterKey {
    pub fn new(bytes: [u8; 32]) -> (k: VoterKey)
        ensures
            k.bytes == bytes,
    {
        VoterKey { bytes }
    }

    /// Whether two keys are the same participant.
    pub fn same_as(&self, other: &VoterKey) -> (r: bool)
        ensures
            r == (*self == *other),
    {
        let mut i: usize = 0;
        while i < 32
            invariant
                0 <= i <= 32,
                forall|k: int| 0 <= k < i ==> self.bytes[k] == other.bytes[k],
            decreases 32 - i,
        {
            if self.bytes[i] != other.bytes[i] {
                return false;
            }
            i += 1;
        }
        assert(self.bytes =~= other.bytes);
        true
    }
}

/// The ways in which an operation on polls, candidates and votes is refused.
#[derive(Clone, Copy, Debug, PartialEq, Eq, Structural)]
pub enum ErrorCode {
    /// The poll's end time is zero or not after the time of creation.
    InvalidWindow,
    /// A poll with this id already exists.
    DuplicatePoll,
    /// This poll already has a candidate of this name.
    DuplicateCandidate,
    /// No poll has this id.
    PollNotFound,
    /// The poll has no candidate of this name.
    CandidateNotFound,
    /// The participant has already voted in this poll.
    AlreadyVoted,
    /// The vote comes before the poll's start or after its end.
    OutsideVotingWindow,
}

/// A poll: its window, its counters and the participants who voted in it.
#[derive(Clone, Debug)]
pub struct Poll {
    pub poll_id: u64,
    pub description: String,
    pub poll_start: u64,
    pub poll_end: u64,
    pub candidate_amount: u64,
    pub total_votes: u64,
    pub voters: Vec<VoterKey>,
}

/// A candidate of one poll and the votes it has received.
#[derive(Clone, Debug)]
pub struct Candidate {
    pub candidate_name: String,
    pub candidate_votes: u64,
}

/// A poll may be created when its end is nonzero and after the current time.
pub open spec fn valid_window(poll_end: u64, now: u64) -> bool {
    poll_end != 0 && poll_end > now
}

/// A vote at `now` falls inside the poll's window, both ends included.
pub open spec fn within_window(poll: Poll, now: u64) -> bool {
    poll.poll_start <= now <= poll.poll_end
}

/// What a vote by `voter` at time `now` comes to on `poll`.
pub open spec fn ballot_outcome(poll: Poll, voter: VoterKey, now: u64) -> Result<(), ErrorCode> {
    if poll.voters@.contains(voter) {
        Err(ErrorCode::AlreadyVoted)
    } else if !within_window(poll, now) {
        Err(ErrorCode::OutsideVotingWindow)
    } else {
        Ok(())
    }
}

/// `p` is a newly opened poll with the given fields, no candidates and no votes.
pub open spec fn is_new_poll(
    p: Poll,
    poll_id: u64,
    description: Seq<char>,
    poll_start: u64,
    poll_end: u64,
) -> bool {
    &&& p.poll_id == poll_id
    &&& p.description@ == description
    &&& p.poll_start == poll_start
    &&& p.poll_end == poll_end
    &&& p.candidate_amount == 0
    &&& p.total_votes == 0
    &&& p.voters@ == Seq::<VoterKey>::empty()
}

/// `post` is `pre` with one more candidate counted.
pub open spec fn candidate_counted(pre: Poll, post: Poll) -> bool {
    &&& post.poll_id == pre.poll_id
    &&& post.description == pre.description
    &&& post.poll_start == pre.poll_start
    &&& post.poll_end == pre.poll_end
    &&& post.candidate_amount == pre.candidate_amount + 1
    &&& post.total_votes == pre.total_votes
    &&& post.voters == pre.voters
}

/// `post` is `pre` with the vote of `voter` recorded.
pub open spec fn ballot_recorded(pre: Poll, post: Poll, voter: VoterKey) -> bool {
    &&& post.poll_id == pre.poll_id
    &&& post.description == pre.description
    &&& post.poll_start == pre.poll_start
    &&& post.poll_end == pre.poll_end
    &&& post.candidate_amount == pre.candidate_amount
    &&& post.total_votes == pre.total_votes + 1
    &&& post.voters@ == pre.voters@.push(voter)
}

/// `post` is `pre` with one more vote.
pub open spec fn vote_tallied(pre: Candidate, post: Candidate) -> bool {
    &&& post.candidate_name == pre.candidate_name
    &&& post.candidate_votes == pre.candidate_votes + 1
}

impl Poll {
    /// The count of votes is the number of voters, and nobody is a voter twice.
    pub open spec fn wf(&self) -> bool {
        &&& self.total_votes == self.voters@.len()
        &&& self.voters@.no_duplicates()
        &&& self.description@.len() <= MAX_DESCRIPTION_LEN
    }

    /// Opens a poll, refusing an end time that is zero or not after `now`.
    pub fn open(poll_id: u64, description: String, poll_start: u64, poll_end: u64, now: u64) -> (r:
        Result<Poll, ErrorCode>)
        requires
            description@.len() <= MAX_DESCRIPTION_LEN,
        ensures
            r is Ok <==> valid_window(poll_end, now),
            r is Err ==> r == Err::<Poll, ErrorCode>(ErrorCode::InvalidWindow),
            r matches Ok(p) ==> p.wf() && is_new_poll(
                p,
                poll_id,
                description@,
                poll_start,
                poll_end,
            ),
    {
        if poll_end <= now {
            return Err(ErrorCode::InvalidWindow);
        }
        if poll_end == 0 {
            return Err(ErrorCode::InvalidWindow);
        }
        Ok(
            Poll {
                poll_id,
                description,
                poll_start,
                poll_end,
                candidate_amount: 0,
                total_votes: 0,
                voters: Vec::new(),
            },
        )
    }

    /// Whether this record is well formed, for records that come from outside.
    pub fn is_well_formed(&self) -> (r: bool)
        ensures
            r == self.wf(),
    {
        if self.voters.len() as u64 != self.total_votes {
            return false;
        }
        if self.description.as_str().unicode_len() > MAX_DESCRIPTION_LEN {
            return false;
        }
        let mut i: usize = 0;
        while i < self.voters.len()
            invariant
                i <= self.voters@.len(),
                forall|a: int, b: int|
                    0 <= a < b < i ==> self.voters@[a] != self.voters@[b],
            decreases self.voters@.len() - i,
        {
            let mut j: usize = 0;
            while j < i
                invariant
                    i < self.voters@.len(),
                    j <= i,
                    forall|a: int| 0 <= a < j ==> self.voters@[a] != self.voters@[i as int],
                decreases i - j,
            {
                if self.voters[j].same_as(&self.voters[i]) {
                    return false;
                }
                j += 1;
            }
            i += 1;
        }
        true
    }

    /// Whether `voter` has voted in this poll.
    pub fn has_voted(&self, voter: &VoterKey) -> (r: bool)
        ensures
            r == self.voters@.contains(*voter),
    {
        let mut i: usize = 0;
        while i < self.voters.len()
            invariant
                i <= self.voters@.len(),
                forall|k: int| 0 <= k < i ==> self.voters@[k] != *voter,
            decreases self.voters@.len() - i,
        {
            if self.voters[i].same_as(voter) {
                assert(self.voters@[i as int] == *voter);
                return true;
            }
            i += 1;
        }
        false
    }

    /// Counts one more candidate of this poll and returns its record, with no votes.
    pub fn add_candidate(&mut self, candidate_name: String) -> (c: Candidate)
        requires
            old(self).candidate_amount < u64::MAX,
            candidate_name@.len() <= MAX_CANDIDATE_NAME_LEN,
        ensures
            candidate_counted(*old(self), *final(self)),
            c.candidate_name@ == candidate_name@,
            c.candidate_votes == 0,
            c.wf(),
    {
        self.candidate_amount = self.candidate_amount + 1;
        Candidate { candidate_name, candidate_votes: 0 }
    }
}

impl Candidate {
    pub open spec fn wf(&self) -> bool {
        self.candidate_name@.len() <= MAX_CANDIDATE_NAME_LEN
    }
}

/// Applies a vote by `voter` at time `now` to `poll` and to `candidate`: a participant
/// who already voted in the poll is refused first, then a time outside the window.
/// On success the voter joins the poll's voters and both counters go up by one; on
/// failure neither record changes.
pub fn record_vote(poll: &mut Poll, candidate: &mut Candidate, voter: &VoterKey, now: u64) -> (r:
    Result<(), ErrorCode>)
    requires
        old(poll).wf(),
        old(poll).total_votes < u64::MAX,
        old(candidate).candidate_votes < u64::MAX,
    ensures
        r == ballot_outcome(*old(poll), *voter, now),
        r is Ok ==> ballot_recorded(*old(poll), *final(poll), *voter) && vote_tallied(
            *old(candidate),
            *final(candidate),
        ),
        r is Err ==> *final(poll) == *old(poll) && *final(candidate) == *old(candidate),
        final(poll).wf(),
{
    if poll.has_voted(voter) {
        return Err(ErrorCode::AlreadyVoted);
    }
    if now < poll.poll_start || now > poll.poll_end {
        return Err(ErrorCode::OutsideVotingWindow);
    }
    proof {
        assert forall|a: int, b: int|
            0 <= a < b < poll.voters@.push(*voter).len() implies poll.voters@.push(
            *voter,
        )[a] != poll.voters@.push(*voter)[b] by {
            if b == poll.voters@.len() {
                assert(poll.voters@[a] == poll.voters@.push(*voter)[a]);
            }
        }
    }
    poll.voters.push(*voter);
    candidate.candidate_votes = candidate.candidate_votes + 1;
    poll.total_votes = poll.total_votes + 1;
    Ok(())
}

} // verus!
