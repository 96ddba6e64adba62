use vstd::prelude::*;

use crate::records::{
    ballot_outcome, ballot_recorded, candidate_counted, is_new_poll, record_vote, valid_window,
    vote_tallied, Candidate, ErrorCode, Poll, VoterKey, MAX_CANDIDATE_NAME_LEN,
    MAX_DESCRIPTION_LEN,
};

verus! {

/// A candidate record, addressed by its poll's id and its own name.
#[derive(Clone, Debug)]
pub struct CandidateEntry {
    pub poll_id: u64,
    pub candidate: Candidate,
}

/// A store of polls and candidates. `ballots` records, in order, each vote that was
/// accepted: the poll, the candidate's name and the voter.
pub struct Ledger {
    pub polls: Vec<Poll>,
    pub candidates: Vec<CandidateEntry>,
    pub ballots: Ghost<Seq<(u64, Seq<char>, VoterKey)>>,
}

/// How many of `ballots` went to the candidate `name` of poll `poll_id`.
pub open spec fn count_ballots(
    ballots: Seq<(u64, Seq<char>, VoterKey)>,
    poll_id: u64,
    name: Seq<char>,
) -> nat
    decreases ballots.len(),
{
    if ballots.len() == 0 {
        0
    } else {
        count_ballots(ballots.drop_last(), poll_id, name) + if ballots.last().0 == poll_id
            && ballots.last().1 == name {
            1nat
        } else {
            0nat
        }
    }
}

/// How many of `ids` equal `poll_id`.
pub open spec fn count_id(ids: Seq<u64>, poll_id: u64) -> nat
    decreases ids.len(),
{
    if ids.len() == 0 {
        0
    } else {
        count_id(ids.drop_last(), poll_id) + if ids.last() == poll_id {
            1nat
        } else {
            0nat
        }
    }
}

proof fn lemma_count_ballots_push(
    s: Seq<(u64, Seq<char>, VoterKey)>,
    b: (u64, Seq<char>, VoterKey),
    poll_id: u64,
    name: Seq<char>,
)
    ensures
        count_ballots(s.push(b), poll_id, name) == count_ballots(s, poll_id, name) + if b.0
            == poll_id && b.1 == name {
            1nat
        } else {
            0nat
        },
{
    assert(s.push(b).drop_last() =~= s);
}

proof fn lemma_count_ballots_none(s: Seq<(u64, Seq<char>, VoterKey)>, poll_id: u64, name: Seq<char>)
    requires
        forall|k: int| 0 <= k < s.len() ==> !(s[k].0 == poll_id && s[k].1 == name),
    ensures
        count_ballots(s, poll_id, name) == 0,
    decreases s.len(),
{
    if s.len() > 0 {
        lemma_count_ballots_none(s.drop_last(), poll_id, name);
    }
}

proof fn lemma_count_id_push(s: Seq<u64>, x: u64, poll_id: u64)
    ensures
        count_id(s.push(x), poll_id) == count_id(s, poll_id) + if x == poll_id {
            1nat
        } else {
            0nat
        },
{
    assert(s.push(x).drop_last() =~= s);
}

proof fn lemma_count_id_none(s: Seq<u64>, poll_id: u64)
    requires
        forall|k: int| 0 <= k < s.len() ==> s[k] != poll_id,
    ensures
        count_id(s, poll_id) == 0,
    decreases s.len(),
{
    if s.len() > 0 {
        lemma_count_id_none(s.drop_last(), poll_id);
    }
}

/// `post` is `pre` with a new poll of the given fields added last.
pub open spec fn poll_created(
    pre: Ledger,
    post: Ledger,
    poll_id: u64,
    description: Seq<char>,
    poll_start: u64,
    poll_end: u64,
) -> bool {
    &&& post.polls@.len() == pre.polls@.len() + 1
    &&& post.polls@.drop_last() == pre.polls@
    &&& is_new_poll(post.polls@.last(), poll_id, description, poll_start, poll_end)
    &&& post.candidates@ == pre.candidates@
    &&& post.ballots@ == pre.ballots@
}

/// `post` is `pre` with the candidate `name` of poll `poll_id` added last, with no
/// votes, and counted in its poll.
pub open spec fn candidate_registered(pre: Ledger, post: Ledger, poll_id: u64, name: Seq<char>) -> bool {
    &&& post.polls@.len() == pre.polls@.len()
    &&& forall|k: int|
        0 <= k < pre.polls@.len() ==> if pre.polls@[k].poll_id == poll_id {
            candidate_counted(pre.polls@[k], #[trigger] post.polls@[k])
        } else {
            post.polls@[k] == pre.polls@[k]
        }
    &&& post.candidates@.len() == pre.candidates@.len() + 1
    &&& post.candidates@.drop_last() == pre.candidates@
    &&& post.candidates@.last().poll_id == poll_id
    &&& post.candidates@.last().candidate.candidate_name@ == name
    &&& post.candidates@.last().candidate.candidate_votes == 0
    &&& post.ballots@ == pre.ballots@
}

/// `post` is `pre` with the vote of `voter` for the candidate `name` of poll `poll_id`
/// recorded: in the poll, in the candidate's tally and as the last ballot.
pub open spec fn vote_applied(
    pre: Ledger,
    post: Ledger,
    poll_id: u64,
    name: Seq<char>,
    voter: VoterKey,
) -> bool {
    &&& post.polls@.len() == pre.polls@.len()
    &&& forall|k: int|
        0 <= k < pre.polls@.len() ==> if pre.polls@[k].poll_id == poll_id {
            ballot_recorded(pre.polls@[k], #[trigger] post.polls@[k], voter)
        } else {
            post.polls@[k] == pre.polls@[k]
        }
    &&& post.candidates@.len() == pre.candidates@.len()
    &&& forall|k: int|
        0 <= k < pre.candidates@.len() ==> (#[trigger] post.candidates@[k]).poll_id
            == pre.candidates@[k].poll_id && if pre.candidates@[k].poll_id == poll_id
            && pre.candidates@[k].candidate.candidate_name@ == name {
            vote_tallied(pre.candidates@[k].candidate, post.candidates@[k].candidate)
        } else {
            post.candidates@[k] == pre.candidates@[k]
        }
    &&& post.ballots@ == pre.ballots@.push((poll_id, name, voter))
}

/// `post` holds the same polls, candidates and ballots as `pre`.
pub open spec fn unchanged(pre: Ledger, post: Ledger) -> bool {
    &&& post.polls@ == pre.polls@
    &&& post.candidates@ == pre.candidates@
    &&& post.ballots@ == pre.ballots@
}

/// One vote call on `pre` that returned `r` and left `post`.
pub open spec fn vote_step(
    pre: Ledger,
    post: Ledger,
    poll_id: u64,
    name: Seq<char>,
    voter: VoterKey,
    now: u64,
    r: Result<(), ErrorCode>,
) -> bool {
    &&& r == pre.vote_outcome(poll_id, name, voter, now)
    &&& r is Ok ==> vote_applied(pre, post, poll_id, name, voter)
    &&& r is Err ==> unchanged(pre, post)
}

impl Ledger {
    pub open spec fn has_poll(self, poll_id: u64) -> bool {
        exists|i: int| 0 <= i < self.polls@.len() && (#[trigger] self.polls@[i]).poll_id == poll_id
    }

    /// The poll of id `poll_id`, where there is one.
    pub open spec fn poll_of(self, poll_id: u64) -> Poll {
        self.polls@[choose|i: int|
            0 <= i < self.polls@.len() && (#[trigger] self.polls@[i]).poll_id == poll_id]
    }

    pub open spec fn is_candidate_at(self, k: int, poll_id: u64, name: Seq<char>) -> bool {
        &&& 0 <= k < self.candidates@.len()
        &&& self.candidates@[k].poll_id == poll_id
        &&& self.candidates@[k].candidate.candidate_name@ == name
    }

    pub open spec fn has_candidate(self, poll_id: u64, name: Seq<char>) -> bool {
        exists|k: int| #[trigger] self.is_candidate_at(k, poll_id, name)
    }

    /// The candidate `name` of poll `poll_id`, where there is one.
    pub open spec fn candidate_of(self, poll_id: u64, name: Seq<char>) -> Candidate {
        self.candidates@[choose|k: int| #[trigger] self.is_candidate_at(k, poll_id, name)].candidate
    }

    /// The poll ids of the candidate records, in order.
    pub open spec fn candidate_poll_ids(self) -> Seq<u64> {
        self.candidates@.map_values(|e: CandidateEntry| e.poll_id)
    }

    /// Every poll is well formed and has its own id; every candidate is well formed,
    /// belongs to a poll, has its own name within it, and has as many votes as the
    /// ballots that name it; every ballot names a candidate; each poll counts the
    /// candidates that belong to it.
    pub open spec fn wf(self) -> bool {
        &&& forall|i: int| 0 <= i < self.polls@.len() ==> (#[trigger] self.polls@[i]).wf()
        &&& forall|i: int, j: int|
            0 <= i < j < self.polls@.len() ==> (#[trigger] self.polls@[i]).poll_id
                != (#[trigger] self.polls@[j]).poll_id
        &&& forall|i: int|
            0 <= i < self.polls@.len() ==> (#[trigger] self.polls@[i]).candidate_amount
                == count_id(self.candidate_poll_ids(), self.polls@[i].poll_id)
        &&& forall|k: int|
            0 <= k < self.candidates@.len() ==> (#[trigger] self.candidates@[k]).candidate.wf()
                && self.has_poll(self.candidates@[k].poll_id)
        &&& forall|k: int, m: int|
            0 <= k < m < self.candidates@.len() ==> !((#[trigger] self.candidates@[k]).poll_id
                == (#[trigger] self.candidates@[m]).poll_id
                && self.candidates@[k].candidate.candidate_name@
                == self.candidates@[m].candidate.candidate_name@)
        &&& forall|k: int|
            0 <= k < self.candidates@.len() ==> (#[trigger] self.candidates@[k]).candidate.candidate_votes
                == count_ballots(
                self.ballots@,
                self.candidates@[k].poll_id,
                self.candidates@[k].candidate.candidate_name@,
            )
        &&& forall|b: int|
            0 <= b < self.ballots@.len() ==> self.has_candidate(
                (#[trigger] self.ballots@[b]).0,
                self.ballots@[b].1,
            )
    }

    /// No counter is at the largest value a `u64` holds, so each can go up by one.
    pub open spec fn counters_below_max(self) -> bool {
        &&& forall|i: int|
            0 <= i < self.polls@.len() ==> (#[trigger] self.polls@[i]).total_votes < u64::MAX
                && self.polls@[i].candidate_amount < u64::MAX
        &&& forall|k: int|
            0 <= k < self.candidates@.len() ==> (#[trigger] self.candidates@[k]).candidate.candidate_votes
                < u64::MAX
    }

    /// What creating poll `poll_id` ending at `poll_end` at time `now` comes to.
    pub open spec fn create_outcome(self, poll_id: u64, poll_end: u64, now: u64) -> Result<
        (),
        ErrorCode,
    > {
        if !valid_window(poll_end, now) {
            Err(ErrorCode::InvalidWindow)
        } else if self.has_poll(poll_id) {
            Err(ErrorCode::DuplicatePoll)
        } else {
            Ok(())
        }
    }

    /// What registering the candidate `name` of poll `poll_id` comes to.
    pub open spec fn register_outcome(self, poll_id: u64, name: Seq<char>) -> Result<(), ErrorCode> {
        if !self.has_poll(poll_id) {
            Err(ErrorCode::PollNotFound)
        } else if self.has_candidate(poll_id, name) {
            Err(ErrorCode::DuplicateCandidate)
        } else {
            Ok(())
        }
    }

    /// What a vote by `voter` at time `now` for the candidate `name` of poll `poll_id`
    /// comes to.
    pub open spec fn vote_outcome(self, poll_id: u64, name: Seq<char>, voter: VoterKey, now: u64) -> Result<
        (),
        ErrorCode,
    > {
        if !self.has_poll(poll_id) {
            Err(ErrorCode::PollNotFound)
        } else if !self.has_candidate(poll_id, name) {
            Err(ErrorCode::CandidateNotFound)
        } else {
            ballot_outcome(self.poll_of(poll_id), voter, now)
        }
    }

    /// An empty store.
    pub fn new() -> (l: Ledger)
        ensures
            l.wf(),
            l.polls@.len() == 0,
            l.candidates@.len() == 0,
            l.ballots@.len() == 0,
    {
        Ledger { polls: Vec::new(), candidates: Vec::new(), ballots: Ghost(Seq::empty()) }
    }

    fn find_poll(&self, poll_id: u64) -> (r: Option<usize>)
        requires
            self.wf(),
        ensures
            r is None <==> !self.has_poll(poll_id),
            r matches Some(i) ==> i < self.polls@.len() && self.polls@[i as int].poll_id == poll_id
                && self.polls@[i as int] == self.poll_of(poll_id),
    {
        let mut i: usize = 0;
        while i < self.polls.len()
            invariant
                self.wf(),
                i <= self.polls@.len(),
                forall|k: int| 0 <= k < i ==> (#[trigger] self.polls@[k]).poll_id != poll_id,
            decreases self.polls@.len() - i,
        {
            if self.polls[i].poll_id == poll_id {
                proof {
                    assert(self.polls@[i as int].poll_id == poll_id);
                    let c = choose|j: int|
                        0 <= j < self.polls@.len() && (#[trigger] self.polls@[j]).poll_id == poll_id;
                    assert(self.polls@[c].poll_id == poll_id);
                    assert(c == i as int);
                }
                return Some(i);
            }
            i += 1;
        }
        None
    }

    fn find_candidate(&self, poll_id: u64, candidate_name: &String) -> (r: Option<usize>)
        requires
            self.wf(),
        ensures
            r is None <==> !self.has_candidate(poll_id, candidate_name@),
            r matches Some(k) ==> self.is_candidate_at(k as int, poll_id, candidate_name@)
                && self.candidates@[k as int].candidate == self.candidate_of(
                poll_id,
                candidate_name@,
            ),
    {
        let mut k: usize = 0;
        while k < self.candidates.len()
            invariant
                self.wf(),
                k <= self.candidates@.len(),
                forall|m: int| 0 <= m < k ==> !#[trigger] self.is_candidate_at(m, poll_id, candidate_name@),
            decreases self.candidates@.len() - k,
        {
            if self.candidates[k].poll_id == poll_id && self.candidates[k].candidate.candidate_name
                == *candidate_name {
                proof {
                    assert(self.is_candidate_at(k as int, poll_id, candidate_name@));
                    let c = choose|m: int| #[trigger] self.is_candidate_at(m, poll_id, candidate_name@);
                    assert(self.is_candidate_at(c, poll_id, candidate_name@));
                    assert(self.candidates@[c].poll_id == self.candidates@[k as int].poll_id);
                    assert(c == k as int);
                }
                return Some(k);
            }
            k += 1;
        }
        None
    }

    /// The poll of id `poll_id`, or `None` where there is none.
    pub fn poll(&self, poll_id: u64) -> (r: Option<&Poll>)
        requires
            self.wf(),
        ensures
            r is Some <==> self.has_poll(poll_id),
            r matches Some(p) ==> *p == self.poll_of(poll_id),
    {
        match self.find_poll(poll_id) {
            Some(i) => Some(&self.polls[i]),
            None => None,
        }
    }

    /// The candidate `candidate_name` of poll `poll_id`, or `None` where there is none.
    pub fn candidate(&self, poll_id: u64, candidate_name: &String) -> (r: Option<&Candidate>)
        requires
            self.wf(),
        ensures
            r is Some <==> self.has_candidate(poll_id, candidate_name@),
            r matches Some(c) ==> *c == self.candidate_of(poll_id, candidate_name@),
    {
        match self.find_candidate(poll_id, candidate_name) {
            Some(k) => Some(&self.candidates[k].candidate),
            None => None,
        }
    }

    /// Creates the poll `poll_id`. Refused with `InvalidWindow` when `poll_end` is zero
    /// or not after `now`, else with `DuplicatePoll` when the id is taken; a refused
    /// call changes nothing.
    pub fn create_poll(
        &mut self,
        poll_id: u64,
        description: String,
        poll_start: u64,
        poll_end: u64,
        now: u64,
    ) -> (r: Result<(), ErrorCode>)
        requires
            old(self).wf(),
            description@.len() <= MAX_DESCRIPTION_LEN,
        ensures
            final(self).wf(),
            r == old(self).create_outcome(poll_id, poll_end, now),
            r is Ok ==> poll_created(
                *old(self),
                *final(self),
                poll_id,
                description@,
                poll_start,
                poll_end,
            ),
            r is Err ==> unchanged(*old(self), *final(self)),
    {
        let ghost pre = *self;
        let poll = match Poll::open(poll_id, description, poll_start, poll_end, now) {
            Ok(p) => p,
            Err(e) => {
                return Err(e);
            },
        };
        if self.find_poll(poll_id).is_some() {
            return Err(ErrorCode::DuplicatePoll);
        }
        self.polls.push(poll);
        proof {
            let post = *self;
            assert(post.polls@.drop_last() =~= pre.polls@);
            assert forall|i: int| 0 <= i < pre.polls@.len() implies post.polls@[i]
                == pre.polls@[i] by {}
            assert forall|x: u64| pre.has_poll(x) implies #[trigger] post.has_poll(x) by {
                let i = choose|i: int|
                    0 <= i < pre.polls@.len() && (#[trigger] pre.polls@[i]).poll_id == x;
                assert(post.polls@[i] == pre.polls@[i]);
            }
            assert forall|k: int| 0 <= k < pre.candidate_poll_ids().len() implies #[trigger] pre.candidate_poll_ids()[k]
                != poll_id by {
                assert(pre.has_poll(pre.candidates@[k].poll_id));
            }
            lemma_count_id_none(pre.candidate_poll_ids(), poll_id);
            assert forall|x: u64, name: Seq<char>| pre.has_candidate(x, name) implies #[trigger] post.has_candidate(
                x,
                name,
            ) by {
                let k = choose|k: int| #[trigger] pre.is_candidate_at(k, x, name);
                assert(post.is_candidate_at(k, x, name));
            }
        }
        Ok(())
    }

    /// Registers the candidate `candidate_name` of poll `poll_id` and counts it in the
    /// poll. Refused with `PollNotFound` when there is no such poll, else with
    /// `DuplicateCandidate` when the poll already has a candidate of that name; a
    /// refused call changes nothing.
    pub fn register_candidate(&mut self, poll_id: u64, candidate_name: String) -> (r: Result<
        (),
        ErrorCode,
    >)
        requires
            old(self).wf(),
            old(self).counters_below_max(),
            candidate_name@.len() <= MAX_CANDIDATE_NAME_LEN,
        ensures
            final(self).wf(),
            r == old(self).register_outcome(poll_id, candidate_name@),
            r is Ok ==> candidate_registered(*old(self), *final(self), poll_id, candidate_name@),
            r is Err ==> unchanged(*old(self), *final(self)),
    {
        let ghost pre = *self;
        let ghost name = candidate_name@;
        let i = match self.find_poll(poll_id) {
            Some(i) => i,
            None => {
                return Err(ErrorCode::PollNotFound);
            },
        };
        if self.find_candidate(poll_id, &candidate_name).is_some() {
            return Err(ErrorCode::DuplicateCandidate);
        }
        assert(pre.polls@[i as int].candidate_amount < u64::MAX);
        let candidate = self.polls[i].add_candidate(candidate_name);
        self.candidates.push(CandidateEntry { poll_id, candidate });
        proof {
            let post = *self;
            assert(post.candidates@.drop_last() =~= pre.candidates@);
            assert(post.candidate_poll_ids() =~= pre.candidate_poll_ids().push(poll_id));
            assert forall|k: int| 0 <= k < pre.polls@.len() && k != i implies post.polls@[k]
                == pre.polls@[k] by {}
            assert forall|k: int| 0 <= k < pre.polls@.len() implies #[trigger] post.polls@[k].poll_id
                == pre.polls@[k].poll_id by {}
            assert forall|x: u64| pre.has_poll(x) implies #[trigger] post.has_poll(x) by {
                let j = choose|j: int|
                    0 <= j < pre.polls@.len() && (#[trigger] pre.polls@[j]).poll_id == x;
                assert(post.polls@[j].poll_id == x);
            }
            assert forall|x: u64, nm: Seq<char>| pre.has_candidate(x, nm) implies #[trigger] post.has_candidate(
                x,
                nm,
            ) by {
                let k = choose|k: int| #[trigger] pre.is_candidate_at(k, x, nm);
                assert(post.is_candidate_at(k, x, nm));
            }
            assert(post.is_candidate_at(pre.candidates@.len() as int, poll_id, name));
            assert forall|j: int| 0 <= j < post.polls@.len() implies (#[trigger] post.polls@[j]).candidate_amount
                == count_id(post.candidate_poll_ids(), post.polls@[j].poll_id) by {
                lemma_count_id_push(pre.candidate_poll_ids(), poll_id, pre.polls@[j].poll_id);
                if j != i {
                    assert(pre.polls@[j].poll_id != pre.polls@[i as int].poll_id);
                }
            }
            assert forall|b: int| 0 <= b < pre.ballots@.len() implies !((#[trigger] pre.ballots@[b]).0
                == poll_id && pre.ballots@[b].1 == name) by {
                assert(pre.has_candidate(pre.ballots@[b].0, pre.ballots@[b].1));
            }
            lemma_count_ballots_none(pre.ballots@, poll_id, name);
            assert forall|k: int, m: int|
                0 <= k < m < post.candidates@.len() implies !((#[trigger] post.candidates@[k]).poll_id
                == (#[trigger] post.candidates@[m]).poll_id
                && post.candidates@[k].candidate.candidate_name@
                == post.candidates@[m].candidate.candidate_name@) by {
                if m == pre.candidates@.len() {
                    assert(!pre.is_candidate_at(k, poll_id, name));
                }
            }
            assert forall|k: int| 0 <= k < pre.polls@.len() && pre.polls@[k].poll_id
                == poll_id implies k == i by {
                if k != i {
                    assert(pre.polls@[k].poll_id != pre.polls@[i as int].poll_id);
                }
            }
        }
        Ok(())
    }

    /// Casts the vote of `voter` at time `now` for the candidate `candidate_name` of
    /// poll `poll_id`. Refused with `PollNotFound` or `CandidateNotFound` when the
    /// records do not exist, else with `AlreadyVoted` when the voter has voted in the
    /// poll, else with `OutsideVotingWindow` when `now` is before the poll's start or
    /// after its end; a refused call changes nothing. Otherwise the voter joins the
    /// poll's voters and the candidate's and the poll's counts go up by one.
    pub fn cast_vote(&mut self, poll_id: u64, candidate_name: &String, voter: &VoterKey, now: u64) -> (r:
        Result<(), ErrorCode>)
        requires
            old(self).wf(),
            old(self).counters_below_max(),
        ensures
            final(self).wf(),
            vote_step(*old(self), *final(self), poll_id, candidate_name@, *voter, now, r),
    {
        let ghost pre = *self;
        let ghost name = candidate_name@;
        let i = match self.find_poll(poll_id) {
            Some(i) => i,
            None => {
                return Err(ErrorCode::PollNotFound);
            },
        };
        let k = match self.find_candidate(poll_id, candidate_name) {
            Some(k) => k,
            None => {
                return Err(ErrorCode::CandidateNotFound);
            },
        };
        assert(pre.polls@[i as int].wf());
        assert(pre.candidates@[k as int].candidate.candidate_votes < u64::MAX);
        let r = record_vote(&mut self.polls[i], &mut self.candidates[k].candidate, voter, now);
        if r.is_ok() {
            self.ballots = Ghost(self.ballots@.push((poll_id, name, *voter)));
        }
        proof {
            let post = *self;
            if r is Err {
                assert(post.polls@ =~= pre.polls@);
                assert(post.candidates@ =~= pre.candidates@);
                assert forall|x: u64, nm: Seq<char>| pre.has_candidate(x, nm) implies #[trigger] post.has_candidate(
                    x,
                    nm,
                ) by {
                    let j = choose|j: int| #[trigger] pre.is_candidate_at(j, x, nm);
                    assert(post.is_candidate_at(j, x, nm));
                }
            } else {
                assert(post.candidate_poll_ids() =~= pre.candidate_poll_ids());
                assert forall|j: int| 0 <= j < pre.polls@.len() && j != i implies post.polls@[j]
                    == pre.polls@[j] by {}
                assert forall|j: int| 0 <= j < pre.candidates@.len() && j != k implies post.candidates@[j]
                    == pre.candidates@[j] by {}
                assert forall|j: int| 0 <= j < pre.polls@.len() implies #[trigger] post.polls@[j].poll_id
                    == pre.polls@[j].poll_id by {}
                assert forall|j: int| 0 <= j < pre.polls@.len() && pre.polls@[j].poll_id
                    == poll_id implies j == i by {
                    if j != i {
                        assert(pre.polls@[j].poll_id != pre.polls@[i as int].poll_id);
                    }
                }
                assert forall|j: int| #[trigger] pre.is_candidate_at(j, poll_id, name) implies j == k by {
                    if j != k {
                        assert(pre.candidates@[j].poll_id == pre.candidates@[k as int].poll_id);
                    }
                }
                assert forall|x: u64| pre.has_poll(x) implies #[trigger] post.has_poll(x) by {
                    let j = choose|j: int|
                        0 <= j < pre.polls@.len() && (#[trigger] pre.polls@[j]).poll_id == x;
                    assert(post.polls@[j].poll_id == x);
                }
                assert forall|x: u64, nm: Seq<char>| pre.has_candidate(x, nm) implies #[trigger] post.has_candidate(
                    x,
                    nm,
                ) by {
                    let j = choose|j: int| #[trigger] pre.is_candidate_at(j, x, nm);
                    assert(post.is_candidate_at(j, x, nm));
                }
                assert forall|j: int| 0 <= j < post.candidates@.len() implies (#[trigger] post.candidates@[j]).candidate.candidate_votes
                    == count_ballots(
                    post.ballots@,
                    post.candidates@[j].poll_id,
                    post.candidates@[j].candidate.candidate_name@,
                ) by {
                    lemma_count_ballots_push(
                        pre.ballots@,
                        (poll_id, name, *voter),
                        pre.candidates@[j].poll_id,
                        pre.candidates@[j].candidate.candidate_name@,
                    );
                    if j != k {
                        assert(!pre.is_candidate_at(j, poll_id, name));
                    }
                }
                assert forall|j: int| 0 <= j < pre.candidates@.len() implies (#[trigger] post.candidates@[j]).poll_id
                    == pre.candidates@[j].poll_id && post.candidates@[j].candidate.candidate_name@
                    == pre.candidates@[j].candidate.candidate_name@ by {}
                assert(post.is_candidate_at(k as int, poll_id, name));
                assert forall|b: int| 0 <= b < post.ballots@.len() implies post.has_candidate(
                    (#[trigger] post.ballots@[b]).0,
                    post.ballots@[b].1,
                ) by {
                    if b < pre.ballots@.len() {
                        assert(post.ballots@[b] == pre.ballots@[b]);
                        assert(pre.has_candidate(pre.ballots@[b].0, pre.ballots@[b].1));
                    }
                }
            }
        }
        r
    }
}

} // verus!
