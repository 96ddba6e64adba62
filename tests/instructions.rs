use voting::{
    initialize_candidate, initialize_poll, vote, Candidate, ErrorCode, InitializeCandidate,
    InitializePoll, Poll, Vote, VoterKey,
};

fn blank_poll() -> Poll {
    Poll {
        poll_id: 0,
        description: String::new(),
        poll_start: 0,
        poll_end: 0,
        candidate_amount: 0,
        total_votes: 0,
        voters: Vec::new(),
    }
}

fn blank_candidate() -> Candidate {
    Candidate { candidate_name: String::new(), candidate_votes: 0 }
}

#[test]
fn initialize_poll_fills_record() {
    let mut ctx = InitializePoll { signer: VoterKey::new([9; 32]), poll: blank_poll() };
    assert_eq!(initialize_poll(&mut ctx, 1, "test".to_string(), 0, 2000, 1000), Ok(()));
    assert_eq!(ctx.poll.poll_id, 1);
    assert_eq!(ctx.poll.description, "test");
    assert_eq!(ctx.poll.poll_start, 0);
    assert_eq!(ctx.poll.poll_end, 2000);
    assert_eq!(ctx.poll.candidate_amount, 0);
    assert_eq!(ctx.poll.total_votes, 0);
    assert!(ctx.poll.voters.is_empty());
}

#[test]
fn initialize_poll_rejects_past_end() {
    let mut ctx = InitializePoll { signer: VoterKey::new([9; 32]), poll: blank_poll() };
    assert_eq!(initialize_poll(&mut ctx, 1, "x".to_string(), 0, 1000, 1000), Err(ErrorCode::InvalidWindow));
    assert_eq!(initialize_poll(&mut ctx, 1, "x".to_string(), 0, 0, 0), Err(ErrorCode::InvalidWindow));
    assert_eq!(ctx.poll.poll_id, 0);
    assert_eq!(ctx.poll.description, "");
    assert_eq!(initialize_poll(&mut ctx, 1, "x".to_string(), 0, 1001, 1000), Ok(()));
}

#[test]
fn initialize_candidate_counts_candidate() {
    let mut poll = blank_poll();
    poll.candidate_amount = 4;
    let mut ctx = InitializeCandidate { signer: VoterKey::new([1; 32]), poll, candidate: blank_candidate() };
    assert_eq!(initialize_candidate(&mut ctx, "Alice".to_string(), 1), Ok(()));
    assert_eq!(ctx.candidate.candidate_name, "Alice");
    assert_eq!(ctx.candidate.candidate_votes, 0);
    assert_eq!(ctx.poll.candidate_amount, 5);
}

#[test]
fn vote_scenario_on_records() {
    let now: u64 = 5000;
    let mut init = InitializePoll { signer: VoterKey::new([7; 32]), poll: blank_poll() };
    assert_eq!(initialize_poll(&mut init, 1, "test".to_string(), 0, now + 1000, now), Ok(()));
    let mut reg = InitializeCandidate { signer: init.signer, poll: init.poll, candidate: blank_candidate() };
    assert_eq!(initialize_candidate(&mut reg, "Alice".to_string(), 1), Ok(()));
    assert_eq!(reg.poll.candidate_amount, 1);

    let voter_a = VoterKey::new([0xA; 32]);
    let voter_b = VoterKey::new([0xB; 32]);
    let mut ctx = Vote { signer: voter_a, poll: reg.poll, candidate: reg.candidate };
    assert_eq!(vote(&mut ctx, "Alice".to_string(), 1, now + 1), Ok(()));
    assert_eq!(ctx.candidate.candidate_votes, 1);
    assert_eq!(ctx.poll.total_votes, 1);
    assert_eq!(ctx.poll.voters, vec![voter_a]);

    assert_eq!(vote(&mut ctx, "Alice".to_string(), 1, now + 2), Err(ErrorCode::AlreadyVoted));
    ctx.signer = voter_b;
    assert_eq!(vote(&mut ctx, "Alice".to_string(), 1, now + 2000), Err(ErrorCode::OutsideVotingWindow));
    assert_eq!(ctx.candidate.candidate_votes, 1);
    assert_eq!(ctx.poll.total_votes, 1);
    assert_eq!(vote(&mut ctx, "Alice".to_string(), 1, now + 1000), Ok(()));
    assert_eq!(ctx.poll.voters, vec![voter_a, voter_b]);
    assert_eq!(ctx.candidate.candidate_votes, 2);
}
