use voting::{record_vote, Candidate, ErrorCode, Poll, VoterKey, MAX_DESCRIPTION_LEN};

fn poll(start: u64, end: u64) -> Poll {
    match Poll::open(3, "p".to_string(), start, end, 0) {
        Ok(p) => p,
        Err(e) => panic!("{:?}", e),
    }
}

#[test]
fn voter_keys_compare_by_every_byte() {
    let mut bytes = [5u8; 32];
    let a = VoterKey::new(bytes);
    assert!(a.same_as(&VoterKey::new(bytes)));
    bytes[31] = 6;
    assert!(!a.same_as(&VoterKey::new(bytes)));
    bytes[31] = 5;
    bytes[0] = 0;
    assert!(!a.same_as(&VoterKey::new(bytes)));
}

#[test]
fn has_voted_finds_recorded_voter() {
    let mut p = poll(0, 10);
    let mut c = Candidate { candidate_name: "c".to_string(), candidate_votes: 0 };
    let k = VoterKey::new([1; 32]);
    assert!(!p.has_voted(&k));
    assert_eq!(record_vote(&mut p, &mut c, &k, 5), Ok(()));
    assert!(p.has_voted(&k));
    assert!(!p.has_voted(&VoterKey::new([2; 32])));
}

#[test]
fn record_vote_refuses_outside_window() {
    let mut p = poll(3, 10);
    let mut c = Candidate { candidate_name: "c".to_string(), candidate_votes: 0 };
    let k = VoterKey::new([1; 32]);
    assert_eq!(record_vote(&mut p, &mut c, &k, 2), Err(ErrorCode::OutsideVotingWindow));
    assert_eq!(record_vote(&mut p, &mut c, &k, 11), Err(ErrorCode::OutsideVotingWindow));
    assert_eq!(c.candidate_votes, 0);
    assert_eq!(p.total_votes, 0);
    assert!(p.voters.is_empty());
}

#[test]
fn add_candidate_returns_empty_tally() {
    let mut p = poll(0, 10);
    let c = p.add_candidate("Dana".to_string());
    assert_eq!(c.candidate_name, "Dana");
    assert_eq!(c.candidate_votes, 0);
    assert_eq!(p.candidate_amount, 1);
}

#[test]
fn open_refuses_invalid_window() {
    assert_eq!(Poll::open(1, String::new(), 0, 0, 0).err(), Some(ErrorCode::InvalidWindow));
    assert_eq!(Poll::open(1, String::new(), 0, 9, 9).err(), Some(ErrorCode::InvalidWindow));
    assert!(Poll::open(1, String::new(), 0, 10, 9).is_ok());
}

#[test]
fn is_well_formed_detects_bad_records() {
    let mut p = poll(0, 10);
    assert!(p.is_well_formed());
    p.total_votes = 1;
    assert!(!p.is_well_formed());
    p.voters.push(VoterKey::new([1; 32]));
    assert!(p.is_well_formed());
    p.voters.push(VoterKey::new([1; 32]));
    p.total_votes = 2;
    assert!(!p.is_well_formed());
    let mut q = poll(0, 10);
    q.description = "x".repeat(MAX_DESCRIPTION_LEN);
    assert!(q.is_well_formed());
    q.description = "x".repeat(MAX_DESCRIPTION_LEN + 1);
    assert!(!q.is_well_formed());
}
