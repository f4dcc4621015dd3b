use ballot_paper::BallotPaper;
use ballot_paper::VoteError;
use ballot_paper::dec_u16;
use ballot_paper::has_duplicate;
use ballot_paper::join_lines;

fn small_election() -> BallotPaper {
    BallotPaper::create(
        2020,
        "X".to_string(),
        vec!["A".to_string(), "B".to_string(), "C".to_string()],
    )
}

fn voter(b: u8) -> [u8; 32] {
    [b; 32]
}

#[test]
fn fresh_state_queries_show_zero_totals() {
    let paper = BallotPaper::init();
    assert_eq!(
        paper.get_candidates(),
        "AYIREBI, CECIL (LIBERAL)\nBUTLER, DIONE (REPUBLICAN)\nGARSIDE, CHARLES (LABOUR)\nKING, STUART (DEMOCRATIC)\nWHITWELL, FRANK (GREEN)"
    );
    assert_eq!(paper.get_vote_year(), "2020");
    assert_eq!(paper.get_location(), "NORTH HUDSON");
    assert_eq!(
        paper.get_vote_results(),
        "[{\"candidate\":\"AYIREBI, CECIL (LIBERAL)\",\"points\":0},{\"candidate\":\"BUTLER, DIONE (REPUBLICAN)\",\"points\":0},{\"candidate\":\"GARSIDE, CHARLES (LABOUR)\",\"points\":0},{\"candidate\":\"KING, STUART (DEMOCRATIC)\",\"points\":0},{\"candidate\":\"WHITWELL, FRANK (GREEN)\",\"points\":0}]"
    );
    for i in 0..paper.candidate_count() {
        assert_eq!(paper.total_of(i), 0);
    }
}

#[test]
fn queries_are_idempotent() {
    let mut paper = BallotPaper::init();
    assert_eq!(paper.send_vote(voter(9), vec![1, 2, 3, 4, 5]), Ok(()));
    assert_eq!(paper.get_candidates(), paper.get_candidates());
    assert_eq!(paper.get_vote_year(), paper.get_vote_year());
    assert_eq!(paper.get_location(), paper.get_location());
    assert_eq!(paper.get_vote_results(), paper.get_vote_results());
}

#[test]
fn scenario_slate_abc() {
    let mut paper = small_election();
    let x = voter(1);
    let y = voter(2);

    assert_eq!(paper.send_vote(x, vec![1, 2, 0]), Ok(()));
    assert_eq!(paper.total_of(0), 1);
    assert_eq!(paper.total_of(1), 2);
    assert_eq!(paper.total_of(2), 0);

    assert_eq!(paper.send_vote(x, vec![0, 0, 1]), Err(VoteError::AlreadyVoted));
    assert_eq!(paper.send_vote(x, vec![]), Err(VoteError::AlreadyVoted));
    assert_eq!(paper.total_of(0), 1);
    assert_eq!(paper.total_of(1), 2);
    assert_eq!(paper.total_of(2), 0);

    assert_eq!(paper.send_vote(y, vec![1, 1, 0]), Err(VoteError::DuplicatePreference));
    assert_eq!(paper.total_of(0), 1);
    assert_eq!(paper.total_of(1), 2);
    assert_eq!(paper.total_of(2), 0);

    assert_eq!(paper.send_vote(y, vec![0, 0, 5]), Ok(()));
    assert_eq!(paper.total_of(0), 1);
    assert_eq!(paper.total_of(1), 2);
    assert_eq!(paper.total_of(2), 5);

    assert_eq!(
        paper.get_vote_results(),
        "[{\"candidate\":\"A\",\"points\":1},{\"candidate\":\"B\",\"points\":2},{\"candidate\":\"C\",\"points\":5}]"
    );
}

#[test]
fn resubmission_always_rejected_and_changes_nothing() {
    let mut paper = small_election();
    let x = voter(7);
    assert_eq!(paper.send_vote(x, vec![3, 0, 1]), Ok(()));
    let before = paper.get_vote_results();
    assert_eq!(paper.send_vote(x, vec![2, 0, 0]), Err(VoteError::AlreadyVoted));
    assert_eq!(paper.send_vote(x, vec![1, 1, 1]), Err(VoteError::AlreadyVoted));
    assert_eq!(paper.get_vote_results(), before);
}

#[test]
fn duplicate_nonzero_rejected_and_changes_nothing() {
    let mut paper = small_election();
    let before = paper.get_vote_results();
    assert_eq!(paper.send_vote(voter(3), vec![4, 4, 0]), Err(VoteError::DuplicatePreference));
    assert_eq!(paper.get_vote_results(), before);
    assert!(!paper.has_voted(&voter(3)));
}

#[test]
fn repeated_zeros_accepted() {
    let mut paper = small_election();
    assert_eq!(paper.send_vote(voter(4), vec![0, 0, 0]), Ok(()));
    assert!(paper.has_voted(&voter(4)));
    assert_eq!(paper.total_of(0), 0);
    assert_eq!(paper.total_of(1), 0);
    assert_eq!(paper.total_of(2), 0);
}

#[test]
fn short_ballot_leaves_trailing_slots_unranked() {
    let mut paper = small_election();
    assert_eq!(paper.send_vote(voter(5), vec![5]), Ok(()));
    assert_eq!(paper.total_of(0), 5);
    assert_eq!(paper.total_of(1), 0);
    assert_eq!(paper.total_of(2), 0);
}

#[test]
fn empty_ballot_accepted_and_recorded() {
    let mut paper = small_election();
    assert_eq!(paper.send_vote(voter(6), vec![]), Ok(()));
    assert!(paper.has_voted(&voter(6)));
    assert_eq!(paper.send_vote(voter(6), vec![1]), Err(VoteError::AlreadyVoted));
}

#[test]
fn totals_are_the_sum_over_ballots() {
    let mut paper = small_election();
    let ballots: [[u8; 3]; 4] = [[1, 2, 3], [0, 2, 0], [9, 0, 1], [1, 1, 0]];
    let mut accepted: Vec<[u8; 3]> = Vec::new();
    for (k, b) in ballots.iter().enumerate() {
        if paper.send_vote(voter(10 + k as u8), b.to_vec()) == Ok(()) {
            accepted.push(*b);
        }
    }
    // the fourth ballot repeats 1, so only three are accepted
    assert_eq!(accepted.len(), 3);
    for i in 0..3 {
        let sum: u64 = accepted.iter().map(|b| b[i] as u64).sum();
        assert_eq!(paper.total_of(i), sum);
    }
}

#[test]
fn has_voted_tracks_identities() {
    let mut paper = small_election();
    assert!(!paper.has_voted(&voter(1)));
    assert_eq!(paper.send_vote(voter(1), vec![0, 1, 2]), Ok(()));
    assert!(paper.has_voted(&voter(1)));
    assert!(!paper.has_voted(&voter(2)));
    let mut near = voter(1);
    near[31] = 0;
    assert!(!paper.has_voted(&near));
}

#[test]
fn error_messages_match() {
    assert_eq!(VoteError::AlreadyVoted.message(), "This address has already voted.");
    assert_eq!(
        VoteError::DuplicatePreference.message(),
        "This vote contains recurring vote number"
    );
}

#[test]
fn empty_slate_queries() {
    let paper = BallotPaper::create(1999, "L".to_string(), vec![]);
    assert_eq!(paper.get_candidates(), "");
    assert_eq!(paper.get_vote_year(), "1999");
    assert_eq!(paper.get_location(), "L");
    assert_eq!(paper.get_vote_results(), "[]");
}

#[test]
fn decimal_rendering() {
    assert_eq!(dec_u16(0), "0");
    assert_eq!(dec_u16(7), "7");
    assert_eq!(dec_u16(10), "10");
    assert_eq!(dec_u16(2020), "2020");
    assert_eq!(dec_u16(65535), "65535");
}

#[test]
fn joining_lines() {
    assert_eq!(join_lines(&vec![]), "");
    assert_eq!(join_lines(&vec!["a".to_string()]), "a");
    assert_eq!(join_lines(&vec!["a".to_string(), "".to_string(), "b".to_string()]), "a\n\nb");
}

#[test]
fn duplicate_scan() {
    assert!(!has_duplicate(&vec![]));
    assert!(!has_duplicate(&vec![0, 0, 0]));
    assert!(!has_duplicate(&vec![1, 2, 3]));
    assert!(has_duplicate(&vec![1, 2, 1]));
    assert!(has_duplicate(&vec![0, 5, 0, 5]));
    assert!(!has_duplicate(&vec![255]));
}
