use puzzle_contracts::puzzle_match::{Error, MultiplayerPuzzleMatch, Status};
use puzzle_contracts::Address;

fn player(id: u64) -> Address {
    Address::new(id)
}

fn digest(b: u8) -> [u8; 32] {
    [b; 32]
}

#[test]
fn test_match_lifecycle() {
    let mut game = MultiplayerPuzzleMatch::new(player(700));
    let creator = player(1);
    let token = player(2);
    let (match_id, ts) = game.create_match(creator, token, 100, 5, 2, 3600, 1800, 1800, 0).unwrap();
    assert_eq!(match_id, 1);
    assert_eq!(ts[0].amount, 100);

    let player2 = player(3);
    game.join_match(match_id, player2, 0).unwrap();
    assert_eq!(game.get_match(match_id).unwrap().status, Status::Submission);

    game.submit_commit(match_id, creator, digest(1), 0).unwrap();
    game.submit_commit(match_id, player2, digest(2), 0).unwrap();
    assert_eq!(game.get_match(match_id).unwrap().status, Status::Reveal);

    let late = 1900;
    assert_eq!(game.reveal_result(match_id, creator, 100, digest(1), late), Err(Error::DeadlinePassed));
    assert_eq!(game.reveal_result(match_id, player2, 90, digest(2), late), Err(Error::DeadlinePassed));

    let refunds = game.evaluate_match(match_id, late + 1900).unwrap();
    assert_eq!(refunds.iter().map(|t| (t.to, t.amount)).collect::<Vec<_>>(), vec![(creator, 100), (player2, 100)]);
    let m = game.get_match(match_id).unwrap();
    assert_eq!(m.status, Status::Abandoned);
    assert_eq!(m.pot, 0);
}

#[test]
fn best_score_takes_the_pot() {
    let mut game = MultiplayerPuzzleMatch::new(player(700));
    let (id, _) = game.create_match(player(1), player(2), 100, 5, 3, 3600, 1800, 1800, 0).unwrap();
    game.join_match(id, player(3), 10).unwrap();
    assert_eq!(game.get_match(id).unwrap().status, Status::Open);
    game.join_match(id, player(4), 20).unwrap();
    assert_eq!(game.get_match(id).unwrap().submission_deadline, 1820);
    for (p, d) in [(1u64, 1u8), (3, 3), (4, 4)] {
        game.submit_commit(id, player(p), digest(d), 30).unwrap();
    }
    assert_eq!(game.get_match(id).unwrap().reveal_deadline, 1830);
    assert_eq!(game.reveal_result(id, player(1), 50, digest(9), 40), Err(Error::InvalidReveal));
    game.reveal_result(id, player(1), 50, digest(1), 40).unwrap();
    game.reveal_result(id, player(3), 90, digest(3), 40).unwrap();
    game.reveal_result(id, player(4), 90, digest(4), 40).unwrap();
    assert_eq!(game.evaluate_match(id, 1000), Err(Error::DeadlineNotReached));
    let prizes = game.evaluate_match(id, 1831).unwrap();
    assert_eq!(prizes.iter().map(|t| (t.to, t.amount)).collect::<Vec<_>>(), vec![(player(3), 150), (player(4), 150)]);
    assert_eq!(game.get_match(id).unwrap().pot, 0);
    assert_eq!(game.get_match(id).unwrap().status, Status::Finished);
}

#[test]
fn uneven_prize_leaves_remainder_in_pot() {
    let mut game = MultiplayerPuzzleMatch::new(player(700));
    let (id, _) = game.create_match(player(1), player(2), 7, 5, 3, 100, 100, 100, 0).unwrap();
    game.join_match(id, player(3), 0).unwrap();
    game.join_match(id, player(4), 0).unwrap();
    for p in [1u64, 3, 4] {
        game.submit_commit(id, player(p), digest(p as u8), 0).unwrap();
    }
    game.reveal_result(id, player(1), 5, digest(1), 0).unwrap();
    game.reveal_result(id, player(3), 5, digest(3), 0).unwrap();
    let prizes = game.handle_timeout(id, 101).unwrap();
    assert!(prizes.is_empty());
    assert_eq!(game.get_match(id).unwrap().status, Status::Finished);
    let prizes = game.evaluate_match(id, 101).unwrap();
    assert_eq!(prizes.iter().map(|t| t.amount).collect::<Vec<_>>(), vec![10, 10]);
    assert_eq!(game.get_match(id).unwrap().pot, 1);
}

#[test]
fn dispute_strikes_result() {
    let mut game = MultiplayerPuzzleMatch::new(player(700));
    let (id, _) = game.create_match(player(1), player(2), 100, 5, 2, 100, 100, 100, 0).unwrap();
    game.join_match(id, player(3), 0).unwrap();
    game.submit_commit(id, player(1), digest(1), 0).unwrap();
    game.submit_commit(id, player(3), digest(3), 0).unwrap();
    game.reveal_result(id, player(1), 10, digest(1), 0).unwrap();
    game.reveal_result(id, player(3), 99, digest(3), 0).unwrap();
    assert_eq!(game.raise_dispute(id, player(1), player(1)), Err(Error::InvalidOp));
    assert_eq!(game.raise_dispute(id, player(9), player(3)), Err(Error::NotPlayer));
    game.raise_dispute(id, player(1), player(3)).unwrap();
    assert_eq!(game.get_match(id).unwrap().status, Status::Disputed);
    assert_eq!(game.raise_dispute(id, player(1), player(3)), Err(Error::InvalidStatus));
    assert_eq!(game.resolve_dispute(id, player(3), player(3), false), Err(Error::NotCreator));
    assert_eq!(game.resolve_dispute(id, player(1), player(1), false), Err(Error::DisputeNotFound));
    game.resolve_dispute(id, player(1), player(3), false).unwrap();
    assert_eq!(game.get_match(id).unwrap().status, Status::Finished);
    let prizes = game.evaluate_match(id, 0).unwrap();
    assert_eq!(prizes.iter().map(|t| (t.to, t.amount)).collect::<Vec<_>>(), vec![(player(1), 200)]);
}

#[test]
fn join_leave_and_timeouts() {
    let mut game = MultiplayerPuzzleMatch::new(player(700));
    assert_eq!(
        game.create_match(player(1), player(2), 0, 5, 2, 100, 100, 100, 0),
        Err(Error::InvalidEntryFee)
    );
    let (id, _) = game.create_match(player(1), player(2), 50, 2, 3, 100, 100, 100, 0).unwrap();
    assert_eq!(game.join_match(id, player(1), 0), Err(Error::AlreadyJoined));
    assert_eq!(game.join_match(id, player(3), 101), Err(Error::DeadlinePassed));
    game.join_match(id, player(3), 50).unwrap();
    assert_eq!(game.join_match(id, player(4), 50), Err(Error::MaxPlayersReached));
    let back = game.leave_match(id, player(3)).unwrap();
    assert_eq!(back[0].to, player(3));
    assert_eq!(back[0].amount, 50);
    assert_eq!(game.leave_match(id, player(3)), Err(Error::NotPlayer));
    assert_eq!(game.get_match(id).unwrap().pot, 50);
    assert_eq!(game.handle_timeout(id, 100), Err(Error::InvalidStatus));
    let refunds = game.handle_timeout(id, 101).unwrap();
    assert_eq!(refunds.len(), 1);
    assert_eq!(game.get_match(id).unwrap().status, Status::Abandoned);
    assert_eq!(game.join_match(9, player(3), 0), Err(Error::MatchNotFound));
}

#[test]
fn overdue_submission_moves_on_without_missing_commits() {
    let mut game = MultiplayerPuzzleMatch::new(player(700));
    let (id, _) = game.create_match(player(1), player(2), 10, 4, 2, 100, 50, 60, 0).unwrap();
    game.join_match(id, player(3), 5).unwrap();
    assert_eq!(game.submit_commit(id, player(9), digest(9), 10), Err(Error::NotPlayer));
    game.submit_commit(id, player(1), digest(1), 10).unwrap();
    assert_eq!(game.submit_commit(id, player(3), digest(3), 56), Err(Error::DeadlinePassed));
    assert_eq!(game.handle_timeout(id, 55), Err(Error::InvalidStatus));
    game.handle_timeout(id, 56).unwrap();
    let m = game.get_match(id).unwrap();
    assert_eq!(m.status, Status::Reveal);
    assert_eq!(m.reveal_deadline, 116);
    assert_eq!(game.submit_commit(id, player(3), digest(3), 57), Err(Error::InvalidStatus));
    assert_eq!(game.reveal_result(id, player(3), 1, digest(3), 57), Err(Error::NoResults));
    game.reveal_result(id, player(1), 4, digest(1), 57).unwrap();
    let prizes = game.evaluate_match(id, 117).unwrap();
    assert_eq!(prizes.iter().map(|t| (t.to, t.amount)).collect::<Vec<_>>(), vec![(player(1), 20)]);
}
