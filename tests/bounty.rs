use puzzle_contracts::bounty::{BountyContract, BountyError, BountyStatus};
use puzzle_contracts::{Address, Transfer};

fn who(id: u64) -> Address {
    Address::new(id)
}

/// Token balances: what was minted, moved by the contract's transfers.
fn balance(minted: &[(Address, i128)], transfers: &[Transfer], holder: Address) -> i128 {
    let mut b: i128 = minted.iter().filter(|(a, _)| *a == holder).map(|(_, v)| *v).sum();
    for t in transfers {
        if t.from == holder {
            b -= t.amount;
        }
        if t.to == holder {
            b += t.amount;
        }
    }
    b
}

fn setup_test() -> (BountyContract, Address, Address) {
    let admin = who(1);
    let mut client = BountyContract::new(who(500));
    client.initialize(admin).unwrap();
    let token = who(600);
    (client, admin, token)
}

#[test]
fn test_bounty_lifecycle() {
    let (mut client, _admin, token) = setup_test();
    let creator = who(10);
    let solver = who(11);
    let minted = [(creator, 1000i128)];
    assert_eq!(balance(&minted, &client.transfers, creator), 1000);

    let bounty_id = client.create_bounty(creator, token, 500, Some(1), 3600, 0).unwrap();
    assert_eq!(bounty_id, 1);
    assert_eq!(balance(&minted, &client.transfers, creator), 500);
    assert_eq!(balance(&minted, &client.transfers, client.address), 500);

    let bounty = client.get_bounty(bounty_id).unwrap();
    assert_eq!(bounty.status, BountyStatus::Open);

    client.accept_bounty(solver, bounty_id, 0).unwrap();
    let bounty = client.get_bounty(bounty_id).unwrap();
    assert_eq!(bounty.status, BountyStatus::Accepted);
    assert_eq!(bounty.solver, Some(solver));

    client.submit_solution(solver, bounty_id, 0).unwrap();
    let bounty = client.get_bounty(bounty_id).unwrap();
    assert_eq!(bounty.status, BountyStatus::Submitted);

    client.approve_submission(creator, bounty_id).unwrap();
    let bounty = client.get_bounty(bounty_id).unwrap();
    assert_eq!(bounty.status, BountyStatus::Completed);

    assert_eq!(balance(&minted, &client.transfers, solver), 500);
    assert_eq!(balance(&minted, &client.transfers, client.address), 0);
}

#[test]
fn test_cancel_bounty() {
    let (mut client, _admin, token) = setup_test();
    let creator = who(10);
    let minted = [(creator, 1000i128)];
    let bounty_id = client.create_bounty(creator, token, 500, None, 3600, 0).unwrap();

    client.cancel_bounty(creator, bounty_id, 0).unwrap();
    let bounty = client.get_bounty(bounty_id).unwrap();
    assert_eq!(bounty.status, BountyStatus::Cancelled);
    assert_eq!(balance(&minted, &client.transfers, creator), 1000);
}

#[test]
fn cancel_accepted_before_expiration_is_refused() {
    let (mut client, _admin, token) = setup_test();
    let creator = who(10);
    let solver = who(11);
    let bounty_id = client.create_bounty(creator, token, 500, None, 3600, 0).unwrap();
    client.accept_bounty(solver, bounty_id, 0).unwrap();
    assert_eq!(client.cancel_bounty(creator, bounty_id, 0), Err(BountyError::CannotCancel));
    assert_eq!(client.cancel_bounty(creator, bounty_id, 3601), Ok(()));
}

#[test]
fn test_dispute_resolution() {
    let (mut client, admin, token) = setup_test();
    let creator = who(10);
    let solver = who(11);
    let minted = [(creator, 1000i128)];
    let bounty_id = client.create_bounty(creator, token, 500, None, 3600, 0).unwrap();
    client.accept_bounty(solver, bounty_id, 0).unwrap();
    client.submit_solution(solver, bounty_id, 0).unwrap();

    client.dispute_bounty(creator, bounty_id).unwrap();
    let bounty = client.get_bounty(bounty_id).unwrap();
    assert_eq!(bounty.status, BountyStatus::Disputed);

    client.resolve_dispute(admin, bounty_id, 300).unwrap();

    assert_eq!(balance(&minted, &client.transfers, solver), 300);
    assert_eq!(balance(&minted, &client.transfers, creator), 500 + 200);
}

#[test]
fn dispute_split_pays_out_whole_reward() {
    let (mut client, admin, token) = setup_test();
    let creator = who(10);
    let solver = who(11);
    let id = client.create_bounty(creator, token, 500, None, 3600, 0).unwrap();
    client.accept_bounty(solver, id, 0).unwrap();
    client.dispute_bounty(solver, id).unwrap();
    let before = client.transfers.len();
    client.resolve_dispute(admin, id, 300).unwrap();
    let paid: Vec<(Address, i128)> = client.transfers[before..].iter().map(|t| (t.to, t.amount)).collect();
    assert_eq!(paid, vec![(solver, 300), (creator, 200)]);
    assert_eq!(paid.iter().map(|p| p.1).sum::<i128>(), 500);
    assert_eq!(balance(&[], &client.transfers, client.address), 0);
}

#[test]
fn test_marketplace_discovery() {
    let (mut client, _admin, token) = setup_test();
    let creator = who(10);
    for i in 0..5u32 {
        client.create_bounty(creator, token, 100, Some(i), 3600, 0).unwrap();
    }

    let active = client.get_active_bounties(0, 10);
    assert_eq!(active.len(), 5);

    client.cancel_bounty(creator, 1, 0).unwrap();
    let active = client.get_active_bounties(0, 10);
    assert_eq!(active.len(), 4);

    let solver = who(11);
    client.accept_bounty(solver, 2, 0).unwrap();
    client.submit_solution(solver, 2, 0).unwrap();
    client.approve_submission(creator, 2).unwrap();

    let active = client.get_active_bounties(0, 10);
    assert_eq!(active.len(), 3);
}

#[test]
fn active_bounty_window() {
    let (mut client, _admin, token) = setup_test();
    for _ in 0..5 {
        client.create_bounty(who(10), token, 100, None, 3600, 0).unwrap();
    }
    let ids: Vec<u32> = client.get_active_bounties(1, 3).iter().map(|b| b.id).collect();
    assert_eq!(ids, vec![2, 3]);
    assert!(client.get_active_bounties(6, 3).is_empty());
    assert_eq!(client.get_active_bounties(0, u32::MAX).len(), 5);
    assert_eq!(client.get_bounty_count(), 5);
}

#[test]
fn bounty_errors() {
    let (mut client, admin, token) = setup_test();
    assert_eq!(client.initialize(admin), Err(BountyError::AlreadyInitialized));
    assert_eq!(client.create_bounty(who(10), token, 0, None, 10, 0), Err(BountyError::InvalidAmount));
    let id = client.create_bounty(who(10), token, 100, None, 10, 0).unwrap();
    assert_eq!(client.accept_bounty(who(11), 9, 0), Err(BountyError::BountyNotFound));
    assert_eq!(client.accept_bounty(who(11), id, 11), Err(BountyError::Expired));
    assert_eq!(client.submit_solution(who(11), id, 0), Err(BountyError::NotAccepted));
    client.accept_bounty(who(11), id, 5).unwrap();
    assert_eq!(client.accept_bounty(who(12), id, 5), Err(BountyError::NotOpen));
    assert_eq!(client.submit_solution(who(12), id, 5), Err(BountyError::NotAssignedSolver));
    assert_eq!(client.approve_submission(who(11), id), Err(BountyError::NotCreator));
    assert_eq!(client.approve_submission(who(10), id), Err(BountyError::NoSubmission));
    assert_eq!(client.dispute_bounty(who(12), id), Err(BountyError::NotParticipant));
    assert_eq!(client.resolve_dispute(admin, id, 10), Err(BountyError::NotInDispute));
    client.dispute_bounty(who(11), id).unwrap();
    assert_eq!(client.dispute_bounty(who(11), id), Err(BountyError::CannotDispute));
    assert_eq!(client.resolve_dispute(who(10), id, 10), Err(BountyError::NotAdmin));
    assert_eq!(client.resolve_dispute(admin, id, 101), Err(BountyError::InvalidPayout));
    assert_eq!(client.resolve_dispute(admin, id, -1), Err(BountyError::InvalidPayout));

    let mut fresh = BountyContract::new(who(500));
    assert_eq!(fresh.resolve_dispute(admin, 1, 0), Err(BountyError::NoAdmin));
}

#[test]
fn split_without_solver_is_refused() {
    let (mut client, admin, token) = setup_test();
    let id = client.create_bounty(who(10), token, 100, None, 3600, 0).unwrap();
    client.bounties[(id - 1) as usize].status = BountyStatus::Disputed;
    assert_eq!(client.resolve_dispute(admin, id, 1), Err(BountyError::NoSolver));
    client.resolve_dispute(admin, id, 0).unwrap();
    let last = client.transfers.last().unwrap();
    assert_eq!((last.to, last.amount), (who(10), 100));
}
