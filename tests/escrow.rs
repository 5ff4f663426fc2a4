use puzzle_contracts::escrow::{
    DisputeResolution, EscrowContract, EscrowData, EscrowError, EscrowState, ReleaseCondition,
};
use puzzle_contracts::{Address, Transfer};

fn addr(id: u64) -> Address {
    Address::new(id)
}

fn contract() -> EscrowContract {
    EscrowContract::new(addr(999_000))
}

fn force_active(c: &mut EscrowContract, id: u32) {
    c.escrows[(id - 1) as usize].state = EscrowState::Active;
}

fn escrow_of(c: &EscrowContract, id: u32) -> &EscrowData {
    c.get_escrow(id).unwrap()
}

#[test]
fn test_escrow_creation() {
    let mut c = contract();
    let creator = addr(1);
    let party1 = addr(2);
    let party2 = addr(3);
    let token = addr(4);
    let parties = vec![party1, party2];
    let amounts = vec![1000i128, 2000i128];
    let conditions = vec![ReleaseCondition::AllPartiesApprove];

    let escrow_id = c
        .create_escrow(creator, parties.clone(), token, amounts.clone(), conditions, None, 3600, 0)
        .unwrap();
    assert_eq!(escrow_id, 1);

    let escrow = escrow_of(&c, escrow_id);
    assert_eq!(escrow.state, EscrowState::Created);
    assert_eq!(escrow.parties, parties);
    assert_eq!(escrow.amounts, amounts);
}

#[test]
fn test_escrow_state_transitions() {
    let mut c = contract();
    let creator = addr(1);
    let party1 = addr(2);
    let party2 = addr(3);
    let arbitrator = addr(5);
    let token = addr(4);
    let escrow_id = c
        .create_escrow(
            creator,
            vec![party1, party2],
            token,
            vec![1000, 2000],
            vec![ReleaseCondition::AllPartiesApprove],
            Some(arbitrator),
            3600,
            0,
        )
        .unwrap();

    force_active(&mut c, escrow_id);

    c.dispute(party1, escrow_id, "Test dispute").unwrap();
    assert_eq!(escrow_of(&c, escrow_id).state, EscrowState::Disputed);

    c.resolve_dispute(arbitrator, escrow_id, DisputeResolution::Refund).unwrap();
    assert_eq!(escrow_of(&c, escrow_id).state, EscrowState::Refunded);
}

#[test]
fn test_timeout_functionality() {
    let mut c = contract();
    let escrow_id = c
        .create_escrow(
            addr(1),
            vec![addr(2), addr(3)],
            addr(4),
            vec![1000, 2000],
            vec![ReleaseCondition::AllPartiesApprove],
            None,
            100,
            0,
        )
        .unwrap();

    force_active(&mut c, escrow_id);

    c.refund_timeout(escrow_id, 200).unwrap();
    assert_eq!(escrow_of(&c, escrow_id).state, EscrowState::Refunded);
}

#[test]
fn test_approval_logic() {
    let mut c = contract();
    let party1 = addr(2);
    let party2 = addr(3);
    let party3 = addr(6);
    let escrow_id = c
        .create_escrow(
            addr(1),
            vec![party1, party2, party3],
            addr(4),
            vec![1000, 2000, 1500],
            vec![ReleaseCondition::MajorityApprove],
            None,
            3600,
            0,
        )
        .unwrap();

    force_active(&mut c, escrow_id);

    c.approve(party1, escrow_id).unwrap();
    c.approve(party2, escrow_id).unwrap();

    assert_eq!(escrow_of(&c, escrow_id).state, EscrowState::Released);
}

#[test]
fn test_error_conditions() {
    let mut c = contract();
    assert!(c.get_escrow(999).is_none());

    let result = c.create_escrow(
        addr(1),
        vec![],
        addr(4),
        vec![],
        vec![ReleaseCondition::AllPartiesApprove],
        None,
        3600,
        0,
    );
    assert_eq!(result, Err(EscrowError::InvalidParties));
}

fn two_party(c: &mut EscrowContract, arbitrator: Option<Address>, timeout: u64, now: u64) -> u32 {
    c.create_escrow(
        addr(1),
        vec![addr(2), addr(3)],
        addr(4),
        vec![1000, 2000],
        vec![ReleaseCondition::AllPartiesApprove],
        arbitrator,
        timeout,
        now,
    )
    .unwrap()
}

#[test]
fn full_deposits_activate_and_all_approvals_release_equal_split() {
    let mut c = contract();
    let id = two_party(&mut c, None, 3600, 0);
    let t1 = c.deposit(addr(2), id, 1000).unwrap();
    assert_eq!(t1, vec![Transfer { token: addr(4), from: addr(2), to: addr(999_000), amount: 1000 }]);
    assert_eq!(escrow_of(&c, id).state, EscrowState::Created);
    c.deposit(addr(3), id, 2000).unwrap();
    assert_eq!(escrow_of(&c, id).state, EscrowState::Active);
    assert_eq!(escrow_of(&c, id).pot, 3000);

    let first = c.approve(addr(2), id).unwrap();
    assert!(first.is_empty());
    assert_eq!(escrow_of(&c, id).state, EscrowState::Active);

    let payout = c.approve(addr(3), id).unwrap();
    assert_eq!(
        payout,
        vec![
            Transfer { token: addr(4), from: addr(999_000), to: addr(2), amount: 1500 },
            Transfer { token: addr(4), from: addr(999_000), to: addr(3), amount: 1500 },
        ]
    );
    let e = escrow_of(&c, id);
    assert_eq!(e.state, EscrowState::Released);
    assert_eq!(e.pot, 0);
    assert_eq!(e.paid_out, 3000);
}

#[test]
fn timeout_refund_waits_for_deadline_and_returns_each_deposit() {
    let mut c = contract();
    let now = 5_000u64;
    let id = two_party(&mut c, None, 100, now);
    c.deposit(addr(2), id, 1000).unwrap();
    c.deposit(addr(3), id, 2000).unwrap();

    assert_eq!(c.refund_timeout(id, now + 50), Err(EscrowError::TimeoutNotReached));
    assert_eq!(escrow_of(&c, id).state, EscrowState::Active);

    let refunds = c.refund_timeout(id, now + 101).unwrap();
    assert_eq!(
        refunds,
        vec![
            Transfer { token: addr(4), from: addr(999_000), to: addr(2), amount: 1000 },
            Transfer { token: addr(4), from: addr(999_000), to: addr(3), amount: 2000 },
        ]
    );
    assert_eq!(escrow_of(&c, id).pot, 0);

    assert_eq!(c.refund_timeout(id, now + 500), Err(EscrowError::InvalidState));
}

#[test]
fn double_deposit_is_refused() {
    let mut c = contract();
    let id = two_party(&mut c, None, 3600, 0);
    c.deposit(addr(2), id, 1000).unwrap();
    assert_eq!(c.deposit(addr(2), id, 1000), Err(EscrowError::AlreadyDeposited));
    assert_eq!(escrow_of(&c, id).deposited, vec![1000, 0]);
}

#[test]
fn deposit_errors() {
    let mut c = contract();
    let id = two_party(&mut c, None, 3600, 0);
    assert_eq!(c.deposit(addr(7), id, 1000), Err(EscrowError::NotParty));
    assert_eq!(c.deposit(addr(2), id, 999), Err(EscrowError::AmountMismatch));
    assert_eq!(c.deposit(addr(2), 42, 1000), Err(EscrowError::EscrowNotFound));
}

#[test]
fn open_rejects_bad_terms() {
    let mut c = contract();
    let mismatched = c.create_escrow(addr(1), vec![addr(2)], addr(4), vec![1, 2], vec![], None, 1, 0);
    assert_eq!(mismatched, Err(EscrowError::InvalidParties));
    let zero = c.create_escrow(addr(1), vec![addr(2)], addr(4), vec![0], vec![], None, 1, 0);
    assert_eq!(zero, Err(EscrowError::InvalidParties));
    let repeated = c.create_escrow(addr(1), vec![addr(2), addr(2)], addr(4), vec![1, 1], vec![], None, 1, 0);
    assert_eq!(repeated, Err(EscrowError::InvalidParties));
    let overflow =
        c.create_escrow(addr(1), vec![addr(2), addr(3)], addr(4), vec![i128::MAX, 1], vec![], None, 1, 0);
    assert_eq!(overflow, Err(EscrowError::InvalidParties));
    assert!(c.escrows.is_empty());
}

#[test]
fn deadline_saturates_at_largest_time() {
    let mut c = contract();
    let id = two_party(&mut c, None, u64::MAX, 10);
    assert_eq!(escrow_of(&c, id).timeout, u64::MAX);
}

#[test]
fn partial_release_by_arbitrator_keeps_remainder() {
    let mut c = contract();
    let id = c
        .create_escrow(
            addr(1),
            vec![addr(2), addr(3), addr(6)],
            addr(4),
            vec![100, 100, 100],
            vec![ReleaseCondition::ArbitratorApprove],
            Some(addr(9)),
            3600,
            0,
        )
        .unwrap();
    for p in [2u64, 3, 6] {
        c.deposit(addr(p), id, 100).unwrap();
    }
    assert_eq!(c.release(addr(2), id, None), Err(EscrowError::Unauthorized));
    assert_eq!(c.release(addr(9), id, Some(301)), Err(EscrowError::AmountMismatch));
    assert_eq!(c.release(addr(9), id, Some(-1)), Err(EscrowError::AmountMismatch));

    let part = c.release(addr(9), id, Some(100)).unwrap();
    assert_eq!(part.len(), 3);
    assert!(part.iter().all(|t| t.amount == 33));
    assert_eq!(escrow_of(&c, id).pot, 201);
    assert_eq!(escrow_of(&c, id).state, EscrowState::Active);

    assert_eq!(c.release(addr(9), id, Some(250)), Err(EscrowError::InsufficientFunds));
    assert_eq!(c.refund_timeout(id, 10_000), Err(EscrowError::InvalidState));

    let rest = c.release(addr(9), id, None).unwrap();
    assert!(rest.iter().all(|t| t.amount == 67));
    let e = escrow_of(&c, id);
    assert_eq!(e.state, EscrowState::Released);
    assert_eq!(e.pot, 0);
    assert_eq!(e.paid_out, 300);
}

#[test]
fn equal_split_truncates_and_leaves_remainder_in_pot() {
    let mut c = contract();
    let id = c
        .create_escrow(
            addr(1),
            vec![addr(2), addr(3), addr(6)],
            addr(4),
            vec![10, 10, 11],
            vec![ReleaseCondition::AllPartiesApprove],
            None,
            3600,
            0,
        )
        .unwrap();
    c.deposit(addr(2), id, 10).unwrap();
    c.deposit(addr(3), id, 10).unwrap();
    c.deposit(addr(6), id, 11).unwrap();
    c.approve(addr(2), id).unwrap();
    c.approve(addr(3), id).unwrap();
    let out = c.approve(addr(6), id).unwrap();
    assert_eq!(out.iter().map(|t| t.amount).collect::<Vec<_>>(), vec![10, 10, 10]);
    let e = escrow_of(&c, id);
    assert_eq!(e.pot, 1);
    assert_eq!(e.paid_out, 30);
}

#[test]
fn dispute_rules() {
    let mut c = contract();
    let no_arb = two_party(&mut c, None, 3600, 0);
    assert_eq!(c.dispute(addr(2), no_arb, "late"), Err(EscrowError::InvalidState));
    force_active(&mut c, no_arb);
    assert_eq!(c.dispute(addr(7), no_arb, "late"), Err(EscrowError::NotParty));
    assert_eq!(c.dispute(addr(2), no_arb, "late"), Err(EscrowError::NoArbitrator));

    let with_arb = two_party(&mut c, Some(addr(9)), 3600, 0);
    c.deposit(addr(2), with_arb, 1000).unwrap();
    c.deposit(addr(3), with_arb, 2000).unwrap();
    c.dispute(addr(3), with_arb, "late").unwrap();
    assert_eq!(
        c.resolve_dispute(addr(2), with_arb, DisputeResolution::Release),
        Err(EscrowError::Unauthorized)
    );
    let ts = c.resolve_dispute(addr(9), with_arb, DisputeResolution::Release).unwrap();
    assert_eq!(ts.iter().map(|t| t.amount).sum::<i128>(), 3000);
    assert_eq!(escrow_of(&c, with_arb).state, EscrowState::Released);
    assert_eq!(
        c.resolve_dispute(addr(9), with_arb, DisputeResolution::Refund),
        Err(EscrowError::InvalidState)
    );
}

#[test]
fn refund_resolution_returns_deposits() {
    let mut c = contract();
    let id = two_party(&mut c, Some(addr(9)), 3600, 0);
    c.deposit(addr(2), id, 1000).unwrap();
    c.deposit(addr(3), id, 2000).unwrap();
    c.dispute(addr(2), id, "no show").unwrap();
    let ts = c.resolve_dispute(addr(9), id, DisputeResolution::Refund).unwrap();
    assert_eq!(ts.iter().map(|t| (t.to, t.amount)).collect::<Vec<_>>(), vec![(addr(2), 1000), (addr(3), 2000)]);
    assert_eq!(escrow_of(&c, id).state, EscrowState::Refunded);
}

#[test]
fn creator_cancels_and_gets_deposits_back_to_parties() {
    let mut c = contract();
    let id = two_party(&mut c, None, 100, 0);
    c.deposit(addr(2), id, 1000).unwrap();
    assert_eq!(c.cancel(addr(2), id, 0), Err(EscrowError::Unauthorized));
    let ts = c.cancel(addr(1), id, 0).unwrap();
    assert_eq!(ts, vec![Transfer { token: addr(4), from: addr(999_000), to: addr(2), amount: 1000 }]);
    let e = escrow_of(&c, id);
    assert_eq!(e.state, EscrowState::Cancelled);
    assert_eq!(e.pot, 0);
    assert_eq!(c.deposit(addr(3), id, 2000), Err(EscrowError::InvalidState));
}

#[test]
fn active_agreement_cancels_only_after_deadline() {
    let mut c = contract();
    let id = two_party(&mut c, None, 100, 0);
    c.deposit(addr(2), id, 1000).unwrap();
    c.deposit(addr(3), id, 2000).unwrap();
    assert_eq!(c.cancel(addr(1), id, 99), Err(EscrowError::InvalidState));
    let ts = c.cancel(addr(1), id, 100).unwrap();
    assert_eq!(ts.iter().map(|t| t.amount).sum::<i128>(), 3000);
    assert_eq!(escrow_of(&c, id).state, EscrowState::Cancelled);
}
