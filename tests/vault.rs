use puzzle_contracts::vault::{RewardVaultContract, VaultError};
use puzzle_contracts::{Address, Transfer};

const WEEK: u64 = 7 * 24 * 60 * 60;
const MONTH: u64 = 30 * 24 * 60 * 60;
const QUARTER: u64 = 90 * 24 * 60 * 60;

fn acct(id: u64) -> Address {
    Address::new(id)
}

fn held(minted: &[(Address, i128)], transfers: &[Transfer], holder: Address) -> i128 {
    let mut b: i128 = minted.iter().filter(|(a, _)| *a == holder).map(|(_, v)| *v).sum();
    for t in transfers {
        if t.from == holder {
            b -= t.amount;
        }
        if t.to == holder {
            b += t.amount;
        }
    }
    b
}

/// (client, admin, user, beneficiary, relayer)
fn setup_vault_contract() -> (RewardVaultContract, Address, Address, Address, Address) {
    let admin = acct(1);
    let user = acct(2);
    let beneficiary = acct(3);
    let relayer = acct(4);
    let token = acct(5);
    let mut client = RewardVaultContract::new(acct(900));
    client
        .initialize(admin, token, 1000, 2500, vec![WEEK, MONTH, QUARTER], vec![500, 1200, 2500])
        .unwrap();
    (client, admin, user, beneficiary, relayer)
}

#[test]
fn test_deposit_locks_for_selected_period() {
    let now = 1_000;
    let (mut client, _, user, _, _) = setup_vault_contract();
    let minted = [(user, 10_000_000i128)];
    client.deposit(user, 5_000_000, MONTH, now).unwrap();

    let vault = client.get_vault(user).unwrap();
    assert_eq!(vault.amount, 5_000_000);
    assert_eq!(vault.lock_period, MONTH);
    assert_eq!(vault.bonus_bps, 1200);
    assert!(client.get_time_until_maturity(user, now) > 0);
    assert_eq!(held(&minted, &client.transfers, user), 5_000_000);
}

#[test]
fn test_bonus_increases_with_longer_locks() {
    let (client, _, _, _, _) = setup_vault_contract();
    let amount = 10_000_000i128;
    let week_bonus = client.quote_bonus_for_lock(WEEK, amount).unwrap();
    let month_bonus = client.quote_bonus_for_lock(MONTH, amount).unwrap();
    let quarter_bonus = client.quote_bonus_for_lock(QUARTER, amount).unwrap();
    assert!(week_bonus < month_bonus);
    assert!(month_bonus < quarter_bonus);
}

#[test]
fn test_early_withdrawal_penalized() {
    let (mut client, _, user, _, _) = setup_vault_contract();
    let minted = [(user, 10_000_000i128)];
    client.deposit(user, 10_000_000, MONTH, 1_000).unwrap();

    let payout = client.early_withdraw(user, 2_000).unwrap();
    assert_eq!(payout, 9_000_000);
    assert_eq!(held(&minted, &client.transfers, user), 9_000_000);
    assert!(client.get_vault(user).is_none());
}

#[test]
fn test_maturity_triggers_full_payout() {
    let (mut client, admin, user, _, _) = setup_vault_contract();
    let minted = [(user, 20_000_000i128), (admin, 20_000_000i128)];
    client.fund_bonus_pool(admin, 20_000_000).unwrap();

    client.deposit(user, 10_000_000, MONTH, 1_000).unwrap();
    let payout = client.withdraw_mature(user, 1_000 + MONTH + 1).unwrap();
    assert_eq!(payout, 11_200_000);
    assert_eq!(held(&minted, &client.transfers, user), 21_200_000);
    assert!(client.get_vault(user).is_none());
}

#[test]
fn test_extensions_work_correctly() {
    let (mut client, _, user, _, _) = setup_vault_contract();
    client.deposit(user, 10_000_000, WEEK, 1_000).unwrap();

    let before = client.get_vault(user).unwrap();
    assert_eq!(before.bonus_bps, 500);

    client.extend_lock(user, MONTH - WEEK, 1_000).unwrap();
    let after = client.get_vault(user).unwrap();
    assert_eq!(after.lock_period, MONTH);
    assert_eq!(after.bonus_bps, 1200);
    assert!(after.maturity_at > before.maturity_at);
}

#[test]
fn test_emergency_unlock_path() {
    let (mut client, admin, user, _, _) = setup_vault_contract();
    let minted = [(user, 8_000_000i128)];
    client.deposit(user, 8_000_000, MONTH, 1_000).unwrap();

    client.set_emergency_unlock(admin, true).unwrap();
    let payout = client.emergency_withdraw(user).unwrap();
    assert_eq!(payout, 6_000_000);
    assert_eq!(held(&minted, &client.transfers, user), 6_000_000);
    assert!(client.get_vault(user).is_none());
}

#[test]
fn test_inheritance_claim_for_beneficiary() {
    let (mut client, admin, user, beneficiary, _) = setup_vault_contract();
    let minted = [(user, 10_000_000i128), (admin, 20_000_000i128)];
    client.fund_bonus_pool(admin, 20_000_000).unwrap();

    client.deposit(user, 10_000_000, WEEK, 1_000).unwrap();
    client.set_beneficiary(user, beneficiary).unwrap();

    let payout = client.claim_inheritance(beneficiary, user, 1_000 + WEEK + 1).unwrap();
    assert_eq!(payout, 10_500_000);
    assert_eq!(held(&minted, &client.transfers, beneficiary), 10_500_000);
    assert!(client.get_vault(user).is_none());
}

#[test]
fn test_auto_distribution_via_relayer() {
    let (mut client, admin, user, _, relayer) = setup_vault_contract();
    let minted = [(user, 10_000_000i128), (admin, 20_000_000i128), (relayer, 1i128)];
    client.fund_bonus_pool(admin, 20_000_000).unwrap();

    client.deposit(user, 10_000_000, WEEK, 1_000).unwrap();
    let payout = client.distribute_mature_payout(user, 1_000 + WEEK + 1).unwrap();
    assert_eq!(payout, 10_500_000);
    assert_eq!(held(&minted, &client.transfers, user), 10_500_000);
}

#[test]
fn bonus_at_twelve_percent_is_exact() {
    assert_eq!(RewardVaultContract::calculate_bonus(10_000_000, 1200), 1_200_000);
    assert_eq!(10_000_000 + RewardVaultContract::calculate_bonus(10_000_000, 1200), 11_200_000);
    assert_eq!(RewardVaultContract::calculate_bonus(9_999, 1), 0);
    assert_eq!(RewardVaultContract::calculate_bonus(0, 2500), 0);
}

#[test]
fn vault_errors() {
    let (mut client, admin, user, beneficiary, _) = setup_vault_contract();
    assert_eq!(
        client.initialize(admin, acct(5), 0, 0, vec![WEEK], vec![1]),
        Err(VaultError::AlreadyInitialized)
    );
    assert_eq!(client.deposit(user, 0, WEEK, 0), Err(VaultError::InvalidAmount));
    assert_eq!(client.deposit(user, 10, 5, 0), Err(VaultError::UnsupportedLockPeriod));
    assert_eq!(client.deposit(user, 10, WEEK, u64::MAX), Err(VaultError::ArithmeticOverflow));
    client.deposit(user, 10, WEEK, 0).unwrap();
    assert_eq!(client.deposit(user, 10, WEEK, 0), Err(VaultError::ActiveVaultExists));
    assert_eq!(client.withdraw_mature(user, WEEK - 1), Err(VaultError::NotMatured));
    assert_eq!(client.claim_inheritance(beneficiary, user, WEEK), Err(VaultError::NotBeneficiary));
    assert_eq!(client.emergency_withdraw(user), Err(VaultError::EmergencyUnlockDisabled));
    assert_eq!(client.set_emergency_unlock(user, true), Err(VaultError::NotAdmin));
    assert_eq!(client.fund_bonus_pool(admin, 0), Err(VaultError::InvalidAmount));
    assert_eq!(client.extend_lock(user, 0, 0), Err(VaultError::InvalidLockPeriod));
    assert_eq!(client.extend_lock(user, 1, 0), Err(VaultError::UnsupportedLockPeriod));
    assert_eq!(client.early_withdraw(user, WEEK), Err(VaultError::AlreadyMatured));
    assert_eq!(client.extend_lock(acct(77), 1, 0), Err(VaultError::VaultNotFound));
    assert_eq!(client.set_beneficiary(acct(77), beneficiary), Err(VaultError::VaultNotFound));
    assert_eq!(client.quote_bonus_for_lock(WEEK, -5), Err(VaultError::InvalidAmount));
    assert_eq!(client.preview_mature_payout(user), Ok(10));
    assert_eq!(client.preview_mature_payout(acct(77)), Ok(0));
    assert!(client.is_mature(user, WEEK));
    assert!(!client.is_mature(user, WEEK - 1));
    assert_eq!(client.get_time_until_maturity(user, WEEK + 5), 0);

    let mut bare = RewardVaultContract::new(acct(900));
    assert_eq!(bare.deposit(user, 10, WEEK, 0), Err(VaultError::NotInitialized));
    assert_eq!(
        bare.initialize(admin, acct(5), 10_001, 0, vec![WEEK], vec![1]),
        Err(VaultError::InvalidPenalty)
    );
    assert_eq!(bare.initialize(admin, acct(5), 0, 0, vec![WEEK, 0], vec![1, 2]), Err(VaultError::InvalidLockPeriod));
    assert_eq!(bare.initialize(admin, acct(5), 0, 0, vec![], vec![]), Err(VaultError::InvalidLockOptions));
    assert!(bare.get_config().is_none());
}

#[test]
fn huge_bonus_reports_overflow() {
    let (mut client, _, user, _, _) = setup_vault_contract();
    client.deposit(user, i128::MAX / 1000, QUARTER, 0).unwrap();
    assert_eq!(client.withdraw_mature(user, QUARTER), Err(VaultError::ArithmeticOverflow));
    assert!(client.get_vault(user).is_some());
}
