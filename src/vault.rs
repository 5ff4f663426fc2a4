//! Time-locked reward vaults: an owner locks an amount for one of the offered
//! periods; at maturity it comes back with a bonus of `amount * bps / 10000`,
//! before maturity only with a penalty of `amount * penalty_bps / 10000` taken off.
use vstd::prelude::*;

use crate::common::{
    Address, BASIS_POINTS, Transfer, distinct, index_of, lemma_distinct_push, lemma_distinct_remove,
    lemma_index_of_unique, transfer_of,
};

verus! {

#[derive(Clone, Copy, Debug, PartialEq, Eq, Structural)]
pub struct LockOption {
    pub period: u64,
    pub bonus_bps: u32,
}

#[derive(Debug)]
pub struct VaultConfig {
    pub admin: Address,
    pub token: Address,
    pub early_withdraw_penalty_bps: u32,
    pub emergency_penalty_bps: u32,
    pub emergency_unlock_enabled: bool,
    pub lock_options: Vec<LockOption>,
}

#[derive(Clone, Copy, Debug, PartialEq, Eq)]
pub struct VaultPosition {
    pub owner: Address,
    pub amount: i128,
    pub lock_period: u64,
    pub bonus_bps: u32,
    pub deposited_at: u64,
    pub maturity_at: u64,
    pub beneficiary: Option<Address>,
}

#[derive(Clone, Copy, Debug, PartialEq, Eq, Structural)]
pub enum VaultError {
    AlreadyInitialized,
    NotInitialized,
    InvalidLockOptions,
    InvalidPenalty,
    InvalidLockPeriod,
    NotAdmin,
    InvalidAmount,
    ActiveVaultExists,
    UnsupportedLockPeriod,
    VaultNotFound,
    AlreadyMatured,
    NotMatured,
    EmergencyUnlockDisabled,
    NotBeneficiary,
    ArithmeticOverflow,
}

/// `bps` basis points of `amount`, rounded down.
pub open spec fn bps_of(amount: int, bps: int) -> int {
    amount * bps / 10000
}

/// The bonus rate of the first option for `period`, if one is offered.
pub open spec fn bonus_for(options: Seq<LockOption>, period: u64) -> Option<u32>
    decreases options.len(),
{
    if options.len() == 0 {
        None
    } else if options[0].period == period {
        Some(options[0].bonus_bps)
    } else {
        bonus_for(options.subrange(1, options.len() as int), period)
    }
}

pub open spec fn owners(vs: Seq<VaultPosition>) -> Seq<Address> {
    vs.map_values(|v: VaultPosition| v.owner)
}

/// Whether `bps` basis points of `amount` can be computed without overflow.
pub open spec fn bps_fits(amount: int, bps: int) -> bool {
    amount * bps <= i128::MAX
}

pub struct RewardVaultContract {
    pub address: Address,
    pub config: Option<VaultConfig>,
    pub vaults: Vec<VaultPosition>,
    pub transfers: Vec<Transfer>,
}

impl VaultConfig {
    pub open spec fn wf(&self) -> bool {
        &&& self.early_withdraw_penalty_bps <= 10000
        &&& self.emergency_penalty_bps <= 10000
        &&& self.lock_options@.len() > 0
        &&& forall|i: int| 0 <= i < self.lock_options@.len() ==> (#[trigger] self.lock_options@[i]).period > 0
    }
}

impl RewardVaultContract {
    pub open spec fn wf(&self) -> bool {
        &&& distinct(owners(self.vaults@))
        &&& forall|i: int|
            0 <= i < self.vaults@.len() ==> (#[trigger] self.vaults@[i]).amount > 0
                && self.vaults@[i].deposited_at <= self.vaults@[i].maturity_at
        &&& self.config matches Some(c) ==> c.wf()
    }

    pub open spec fn has_vault(&self, owner: Address) -> bool {
        owners(self.vaults@).contains(owner)
    }

    pub open spec fn slot(&self, owner: Address) -> int {
        index_of(owners(self.vaults@), owner)
    }

    pub open spec fn vault(&self, owner: Address) -> VaultPosition {
        self.vaults@[self.slot(owner)]
    }

    pub open spec fn token(&self) -> Address {
        self.config->0.token
    }

    /// The contract after `owner`'s vault has left it and `t` was decided on.
    pub open spec fn closed(pre: &RewardVaultContract, post: &RewardVaultContract, owner: Address, t: Transfer) -> bool {
        &&& post.address == pre.address
        &&& post.config == pre.config
        &&& post.vaults@ == pre.vaults@.remove(pre.slot(owner))
        &&& post.transfers@ == pre.transfers@.push(t)
    }

    pub fn new(address: Address) -> (r: RewardVaultContract)
        ensures
            r.wf(),
            r.address == address,
            r.config is None,
            r.vaults@.len() == 0,
            r.transfers@.len() == 0,
    {
        RewardVaultContract { address, config: None, vaults: Vec::new(), transfers: Vec::new() }
    }

    /// `bonus_bps` basis points of `amount`, rounded down.
    pub fn calculate_bonus(amount: i128, bonus_bps: u32) -> (r: i128)
        requires
            0 <= amount,
            bps_fits(amount as int, bonus_bps as int),
        ensures
            r == bps_of(amount as int, bonus_bps as int),
            0 <= r,
    {
        assert(0 <= amount * bonus_bps) by (nonlinear_arith)
            requires
                0 <= amount,
                0 <= bonus_bps,
        ;
        (amount * bonus_bps as i128) / BASIS_POINTS
    }

    /// `bps` basis points of `amount`, or `None` where the product overflows.
    fn checked_bps(amount: i128, bps: u32) -> (r: Option<i128>)
        requires
            0 <= amount,
        ensures
            bps_fits(amount as int, bps as int) ==> r == Some(bps_of(amount as int, bps as int) as i128),
            !bps_fits(amount as int, bps as int) ==> r is None,
            r matches Some(b) ==> 0 <= b,
    {
        match amount.checked_mul(bps as i128) {
            Some(_) => Some(Self::calculate_bonus(amount, bps)),
            None => None,
        }
    }

    /// The bonus rate offered for `lock_period`.
    pub fn bonus_for_lock_period(config: &VaultConfig, lock_period: u64) -> (r: Option<u32>)
        ensures
            r == bonus_for(config.lock_options@, lock_period),
    {
        let mut i: usize = 0;
        assert(config.lock_options@.subrange(0, config.lock_options@.len() as int) =~= config.lock_options@);
        while i < config.lock_options.len()
            invariant
                i <= config.lock_options@.len(),
                bonus_for(config.lock_options@, lock_period) == bonus_for(config.lock_options@.subrange(i as int, config.lock_options@.len() as int), lock_period),
            decreases config.lock_options@.len() - i,
        {
            let o = config.lock_options[i];
            let ghost rest = config.lock_options@.subrange(i as int, config.lock_options@.len() as int);
            assert(rest[0] == o);
            assert(rest.subrange(1, rest.len() as int) =~= config.lock_options@.subrange(i + 1, config.lock_options@.len() as int));
            assert(rest.len() > 0);
            if o.period == lock_period {
                assert(bonus_for(rest, lock_period) == Some(o.bonus_bps));
                return Some(o.bonus_bps);
            }
            i += 1;
        }
        None
    }

    /// Where `owner`'s vault stands.
    fn find_vault(&self, owner: Address) -> (r: Option<usize>)
        requires
            self.wf(),
        ensures
            self.has_vault(owner) <==> r is Some,
            self.has_vault(owner) ==> 0 <= self.slot(owner) < self.vaults@.len(),
            r matches Some(i) ==> i as int == self.slot(owner) && self.vaults@[i as int].owner == owner,
    {
        let mut i: usize = 0;
        while i < self.vaults.len()
            invariant
                self.wf(),
                i <= self.vaults@.len(),
                forall|k: int| 0 <= k < i ==> owners(self.vaults@)[k] != owner,
            decreases self.vaults@.len() - i,
        {
            if self.vaults[i].owner == owner {
                proof {
                    assert(owners(self.vaults@)[i as int] == owner);
                    lemma_index_of_unique(owners(self.vaults@), owner, i as int);
                }
                return Some(i);
            }
            i += 1;
        }
        proof {
            if owners(self.vaults@).contains(owner) {
                let k = choose|k: int| 0 <= k < owners(self.vaults@).len() && owners(self.vaults@)[k] == owner;
                assert(owners(self.vaults@)[k] == owner);
            }
        }
        None
    }

    /// The lock options built from the two parallel lists.
    pub open spec fn options_of(lock_periods: Seq<u64>, bonus_bps: Seq<u32>) -> Seq<LockOption> {
        Seq::new(lock_periods.len(), |i: int| LockOption { period: lock_periods[i], bonus_bps: bonus_bps[i] })
    }

    pub open spec fn initialize_error(
        &self,
        early_withdraw_penalty_bps: u32,
        emergency_penalty_bps: u32,
        lock_periods: Seq<u64>,
        bonus_bps: Seq<u32>,
    ) -> Option<VaultError> {
        if self.config is Some {
            Some(VaultError::AlreadyInitialized)
        } else if lock_periods.len() == 0 || lock_periods.len() != bonus_bps.len() {
            Some(VaultError::InvalidLockOptions)
        } else if early_withdraw_penalty_bps > 10000 || emergency_penalty_bps > 10000 {
            Some(VaultError::InvalidPenalty)
        } else if exists|i: int| 0 <= i < lock_periods.len() && #[trigger] lock_periods[i] == 0 {
            Some(VaultError::InvalidLockPeriod)
        } else {
            None
        }
    }

    /// Sets the vault's terms, once: the token, the two penalty rates and the
    /// offered lock periods with their bonus rates. Emergency unlock starts off.
    pub fn initialize(
        &mut self,
        admin: Address,
        token: Address,
        early_withdraw_penalty_bps: u32,
        emergency_penalty_bps: u32,
        lock_periods: Vec<u64>,
        bonus_bps: Vec<u32>,
    ) -> (r: Result<(), VaultError>)
        requires
            old(self).wf(),
        ensures
            final(self).wf(),
            match old(self).initialize_error(
                early_withdraw_penalty_bps,
                emergency_penalty_bps,
                lock_periods@,
                bonus_bps@,
            ) {
                Some(err) => r == Err::<(), VaultError>(err) && *final(self) == *old(self),
                None => {
                    &&& r is Ok
                    &&& final(self).address == old(self).address
                    &&& final(self).vaults@ == old(self).vaults@
                    &&& final(self).transfers@ == old(self).transfers@
                    &&& final(self).config matches Some(c) && {
                        &&& c.admin == admin
                        &&& c.token == token
                        &&& c.early_withdraw_penalty_bps == early_withdraw_penalty_bps
                        &&& c.emergency_penalty_bps == emergency_penalty_bps
                        &&& !c.emergency_unlock_enabled
                        &&& c.lock_options@ == Self::options_of(lock_periods@, bonus_bps@)
                    }
                },
            },
    {
        if self.config.is_some() {
            return Err(VaultError::AlreadyInitialized);
        }
        if lock_periods.len() == 0 || lock_periods.len() != bonus_bps.len() {
            return Err(VaultError::InvalidLockOptions);
        }
        if early_withdraw_penalty_bps > 10000 || emergency_penalty_bps > 10000 {
            return Err(VaultError::InvalidPenalty);
        }
        let mut lock_options: Vec<LockOption> = Vec::new();
        let mut i: usize = 0;
        while i < lock_periods.len()
            invariant
                i <= lock_periods@.len(),
                lock_periods@.len() == bonus_bps@.len(),
                lock_options@ == Self::options_of(lock_periods@, bonus_bps@).take(i as int),
                *self == *old(self),
                old(self).wf(),
                old(self).config is None,
                early_withdraw_penalty_bps <= 10000 && emergency_penalty_bps <= 10000,
                forall|k: int| 0 <= k < i ==> #[trigger] lock_periods@[k] > 0,
            decreases lock_periods@.len() - i,
        {
            let period = lock_periods[i];
            if period == 0 {
                assert(lock_periods@[i as int] == 0);
                return Err(VaultError::InvalidLockPeriod);
            }
            lock_options.push(LockOption { period, bonus_bps: bonus_bps[i] });
            i += 1;
            assert(lock_options@ =~= Self::options_of(lock_periods@, bonus_bps@).take(i as int));
        }
        assert(lock_options@ =~= Self::options_of(lock_periods@, bonus_bps@));
        self.config = Some(
            VaultConfig {
                admin,
                token,
                early_withdraw_penalty_bps,
                emergency_penalty_bps,
                emergency_unlock_enabled: false,
                lock_options,
            },
        );
        Ok(())
    }

    pub open spec fn admin_error(&self, user: Address) -> Option<VaultError> {
        if self.config is None {
            Some(VaultError::NotInitialized)
        } else if self.config->0.admin != user {
            Some(VaultError::NotAdmin)
        } else {
            None
        }
    }

    /// Checks that `user` is the configured admin.
    pub fn assert_admin(&self, user: Address) -> (r: Result<(), VaultError>)
        ensures
            match self.admin_error(user) {
                Some(err) => r == Err::<(), VaultError>(err),
                None => r is Ok,
            },
    {
        match &self.config {
            Some(c) => {
                if c.admin != user {
                    Err(VaultError::NotAdmin)
                } else {
                    Ok(())
                }
            },
            None => Err(VaultError::NotInitialized),
        }
    }

    /// The admin adds `amount` to the pool that bonuses are paid from.
    pub fn fund_bonus_pool(&mut self, admin: Address, amount: i128) -> (r: Result<(), VaultError>)
        requires
            old(self).wf(),
        ensures
            final(self).wf(),
            match old(self).admin_error(admin) {
                Some(err) => r == Err::<(), VaultError>(err) && *final(self) == *old(self),
                None => if amount <= 0 {
                    r == Err::<(), VaultError>(VaultError::InvalidAmount) && *final(self) == *old(self)
                } else {
                    &&& r is Ok
                    &&& final(self).address == old(self).address
                    &&& final(self).config == old(self).config
                    &&& final(self).vaults@ == old(self).vaults@
                    &&& final(self).transfers@ == old(self).transfers@.push(
                        transfer_of(old(self).token(), admin, old(self).address, amount as int),
                    )
                },
            },
    {
        match self.assert_admin(admin) {
            Ok(()) => {},
            Err(e) => {
                return Err(e);
            },
        }
        if amount <= 0 {
            return Err(VaultError::InvalidAmount);
        }
        let token = match &self.config {
            Some(c) => c.token,
            None => {
                return Err(VaultError::NotInitialized);
            },
        };
        self.transfers.push(Transfer { token, from: admin, to: self.address, amount });
        Ok(())
    }

    /// The admin turns the emergency exit on or off.
    pub fn set_emergency_unlock(&mut self, admin: Address, enabled: bool) -> (r: Result<(), VaultError>)
        requires
            old(self).wf(),
        ensures
            final(self).wf(),
            match old(self).admin_error(admin) {
                Some(err) => r == Err::<(), VaultError>(err) && *final(self) == *old(self),
                None => {
                    let c = old(self).config->0;
                    &&& r is Ok
                    &&& final(self).address == old(self).address
                    &&& final(self).vaults@ == old(self).vaults@
                    &&& final(self).transfers@ == old(self).transfers@
                    &&& final(self).config matches Some(d) && {
                        &&& d.admin == c.admin
                        &&& d.token == c.token
                        &&& d.early_withdraw_penalty_bps == c.early_withdraw_penalty_bps
                        &&& d.emergency_penalty_bps == c.emergency_penalty_bps
                        &&& d.emergency_unlock_enabled == enabled
                        &&& d.lock_options@ == c.lock_options@
                    }
                },
            },
    {
        match &mut self.config {
            Some(c) => {
                if c.admin != admin {
                    return Err(VaultError::NotAdmin);
                }
                c.emergency_unlock_enabled = enabled;
                Ok(())
            },
            None => Err(VaultError::NotInitialized),
        }
    }

    pub open spec fn deposit_error(&self, owner: Address, amount: i128, lock_period: u64, now: u64) -> Option<VaultError> {
        if amount <= 0 {
            Some(VaultError::InvalidAmount)
        } else if self.has_vault(owner) {
            Some(VaultError::ActiveVaultExists)
        } else if self.config is None {
            Some(VaultError::NotInitialized)
        } else if bonus_for(self.config->0.lock_options@, lock_period) is None {
            Some(VaultError::UnsupportedLockPeriod)
        } else if now + lock_period > u64::MAX {
            Some(VaultError::ArithmeticOverflow)
        } else {
            None
        }
    }

    /// Locks `amount` for `lock_period`, at that period's bonus rate.
    pub fn deposit(&mut self, owner: Address, amount: i128, lock_period: u64, now: u64) -> (r: Result<(), VaultError>)
        requires
            old(self).wf(),
        ensures
            final(self).wf(),
            match old(self).deposit_error(owner, amount, lock_period, now) {
                Some(err) => r == Err::<(), VaultError>(err) && *final(self) == *old(self),
                None => {
                    &&& r is Ok
                    &&& final(self).address == old(self).address
                    &&& final(self).config == old(self).config
                    &&& final(self).vaults@ == old(self).vaults@.push(
                        VaultPosition {
                            owner,
                            amount,
                            lock_period,
                            bonus_bps: bonus_for(old(self).config->0.lock_options@, lock_period)->0,
                            deposited_at: now,
                            maturity_at: (now + lock_period) as u64,
                            beneficiary: None,
                        },
                    )
                    &&& final(self).transfers@ == old(self).transfers@.push(
                        transfer_of(old(self).token(), owner, old(self).address, amount as int),
                    )
                },
            },
    {
        if amount <= 0 {
            return Err(VaultError::InvalidAmount);
        }
        if self.find_vault(owner).is_some() {
            return Err(VaultError::ActiveVaultExists);
        }
        let (bonus, token) = match &self.config {
            Some(c) => match Self::bonus_for_lock_period(c, lock_period) {
                Some(b) => (b, c.token),
                None => {
                    return Err(VaultError::UnsupportedLockPeriod);
                },
            },
            None => {
                return Err(VaultError::NotInitialized);
            },
        };
        if lock_period > u64::MAX - now {
            return Err(VaultError::ArithmeticOverflow);
        }
        let v = VaultPosition {
            owner,
            amount,
            lock_period,
            bonus_bps: bonus,
            deposited_at: now,
            maturity_at: now + lock_period,
            beneficiary: None,
        };
        proof {
            lemma_distinct_push(owners(self.vaults@), owner);
            assert(owners(self.vaults@.push(v)) =~= owners(self.vaults@).push(owner));
        }
        self.vaults.push(v);
        self.transfers.push(Transfer { token, from: owner, to: self.address, amount });
        Ok(())
    }

    /// Names who may claim `owner`'s vault at maturity.
    pub fn set_beneficiary(&mut self, owner: Address, beneficiary: Address) -> (r: Result<(), VaultError>)
        requires
            old(self).wf(),
        ensures
            final(self).wf(),
            !old(self).has_vault(owner) ==> r == Err::<(), VaultError>(VaultError::VaultNotFound)
                && *final(self) == *old(self),
            old(self).has_vault(owner) ==> {
                &&& r is Ok
                &&& final(self).address == old(self).address
                &&& final(self).config == old(self).config
                &&& final(self).transfers@ == old(self).transfers@
                &&& final(self).vaults@ == old(self).vaults@.update(
                    old(self).slot(owner),
                    VaultPosition { beneficiary: Some(beneficiary), ..old(self).vault(owner) },
                )
            },
    {
        let i = match self.find_vault(owner) {
            Some(i) => i,
            None => {
                return Err(VaultError::VaultNotFound);
            },
        };
        let mut v = self.vaults[i];
        v.beneficiary = Some(beneficiary);
        self.vaults.set(i, v);
        proof {
            assert(owners(self.vaults@) =~= owners(old(self).vaults@));
            assert(old(self).has_vault(owner));
            assert(v == VaultPosition { beneficiary: Some(beneficiary), ..old(self).vault(owner) });
        }
        Ok(())
    }

    pub open spec fn extend_error(&self, owner: Address, additional_lock_period: u64, now: u64) -> Option<VaultError> {
        let v = self.vault(owner);
        let new_total = v.maturity_at - v.deposited_at + additional_lock_period;
        if additional_lock_period == 0 {
            Some(VaultError::InvalidLockPeriod)
        } else if self.config is None {
            Some(VaultError::NotInitialized)
        } else if !self.has_vault(owner) {
            Some(VaultError::VaultNotFound)
        } else if now >= v.maturity_at {
            Some(VaultError::AlreadyMatured)
        } else if v.maturity_at + additional_lock_period > u64::MAX {
            Some(VaultError::ArithmeticOverflow)
        } else if bonus_for(self.config->0.lock_options@, new_total as u64) is None {
            Some(VaultError::UnsupportedLockPeriod)
        } else {
            None
        }
    }

    /// Lengthens an unmatured lock; the bonus rate becomes the one offered for
    /// the new total period.
    pub fn extend_lock(&mut self, owner: Address, additional_lock_period: u64, now: u64) -> (r: Result<
        (),
        VaultError,
    >)
        requires
            old(self).wf(),
        ensures
            final(self).wf(),
            match old(self).extend_error(owner, additional_lock_period, now) {
                Some(err) => r == Err::<(), VaultError>(err) && *final(self) == *old(self),
                None => {
                    let v = old(self).vault(owner);
                    let new_total = (v.maturity_at - v.deposited_at + additional_lock_period) as u64;
                    &&& r is Ok
                    &&& final(self).address == old(self).address
                    &&& final(self).config == old(self).config
                    &&& final(self).transfers@ == old(self).transfers@
                    &&& final(self).vaults@ == old(self).vaults@.update(
                        old(self).slot(owner),
                        VaultPosition {
                            lock_period: new_total,
                            bonus_bps: bonus_for(old(self).config->0.lock_options@, new_total)->0,
                            maturity_at: (v.maturity_at + additional_lock_period) as u64,
                            ..v
                        },
                    )
                },
            },
    {
        if additional_lock_period == 0 {
            return Err(VaultError::InvalidLockPeriod);
        }
        if self.config.is_none() {
            return Err(VaultError::NotInitialized);
        }
        let i = match self.find_vault(owner) {
            Some(i) => i,
            None => {
                return Err(VaultError::VaultNotFound);
            },
        };
        let mut v = self.vaults[i];
        if now >= v.maturity_at {
            return Err(VaultError::AlreadyMatured);
        }
        if additional_lock_period > u64::MAX - v.maturity_at {
            return Err(VaultError::ArithmeticOverflow);
        }
        let new_total = v.maturity_at - v.deposited_at + additional_lock_period;
        let bonus = match &self.config {
            Some(c) => match Self::bonus_for_lock_period(c, new_total) {
                Some(b) => b,
                None => {
                    return Err(VaultError::UnsupportedLockPeriod);
                },
            },
            None => {
                return Err(VaultError::NotInitialized);
            },
        };
        v.lock_period = new_total;
        v.bonus_bps = bonus;
        v.maturity_at = v.maturity_at + additional_lock_period;
        self.vaults.set(i, v);
        proof {
            assert(owners(self.vaults@) =~= owners(old(self).vaults@));
        }
        Ok(())
    }

    /// What a matured vault pays: the amount and its bonus.
    pub open spec fn mature_payout(v: VaultPosition) -> int {
        v.amount + bps_of(v.amount as int, v.bonus_bps as int)
    }

    pub open spec fn payout_fits(v: VaultPosition) -> bool {
        bps_fits(v.amount as int, v.bonus_bps as int) && Self::mature_payout(v) <= i128::MAX
    }

    pub open spec fn mature_error(&self, owner: Address, now: u64) -> Option<VaultError> {
        if !self.has_vault(owner) {
            Some(VaultError::VaultNotFound)
        } else if now < self.vault(owner).maturity_at {
            Some(VaultError::NotMatured)
        } else if !Self::payout_fits(self.vault(owner)) {
            Some(VaultError::ArithmeticOverflow)
        } else if self.config is None {
            Some(VaultError::NotInitialized)
        } else {
            None
        }
    }

    /// The payout of `v` at maturity, or `None` where it overflows.
    fn checked_mature_payout(v: &VaultPosition) -> (r: Option<i128>)
        requires
            v.amount > 0,
        ensures
            Self::payout_fits(*v) ==> r == Some(Self::mature_payout(*v) as i128),
            !Self::payout_fits(*v) ==> r is None,
    {
        match Self::checked_bps(v.amount, v.bonus_bps) {
            Some(bonus) => {
                if v.amount > i128::MAX - bonus {
                    None
                } else {
                    Some(v.amount + bonus)
                }
            },
            None => None,
        }
    }

    /// Removes the vault at `i` and pays `payout` from custody to `to`.
    fn close_vault(&mut self, i: usize, to: Address, payout: i128)
        requires
            old(self).wf(),
            old(self).config is Some,
            i < old(self).vaults@.len(),
        ensures
            final(self).wf(),
            final(self).address == old(self).address,
            final(self).config == old(self).config,
            final(self).vaults@ == old(self).vaults@.remove(i as int),
            final(self).transfers@ == old(self).transfers@.push(
                transfer_of(old(self).token(), old(self).address, to, payout as int),
            ),
    {
        let token = self.config.as_ref().unwrap().token;
        proof {
            lemma_distinct_remove(owners(self.vaults@), i as int);
            assert(owners(self.vaults@.remove(i as int)) =~= owners(self.vaults@).remove(i as int));
        }
        self.vaults.remove(i);
        self.transfers.push(Transfer { token, from: self.address, to, amount: payout });
    }

    /// Pays a matured vault, amount and bonus, to `to` and closes it.
    fn pay_mature(&mut self, owner: Address, to: Address, now: u64) -> (r: Result<i128, VaultError>)
        requires
            old(self).wf(),
        ensures
            final(self).wf(),
            match old(self).mature_error(owner, now) {
                Some(err) => r == Err::<i128, VaultError>(err) && *final(self) == *old(self),
                None => {
                    let payout = Self::mature_payout(old(self).vault(owner));
                    &&& r == Ok::<i128, VaultError>(payout as i128)
                    &&& Self::closed(
                        old(self),
                        final(self),
                        owner,
                        transfer_of(old(self).token(), old(self).address, to, payout),
                    )
                },
            },
    {
        let i = match self.find_vault(owner) {
            Some(i) => i,
            None => {
                return Err(VaultError::VaultNotFound);
            },
        };
        let v = self.vaults[i];
        if now < v.maturity_at {
            return Err(VaultError::NotMatured);
        }
        let payout = match Self::checked_mature_payout(&v) {
            Some(p) => p,
            None => {
                return Err(VaultError::ArithmeticOverflow);
            },
        };
        if self.config.is_none() {
            return Err(VaultError::NotInitialized);
        }
        self.close_vault(i, to, payout);
        Ok(payout)
    }

    /// The owner takes a matured vault out, with its bonus.
    pub fn withdraw_mature(&mut self, owner: Address, now: u64) -> (r: Result<i128, VaultError>)
        requires
            old(self).wf(),
        ensures
            final(self).wf(),
            match old(self).mature_error(owner, now) {
                Some(err) => r == Err::<i128, VaultError>(err) && *final(self) == *old(self),
                None => {
                    let payout = Self::mature_payout(old(self).vault(owner));
                    &&& r == Ok::<i128, VaultError>(payout as i128)
                    &&& Self::closed(
                        old(self),
                        final(self),
                        owner,
                        transfer_of(old(self).token(), old(self).address, owner, payout),
                    )
                },
            },
    {
        self.pay_mature(owner, owner, now)
    }

    /// Anyone may have a matured vault paid out to its owner.
    pub fn distribute_mature_payout(&mut self, owner: Address, now: u64) -> (r: Result<i128, VaultError>)
        requires
            old(self).wf(),
        ensures
            final(self).wf(),
            match old(self).mature_error(owner, now) {
                Some(err) => r == Err::<i128, VaultError>(err) && *final(self) == *old(self),
                None => {
                    let payout = Self::mature_payout(old(self).vault(owner));
                    &&& r == Ok::<i128, VaultError>(payout as i128)
                    &&& Self::closed(
                        old(self),
                        final(self),
                        owner,
                        transfer_of(old(self).token(), old(self).address, owner, payout),
                    )
                },
            },
    {
        self.pay_mature(owner, owner, now)
    }

    /// The named beneficiary takes a matured vault out, with its bonus.
    pub fn claim_inheritance(&mut self, beneficiary: Address, owner: Address, now: u64) -> (r: Result<
        i128,
        VaultError,
    >)
        requires
            old(self).wf(),
        ensures
            final(self).wf(),
            old(self).has_vault(owner) && now >= old(self).vault(owner).maturity_at && old(self).vault(
                owner,
            ).beneficiary != Some(beneficiary) ==> r == Err::<i128, VaultError>(VaultError::NotBeneficiary)
                && *final(self) == *old(self),
            !(old(self).has_vault(owner) && now >= old(self).vault(owner).maturity_at && old(self).vault(
                owner,
            ).beneficiary != Some(beneficiary)) ==> match old(self).mature_error(owner, now) {
                Some(err) => r == Err::<i128, VaultError>(err) && *final(self) == *old(self),
                None => {
                    let payout = Self::mature_payout(old(self).vault(owner));
                    &&& r == Ok::<i128, VaultError>(payout as i128)
                    &&& Self::closed(
                        old(self),
                        final(self),
                        owner,
                        transfer_of(old(self).token(), old(self).address, beneficiary, payout),
                    )
                },
            },
    {
        match self.find_vault(owner) {
            Some(i) => {
                let v = self.vaults[i];
                if now >= v.maturity_at {
                    let named = match v.beneficiary {
                        Some(b) => b == beneficiary,
                        None => false,
                    };
                    if !named {
                        return Err(VaultError::NotBeneficiary);
                    }
                }
            },
            None => {},
        }
        self.pay_mature(owner, beneficiary, now)
    }

    /// What leaving with a `penalty_bps` penalty pays for `v`, where it fits.
    pub open spec fn penalized(v: VaultPosition, penalty_bps: u32) -> int {
        v.amount - bps_of(v.amount as int, penalty_bps as int)
    }

    /// Removes the vault at `i`, paying its amount less `penalty_bps` to its owner.
    fn exit_with_penalty(&mut self, i: usize, penalty_bps: u32) -> (r: Result<i128, VaultError>)
        requires
            old(self).wf(),
            old(self).config is Some,
            i < old(self).vaults@.len(),
            penalty_bps <= 10000,
        ensures
            final(self).wf(),
            !bps_fits(old(self).vaults@[i as int].amount as int, penalty_bps as int) ==> r == Err::<
                i128,
                VaultError,
            >(VaultError::ArithmeticOverflow) && *final(self) == *old(self),
            bps_fits(old(self).vaults@[i as int].amount as int, penalty_bps as int) ==> {
                let v = old(self).vaults@[i as int];
                let payout = Self::penalized(v, penalty_bps);
                &&& r == Ok::<i128, VaultError>(payout as i128)
                &&& final(self).address == old(self).address
                &&& final(self).config == old(self).config
                &&& final(self).vaults@ == old(self).vaults@.remove(i as int)
                &&& final(self).transfers@ == old(self).transfers@.push(
                    transfer_of(old(self).token(), old(self).address, v.owner, payout),
                )
            },
    {
        let v = self.vaults[i];
        let penalty = match Self::checked_bps(v.amount, penalty_bps) {
            Some(p) => p,
            None => {
                return Err(VaultError::ArithmeticOverflow);
            },
        };
        assert(penalty <= v.amount) by (nonlinear_arith)
            requires
                penalty == v.amount * penalty_bps / 10000,
                v.amount > 0,
                penalty_bps >= 0,
                penalty_bps <= 10000,
        {
            assert(v.amount * penalty_bps <= v.amount * 10000) by (nonlinear_arith)
                requires
                    v.amount > 0,
                    penalty_bps <= 10000,
            ;
        }
        let payout = v.amount - penalty;
        self.close_vault(i, v.owner, payout);
        Ok(payout)
    }

    pub open spec fn early_error(&self, owner: Address, now: u64) -> Option<VaultError> {
        if !self.has_vault(owner) {
            Some(VaultError::VaultNotFound)
        } else if now >= self.vault(owner).maturity_at {
            Some(VaultError::AlreadyMatured)
        } else if self.config is None {
            Some(VaultError::NotInitialized)
        } else if !bps_fits(self.vault(owner).amount as int, self.config->0.early_withdraw_penalty_bps as int) {
            Some(VaultError::ArithmeticOverflow)
        } else {
            None
        }
    }

    /// The owner leaves before maturity and forfeits the early-withdrawal penalty.
    pub fn early_withdraw(&mut self, owner: Address, now: u64) -> (r: Result<i128, VaultError>)
        requires
            old(self).wf(),
        ensures
            final(self).wf(),
            match old(self).early_error(owner, now) {
                Some(err) => r == Err::<i128, VaultError>(err) && *final(self) == *old(self),
                None => {
                    let payout = Self::penalized(
                        old(self).vault(owner),
                        old(self).config->0.early_withdraw_penalty_bps,
                    );
                    &&& r == Ok::<i128, VaultError>(payout as i128)
                    &&& Self::closed(
                        old(self),
                        final(self),
                        owner,
                        transfer_of(old(self).token(), old(self).address, owner, payout),
                    )
                },
            },
    {
        let i = match self.find_vault(owner) {
            Some(i) => i,
            None => {
                return Err(VaultError::VaultNotFound);
            },
        };
        if now >= self.vaults[i].maturity_at {
            return Err(VaultError::AlreadyMatured);
        }
        let bps = match &self.config {
            Some(c) => c.early_withdraw_penalty_bps,
            None => {
                return Err(VaultError::NotInitialized);
            },
        };
        self.exit_with_penalty(i, bps)
    }

    pub open spec fn emergency_error(&self, owner: Address) -> Option<VaultError> {
        if !self.has_vault(owner) {
            Some(VaultError::VaultNotFound)
        } else if self.config is None {
            Some(VaultError::NotInitialized)
        } else if !self.config->0.emergency_unlock_enabled {
            Some(VaultError::EmergencyUnlockDisabled)
        } else if !bps_fits(self.vault(owner).amount as int, self.config->0.emergency_penalty_bps as int) {
            Some(VaultError::ArithmeticOverflow)
        } else {
            None
        }
    }

    /// While the admin has emergency unlock on, the owner leaves at any time and
    /// forfeits the emergency penalty.
    pub fn emergency_withdraw(&mut self, owner: Address) -> (r: Result<i128, VaultError>)
        requires
            old(self).wf(),
        ensures
            final(self).wf(),
            match old(self).emergency_error(owner) {
                Some(err) => r == Err::<i128, VaultError>(err) && *final(self) == *old(self),
                None => {
                    let payout = Self::penalized(old(self).vault(owner), old(self).config->0.emergency_penalty_bps);
                    &&& r == Ok::<i128, VaultError>(payout as i128)
                    &&& Self::closed(
                        old(self),
                        final(self),
                        owner,
                        transfer_of(old(self).token(), old(self).address, owner, payout),
                    )
                },
            },
    {
        let i = match self.find_vault(owner) {
            Some(i) => i,
            None => {
                return Err(VaultError::VaultNotFound);
            },
        };
        let bps = match &self.config {
            Some(c) => {
                if !c.emergency_unlock_enabled {
                    return Err(VaultError::EmergencyUnlockDisabled);
                }
                c.emergency_penalty_bps
            },
            None => {
                return Err(VaultError::NotInitialized);
            },
        };
        self.exit_with_penalty(i, bps)
    }

    /// The vault's terms, once set.
    pub fn get_config(&self) -> (r: Option<&VaultConfig>)
        ensures
            r is Some == self.config is Some,
            r matches Some(c) ==> *c == self.config->0,
    {
        match &self.config {
            Some(c) => Some(c),
            None => None,
        }
    }

    /// `owner`'s vault, if there is one.
    pub fn get_vault(&self, owner: Address) -> (r: Option<VaultPosition>)
        requires
            self.wf(),
        ensures
            self.has_vault(owner) ==> r == Some(self.vault(owner)),
            !self.has_vault(owner) ==> r is None,
    {
        match self.find_vault(owner) {
            Some(i) => Some(self.vaults[i]),
            None => None,
        }
    }

    /// Whether `owner` has a vault that has matured by `now`.
    pub fn is_mature(&self, owner: Address, now: u64) -> (r: bool)
        requires
            self.wf(),
        ensures
            r == (self.has_vault(owner) && now >= self.vault(owner).maturity_at),
    {
        match self.find_vault(owner) {
            Some(i) => now >= self.vaults[i].maturity_at,
            None => false,
        }
    }

    /// How long until `owner`'s vault matures; zero when matured or absent.
    pub fn get_time_until_maturity(&self, owner: Address, now: u64) -> (r: u64)
        requires
            self.wf(),
        ensures
            self.has_vault(owner) && now < self.vault(owner).maturity_at ==> r == self.vault(owner).maturity_at
                - now,
            !(self.has_vault(owner) && now < self.vault(owner).maturity_at) ==> r == 0,
    {
        match self.find_vault(owner) {
            Some(i) => {
                let m = self.vaults[i].maturity_at;
                if now >= m {
                    0
                } else {
                    m - now
                }
            },
            None => 0,
        }
    }

    /// What `owner`'s vault would pay at maturity; zero without a vault.
    pub fn preview_mature_payout(&self, owner: Address) -> (r: Result<i128, VaultError>)
        requires
            self.wf(),
        ensures
            !self.has_vault(owner) ==> r == Ok::<i128, VaultError>(0),
            self.has_vault(owner) && Self::payout_fits(self.vault(owner)) ==> r == Ok::<i128, VaultError>(
                Self::mature_payout(self.vault(owner)) as i128,
            ),
            self.has_vault(owner) && !Self::payout_fits(self.vault(owner)) ==> r == Err::<i128, VaultError>(
                VaultError::ArithmeticOverflow,
            ),
    {
        match self.find_vault(owner) {
            Some(i) => match Self::checked_mature_payout(&self.vaults[i]) {
                Some(p) => Ok(p),
                None => Err(VaultError::ArithmeticOverflow),
            },
            None => Ok(0),
        }
    }

    /// The bonus that `amount` would earn locked for `lock_period`.
    pub fn quote_bonus_for_lock(&self, lock_period: u64, amount: i128) -> (r: Result<i128, VaultError>)
        ensures
            amount <= 0 ==> r == Err::<i128, VaultError>(VaultError::InvalidAmount),
            amount > 0 && self.config is None ==> r == Err::<i128, VaultError>(VaultError::NotInitialized),
            amount > 0 && self.config is Some ==> match bonus_for(self.config->0.lock_options@, lock_period) {
                None => r == Err::<i128, VaultError>(VaultError::UnsupportedLockPeriod),
                Some(bps) => if bps_fits(amount as int, bps as int) {
                    r == Ok::<i128, VaultError>(bps_of(amount as int, bps as int) as i128)
                } else {
                    r == Err::<i128, VaultError>(VaultError::ArithmeticOverflow)
                },
            },
    {
        if amount <= 0 {
            return Err(VaultError::InvalidAmount);
        }
        match &self.config {
            Some(c) => match Self::bonus_for_lock_period(c, lock_period) {
                Some(bps) => match Self::checked_bps(amount, bps) {
                    Some(b) => Ok(b),
                    None => Err(VaultError::ArithmeticOverflow),
                },
                None => Err(VaultError::UnsupportedLockPeriod),
            },
            None => Err(VaultError::NotInitialized),
        }
    }
}

} // verus!
