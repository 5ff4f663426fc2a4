//! Multi-party conditional escrow: every listed party pays in its obligation, the
//! pot is held in custody, and it leaves again by release (equal split among the
//! parties), by refund (each party gets back its own deposit) or by arbitration.
//!
//! Accounting rules chosen here:
//! - `pot` is what the agreement still holds; `paid_out` is what has left it.
//!   `pot == sum(deposited) - paid_out` holds in every state.
//! - An equal split pays `amount / n` to each of the `n` parties; the indivisible
//!   remainder stays in the pot and is not swept anywhere.
//! - A refund returns every deposit in full, so it is refused (`InvalidState`)
//!   once any amount has been released.
use vstd::prelude::*;

use crate::common::{
    Address, Transfer, all_distinct, distinct, find_address, index_of, lemma_index_of,
    lemma_index_of_unique, lemma_sum_bounded, lemma_sum_push, lemma_sum_update, lemma_total_push,
    sum_of, total_of, transfer_of,
};

verus! {

#[derive(Clone, Copy, Debug, PartialEq, Eq, Structural)]
pub enum EscrowState {
    Created,
    Active,
    Released,
    Refunded,
    Disputed,
    Cancelled,
}

/// A rule under which the parties' approvals release the pot.
#[derive(Clone, Copy, Debug, PartialEq, Eq, Structural)]
pub enum ReleaseCondition {
    AllPartiesApprove,
    MajorityApprove,
    ArbitratorApprove,
}

#[derive(Clone, Copy, Debug, PartialEq, Eq, Structural)]
pub enum DisputeResolution {
    Release,
    Refund,
}

#[derive(Clone, Copy, Debug, PartialEq, Eq, Structural)]
pub enum EscrowError {
    EscrowNotFound,
    InvalidState,
    InvalidParties,
    NotParty,
    AmountMismatch,
    AlreadyDeposited,
    Unauthorized,
    NoArbitrator,
    TimeoutNotReached,
    InsufficientFunds,
}

/// One escrow agreement.
#[derive(Debug)]
pub struct EscrowData {
    pub id: u32,
    pub creator: Address,
    pub parties: Vec<Address>,
    pub token: Address,
    /// What each party owes, by position in `parties`.
    pub amounts: Vec<i128>,
    /// What each party has paid in so far.
    pub deposited: Vec<i128>,
    pub approvals: Vec<bool>,
    pub state: EscrowState,
    pub conditions: Vec<ReleaseCondition>,
    pub arbitrator: Option<Address>,
    /// The time from which a timeout refund is allowed.
    pub timeout: u64,
    pub created_at: u64,
    /// What the agreement holds in custody.
    pub pot: i128,
    /// What has left custody.
    pub paid_out: i128,
}

/// The number of `true` entries.
pub open spec fn approved_count(a: Seq<bool>) -> int
    decreases a.len(),
{
    if a.len() == 0 {
        0
    } else {
        approved_count(a.drop_last()) + if a.last() {
            1int
        } else {
            0int
        }
    }
}

pub open spec fn condition_met(c: ReleaseCondition, approvals: Seq<bool>) -> bool {
    match c {
        ReleaseCondition::AllPartiesApprove => forall|i: int|
            0 <= i < approvals.len() ==> #[trigger] approvals[i],
        ReleaseCondition::MajorityApprove => approved_count(approvals) > approvals.len() / 2,
        ReleaseCondition::ArbitratorApprove => false,
    }
}

pub open spec fn all_deposited(d: Seq<i128>) -> bool {
    forall|i: int| 0 <= i < d.len() ==> #[trigger] d[i] > 0
}

/// A deadline `duration` after `now`, capped at the largest time.
pub open spec fn deadline_after(now: u64, duration: u64) -> u64 {
    if now + duration <= u64::MAX {
        (now + duration) as u64
    } else {
        u64::MAX
    }
}

/// Whether the terms of a new agreement are acceptable.
pub open spec fn valid_terms(parties: Seq<Address>, amounts: Seq<i128>) -> bool {
    &&& parties.len() > 0
    &&& amounts.len() == parties.len()
    &&& forall|i: int| 0 <= i < amounts.len() ==> #[trigger] amounts[i] > 0
    &&& sum_of(amounts) <= i128::MAX
    &&& distinct(parties)
}

/// Each party gets `amount / n`, in the parties' order.
pub open spec fn equal_split(parties: Seq<Address>, token: Address, from: Address, amount: int) -> Seq<
    Transfer,
> {
    Seq::new(
        parties.len(),
        |i: int| transfer_of(token, from, parties[i], amount / (parties.len() as int)),
    )
}

/// What an equal split of `amount` among `n` pays out in all.
pub open spec fn split_total(amount: int, n: int) -> int {
    n * (amount / n)
}

/// Each party that deposited something gets its deposit back, in the parties' order.
pub open spec fn refunds(parties: Seq<Address>, deposited: Seq<i128>, token: Address, from: Address) -> Seq<
    Transfer,
>
    decreases parties.len(),
{
    if parties.len() == 0 || deposited.len() == 0 {
        seq![]
    } else {
        let rest = refunds(parties.drop_last(), deposited.drop_last(), token, from);
        if deposited.last() > 0 {
            rest.push(transfer_of(token, from, parties.last(), deposited.last() as int))
        } else {
            rest
        }
    }
}

/// An equal split pays each party the floor of its share and never more than the
/// amount; what is left is less than one unit per party.
pub proof fn lemma_equal_split_within(amount: int, n: int)
    requires
        n > 0,
        amount >= 0,
    ensures
        0 <= split_total(amount, n) <= amount,
        amount - split_total(amount, n) < n,
        amount / n >= 0,
{
    assert(0 <= n * (amount / n) <= amount) by (nonlinear_arith)
        requires
            n > 0,
            amount >= 0,
    ;
    assert(amount - n * (amount / n) < n) by (nonlinear_arith)
        requires
            n > 0,
            amount >= 0,
    ;
    assert(amount / n >= 0) by (nonlinear_arith)
        requires
            n > 0,
            amount >= 0,
    ;
}

proof fn lemma_refunds_total(parties: Seq<Address>, deposited: Seq<i128>, token: Address, from: Address)
    requires
        parties.len() == deposited.len(),
        forall|i: int| 0 <= i < deposited.len() ==> 0 <= #[trigger] deposited[i],
    ensures
        total_of(refunds(parties, deposited, token, from)) == sum_of(deposited),
    decreases parties.len(),
{
    if parties.len() > 0 {
        lemma_refunds_total(parties.drop_last(), deposited.drop_last(), token, from);
        let rest = refunds(parties.drop_last(), deposited.drop_last(), token, from);
        if deposited.last() > 0 {
            lemma_total_push(rest, transfer_of(token, from, parties.last(), deposited.last() as int));
        }
    }
}

impl EscrowData {
    /// The agreement's invariant.
    pub open spec fn wf(&self) -> bool {
        let n = self.parties@.len();
        &&& valid_terms(self.parties@, self.amounts@)
        &&& self.deposited@.len() == n
        &&& self.approvals@.len() == n
        &&& forall|i: int| 0 <= i < n ==> 0 <= #[trigger] self.deposited@[i] <= self.amounts@[i]
        &&& self.paid_out >= 0
        &&& self.pot >= 0
        &&& self.pot == sum_of(self.deposited@) - self.paid_out
    }

    /// The fields that no transition changes.
    pub open spec fn same_terms(&self, other: &EscrowData) -> bool {
        &&& self.id == other.id
        &&& self.creator == other.creator
        &&& self.parties@ == other.parties@
        &&& self.token == other.token
        &&& self.amounts@ == other.amounts@
        &&& self.conditions@ == other.conditions@
        &&& self.arbitrator == other.arbitrator
        &&& self.timeout == other.timeout
        &&& self.created_at == other.created_at
    }

    pub open spec fn total_obligation(&self) -> int {
        sum_of(self.amounts@)
    }

    /// Whether some configured release condition is met by the approvals.
    pub open spec fn release_policy_met(&self) -> bool {
        exists|k: int|
            0 <= k < self.conditions@.len() && condition_met(
                #[trigger] self.conditions@[k],
                self.approvals@,
            )
    }

    pub open spec fn may_release(&self, releaser: Address) -> bool {
        self.arbitrator == Some(releaser) || self.release_policy_met()
    }

    pub open spec fn party_slot(&self, who: Address) -> int {
        index_of(self.parties@, who)
    }

    /// The outcome of an equal split of `amount` from `pre` to `post`: the
    /// transfers `ts`, and the pot and payout totals moved by what they pay.
    pub open spec fn settled(pre: EscrowData, post: EscrowData, amount: int, custody: Address, ts: Seq<Transfer>) -> bool {
        let paid = split_total(amount, pre.parties@.len() as int);
        &&& ts == equal_split(pre.parties@, pre.token, custody, amount)
        &&& total_of(ts) == paid
        &&& post.pot == pre.pot - paid
        &&& post.paid_out == pre.paid_out + paid
    }

    /// Every deposit handed back: the transfers `ts`, an empty pot.
    pub open spec fn refunded(pre: EscrowData, post: EscrowData, custody: Address, ts: Seq<Transfer>) -> bool {
        &&& ts == refunds(pre.parties@, pre.deposited@, pre.token, custody)
        &&& total_of(ts) == pre.pot
        &&& post.pot == 0
        &&& post.paid_out == pre.paid_out + pre.pot
    }

    /// `e` is a freshly opened agreement on these terms.
    pub open spec fn opened(
        e: EscrowData,
        id: u32,
        creator: Address,
        parties: Seq<Address>,
        token: Address,
        amounts: Seq<i128>,
        conditions: Seq<ReleaseCondition>,
        arbitrator: Option<Address>,
        timeout: u64,
        now: u64,
    ) -> bool {
        &&& e.wf()
        &&& e.id == id
        &&& e.creator == creator
        &&& e.parties@ == parties
        &&& e.token == token
        &&& e.amounts@ == amounts
        &&& e.deposited@ == Seq::new(parties.len(), |i: int| 0i128)
        &&& e.approvals@ == Seq::new(parties.len(), |i: int| false)
        &&& e.state == EscrowState::Created
        &&& e.conditions@ == conditions
        &&& e.arbitrator == arbitrator
        &&& e.timeout == deadline_after(now, timeout)
        &&& e.created_at == now
        &&& e.pot == 0
        &&& e.paid_out == 0
    }

    /// Opens an agreement: no deposits, no approvals, no funds moved.
    pub fn open(
        id: u32,
        creator: Address,
        parties: Vec<Address>,
        token: Address,
        amounts: Vec<i128>,
        conditions: Vec<ReleaseCondition>,
        arbitrator: Option<Address>,
        timeout: u64,
        now: u64,
    ) -> (r: Result<EscrowData, EscrowError>)
        ensures
            !valid_terms(parties@, amounts@) ==> r == Err::<EscrowData, EscrowError>(
                EscrowError::InvalidParties,
            ),
            valid_terms(parties@, amounts@) ==> r is Ok,
            r matches Ok(e) ==> Self::opened(
                e,
                id,
                creator,
                parties@,
                token,
                amounts@,
                conditions@,
                arbitrator,
                timeout,
                now,
            ),
    {
        let n = parties.len();
        if n == 0 || amounts.len() != n {
            return Err(EscrowError::InvalidParties);
        }
        let mut total: i128 = 0;
        let mut i: usize = 0;
        while i < n
            invariant
                n == amounts@.len(),
                i <= n,
                total == sum_of(amounts@.take(i as int)),
                forall|k: int| 0 <= k < i ==> #[trigger] amounts@[k] > 0,
                0 <= total,
            decreases n - i,
        {
            let a = amounts[i];
            proof {
                assert(amounts@.take(i + 1).drop_last() =~= amounts@.take(i as int));
            }
            if a <= 0 {
                return Err(EscrowError::InvalidParties);
            }
            if total > i128::MAX - a {
                proof {
                    assert(amounts@.take(i + 1) =~= amounts@.take(i as int).push(a));
                    lemma_sum_push(amounts@.take(i as int), a);
                    if forall|k: int| 0 <= k < n ==> #[trigger] amounts@[k] > 0 {
                        lemma_prefix_sum_le(amounts@, i + 1);
                    }
                }
                return Err(EscrowError::InvalidParties);
            }
            total = total + a;
            i += 1;
        }
        assert(amounts@.take(n as int) =~= amounts@);
        if !all_distinct(&parties) {
            return Err(EscrowError::InvalidParties);
        }
        let mut deposited: Vec<i128> = Vec::new();
        let mut approvals: Vec<bool> = Vec::new();
        let mut j: usize = 0;
        while j < n
            invariant
                j <= n,
                deposited@ == Seq::new(j as nat, |k: int| 0i128),
                approvals@ == Seq::new(j as nat, |k: int| false),
                sum_of(deposited@) == 0,
            decreases n - j,
        {
            proof {
                lemma_sum_push(deposited@, 0);
            }
            deposited.push(0);
            approvals.push(false);
            j += 1;
            assert(deposited@ =~= Seq::new(j as nat, |k: int| 0i128));
            assert(approvals@ =~= Seq::new(j as nat, |k: int| false));
        }
        let deadline = if timeout <= u64::MAX - now {
            now + timeout
        } else {
            u64::MAX
        };
        Ok(
            EscrowData {
                id,
                creator,
                parties,
                token,
                amounts,
                deposited,
                approvals,
                state: EscrowState::Created,
                conditions,
                arbitrator,
                timeout: deadline,
                created_at: now,
                pot: 0,
                paid_out: 0,
            },
        )
    }
}

impl EscrowData {
    /// Why a deposit of `amount` by `depositor` is refused, if it is.
    pub open spec fn deposit_error(&self, depositor: Address, amount: i128) -> Option<EscrowError> {
        if !(self.state == EscrowState::Created || self.state == EscrowState::Active) {
            Some(EscrowError::InvalidState)
        } else if !self.parties@.contains(depositor) {
            Some(EscrowError::NotParty)
        } else if self.amounts@[self.party_slot(depositor)] != amount {
            Some(EscrowError::AmountMismatch)
        } else if self.deposited@[self.party_slot(depositor)] > 0 {
            Some(EscrowError::AlreadyDeposited)
        } else {
            None
        }
    }

    pub open spec fn deposit_post(
        pre: EscrowData,
        post: EscrowData,
        depositor: Address,
        amount: i128,
        custody: Address,
        r: Result<Vec<Transfer>, EscrowError>,
    ) -> bool {
        match pre.deposit_error(depositor, amount) {
            Some(err) => r == Err::<Vec<Transfer>, EscrowError>(err) && post == pre,
            None => {
                &&& r matches Ok(ts) && ts@ == seq![transfer_of(pre.token, depositor, custody, amount as int)]
                &&& post.same_terms(&pre)
                &&& post.deposited@ == pre.deposited@.update(pre.party_slot(depositor), amount)
                &&& post.approvals@ == pre.approvals@
                &&& post.pot == pre.pot + amount
                &&& post.paid_out == pre.paid_out
                &&& post.state == if all_deposited(post.deposited@) {
                    EscrowState::Active
                } else {
                    pre.state
                }
            },
        }
    }

    /// A party pays in its obligation, once; when every party has paid, the
    /// agreement becomes active.
    pub fn deposit(&mut self, depositor: Address, amount: i128, custody: Address) -> (r: Result<
        Vec<Transfer>,
        EscrowError,
    >)
        requires
            old(self).wf(),
        ensures
            final(self).wf(),
            Self::deposit_post(*old(self), *final(self), depositor, amount, custody, r),
    {
        if !(self.state == EscrowState::Created || self.state == EscrowState::Active) {
            return Err(EscrowError::InvalidState);
        }
        let idx = match find_address(&self.parties, depositor) {
            Some(i) => i,
            None => {
                return Err(EscrowError::NotParty);
            },
        };
        proof {
            lemma_index_of_unique(self.parties@, depositor, idx as int);
        }
        if self.amounts[idx] != amount {
            return Err(EscrowError::AmountMismatch);
        }
        if self.deposited[idx] > 0 {
            return Err(EscrowError::AlreadyDeposited);
        }
        proof {
            lemma_sum_update(self.deposited@, idx as int, amount);
            let after = self.deposited@.update(idx as int, amount);
            lemma_sum_bounded(after, self.amounts@);
        }
        self.deposited.set(idx, amount);
        self.pot = self.pot + amount;
        let mut everyone: bool = true;
        let mut k: usize = 0;
        while k < self.deposited.len()
            invariant
                k <= self.deposited@.len(),
                everyone == (forall|j: int| 0 <= j < k ==> #[trigger] self.deposited@[j] > 0),
            decreases self.deposited@.len() - k,
        {
            if self.deposited[k] <= 0 {
                everyone = false;
            }
            k += 1;
        }
        if everyone {
            self.state = EscrowState::Active;
        }
        let mut ts: Vec<Transfer> = Vec::new();
        ts.push(Transfer { token: self.token, from: depositor, to: custody, amount });
        proof {
            assert(ts@ =~= seq![transfer_of(self.token, depositor, custody, amount as int)]);
        }
        Ok(ts)
    }
}

/// How many approvals have been given.
pub fn count_approvals(approvals: &Vec<bool>) -> (r: usize)
    ensures
        r == approved_count(approvals@),
{
    let mut count: usize = 0;
    let mut i: usize = 0;
    while i < approvals.len()
        invariant
            i <= approvals@.len(),
            count == approved_count(approvals@.take(i as int)),
            count <= i,
        decreases approvals@.len() - i,
    {
        proof {
            assert(approvals@.take(i + 1).drop_last() =~= approvals@.take(i as int));
        }
        if approvals[i] {
            count += 1;
        }
        i += 1;
    }
    assert(approvals@.take(i as int) =~= approvals@);
    count
}

impl EscrowData {
    /// Whether a configured release condition is met.
    pub fn check_release_conditions(&self) -> (r: bool)
        ensures
            r == self.release_policy_met(),
    {
        let mut i: usize = 0;
        while i < self.conditions.len()
            invariant
                i <= self.conditions@.len(),
                forall|k: int| 0 <= k < i ==> !condition_met(#[trigger] self.conditions@[k], self.approvals@),
            decreases self.conditions@.len() - i,
        {
            let met = match self.conditions[i] {
                ReleaseCondition::AllPartiesApprove => {
                    let mut all: bool = true;
                    let mut j: usize = 0;
                    while j < self.approvals.len()
                        invariant
                            j <= self.approvals@.len(),
                            all == (forall|k: int| 0 <= k < j ==> #[trigger] self.approvals@[k]),
                        decreases self.approvals@.len() - j,
                    {
                        if !self.approvals[j] {
                            all = false;
                        }
                        j += 1;
                    }
                    all
                },
                ReleaseCondition::MajorityApprove => {
                    count_approvals(&self.approvals) > self.approvals.len() / 2
                },
                ReleaseCondition::ArbitratorApprove => false,
            };
            if met {
                assert(condition_met(self.conditions@[i as int], self.approvals@));
                return true;
            }
            i += 1;
        }
        false
    }

    /// Whether `releaser` may release: the arbitrator always may, anyone once
    /// a release condition is met.
    pub fn can_release(&self, releaser: Address) -> (r: bool)
        ensures
            r == self.may_release(releaser),
    {
        if let Some(arbitrator) = self.arbitrator {
            if releaser == arbitrator {
                return true;
            }
        }
        self.check_release_conditions()
    }

    /// The equal-split transfers of `amount` from custody to the parties.
    pub fn distribute_funds(&self, amount: i128, custody: Address) -> (r: Vec<Transfer>)
        requires
            self.wf(),
            0 <= amount,
        ensures
            r@ == equal_split(self.parties@, self.token, custody, amount as int),
            total_of(r@) == split_total(amount as int, self.parties@.len() as int),
    {
        let n = self.parties.len();
        proof {
            lemma_equal_split_within(amount as int, n as int);
        }
        let per_party = amount / (n as i128);
        let mut ts: Vec<Transfer> = Vec::new();
        let mut i: usize = 0;
        while i < n
            invariant
                n == self.parties@.len(),
                n > 0,
                per_party == (amount as int) / (n as int),
                per_party >= 0,
                i <= n,
                ts@ == equal_split(self.parties@, self.token, custody, amount as int).take(i as int),
                total_of(ts@) == i * per_party,
            decreases n - i,
        {
            let t = Transfer { token: self.token, from: custody, to: self.parties[i], amount: per_party };
            proof {
                lemma_total_push(ts@, t);
                assert((i + 1) * per_party == i * per_party + per_party) by (nonlinear_arith);
            }
            ts.push(t);
            i += 1;
            assert(ts@ =~= equal_split(self.parties@, self.token, custody, amount as int).take(i as int));
        }
        assert(ts@ =~= equal_split(self.parties@, self.token, custody, amount as int));
        ts
    }

    /// Hands every deposit back to its party.
    pub fn refund_all(&self, custody: Address) -> (r: Vec<Transfer>)
        requires
            self.wf(),
        ensures
            r@ == refunds(self.parties@, self.deposited@, self.token, custody),
            total_of(r@) == sum_of(self.deposited@),
    {
        let n = self.parties.len();
        let mut ts: Vec<Transfer> = Vec::new();
        let mut i: usize = 0;
        while i < n
            invariant
                n == self.parties@.len(),
                n == self.deposited@.len(),
                i <= n,
                ts@ == refunds(self.parties@.take(i as int), self.deposited@.take(i as int), self.token, custody),
            decreases n - i,
        {
            proof {
                assert(self.parties@.take(i + 1).drop_last() =~= self.parties@.take(i as int));
                assert(self.deposited@.take(i + 1).drop_last() =~= self.deposited@.take(i as int));
            }
            let d = self.deposited[i];
            if d > 0 {
                ts.push(Transfer { token: self.token, from: custody, to: self.parties[i], amount: d });
            }
            i += 1;
        }
        proof {
            assert(self.parties@.take(n as int) =~= self.parties@);
            assert(self.deposited@.take(n as int) =~= self.deposited@);
            lemma_refunds_total(self.parties@, self.deposited@, self.token, custody);
        }
        ts
    }

    /// Pays out an equal split of `amount` from the pot.
    fn settle_equal(&mut self, amount: i128, custody: Address) -> (r: Vec<Transfer>)
        requires
            old(self).wf(),
            0 <= amount <= old(self).pot,
        ensures
            final(self).wf(),
            Self::settled(*old(self), *final(self), amount as int, custody, r@),
            final(self).same_terms(old(self)),
            final(self).deposited@ == old(self).deposited@,
            final(self).approvals@ == old(self).approvals@,
            final(self).state == old(self).state,
    {
        let ts = self.distribute_funds(amount, custody);
        proof {
            lemma_equal_split_within(amount as int, self.parties@.len() as int);
        }
        let n = self.parties.len() as i128;
        let per_party = amount / n;
        assert(per_party * n == split_total(amount as int, n as int)) by (nonlinear_arith)
            requires
                per_party == (amount as int) / (n as int),
        ;
        let paid = per_party * n;
        proof {
            lemma_sum_bounded(self.deposited@, self.amounts@);
        }
        self.pot = self.pot - paid;
        self.paid_out = self.paid_out + paid;
        ts
    }

    pub open spec fn approve_error(&self, approver: Address) -> Option<EscrowError> {
        if self.state != EscrowState::Active {
            Some(EscrowError::InvalidState)
        } else if !self.parties@.contains(approver) {
            Some(EscrowError::NotParty)
        } else {
            None
        }
    }

    pub open spec fn approve_post(
        pre: EscrowData,
        post: EscrowData,
        approver: Address,
        custody: Address,
        r: Result<Vec<Transfer>, EscrowError>,
    ) -> bool {
        match pre.approve_error(approver) {
            Some(err) => r == Err::<Vec<Transfer>, EscrowError>(err) && post == pre,
            None => {
                &&& post.same_terms(&pre)
                &&& post.deposited@ == pre.deposited@
                &&& post.approvals@ == pre.approvals@.update(pre.party_slot(approver), true)
                &&& r matches Ok(ts) && if post.release_policy_met() {
                    &&& Self::settled(pre, post, pre.pot as int, custody, ts@)
                    &&& post.state == EscrowState::Released
                } else {
                    &&& ts@ == Seq::<Transfer>::empty()
                    &&& post.pot == pre.pot
                    &&& post.paid_out == pre.paid_out
                    &&& post.state == pre.state
                }
            },
        }
    }

    /// Records a party's approval; once the release policy is met, the whole pot
    /// is released at once by equal split.
    pub fn approve(&mut self, approver: Address, custody: Address) -> (r: Result<Vec<Transfer>, EscrowError>)
        requires
            old(self).wf(),
        ensures
            final(self).wf(),
            Self::approve_post(*old(self), *final(self), approver, custody, r),
    {
        if self.state != EscrowState::Active {
            return Err(EscrowError::InvalidState);
        }
        let idx = match find_address(&self.parties, approver) {
            Some(i) => i,
            None => {
                return Err(EscrowError::NotParty);
            },
        };
        proof {
            lemma_index_of_unique(self.parties@, approver, idx as int);
        }
        self.approvals.set(idx, true);
        if self.check_release_conditions() {
            let pot = self.pot;
            let ts = self.settle_equal(pot, custody);
            self.state = EscrowState::Released;
            Ok(ts)
        } else {
            Ok(Vec::new())
        }
    }

    /// The amount a release asks for: the given part, or the whole pot.
    pub open spec fn release_amount(&self, partial_amount: Option<i128>) -> i128 {
        match partial_amount {
            Some(a) => a,
            None => self.pot,
        }
    }

    pub open spec fn release_error(&self, releaser: Address, partial_amount: Option<i128>) -> Option<EscrowError> {
        let amount = self.release_amount(partial_amount);
        if self.state != EscrowState::Active {
            Some(EscrowError::InvalidState)
        } else if !self.may_release(releaser) {
            Some(EscrowError::Unauthorized)
        } else if amount < 0 || amount > self.total_obligation() {
            Some(EscrowError::AmountMismatch)
        } else if amount > self.pot {
            Some(EscrowError::InsufficientFunds)
        } else {
            None
        }
    }

    pub open spec fn release_post(
        pre: EscrowData,
        post: EscrowData,
        releaser: Address,
        partial_amount: Option<i128>,
        custody: Address,
        r: Result<Vec<Transfer>, EscrowError>,
    ) -> bool {
        match pre.release_error(releaser, partial_amount) {
            Some(err) => r == Err::<Vec<Transfer>, EscrowError>(err) && post == pre,
            None => {
                let amount = pre.release_amount(partial_amount);
                &&& r matches Ok(ts) && Self::settled(pre, post, amount as int, custody, ts@)
                &&& post.same_terms(&pre)
                &&& post.deposited@ == pre.deposited@
                &&& post.approvals@ == pre.approvals@
                &&& post.state == if amount == pre.pot {
                    EscrowState::Released
                } else {
                    EscrowState::Active
                }
            },
        }
    }

    /// Releases `partial_amount`, or the whole pot, by equal split. Releasing the
    /// whole pot ends the agreement; a part leaves it active.
    pub fn release(&mut self, releaser: Address, partial_amount: Option<i128>, custody: Address) -> (r: Result<
        Vec<Transfer>,
        EscrowError,
    >)
        requires
            old(self).wf(),
        ensures
            final(self).wf(),
            Self::release_post(*old(self), *final(self), releaser, partial_amount, custody, r),
    {
        if self.state != EscrowState::Active {
            return Err(EscrowError::InvalidState);
        }
        if !self.can_release(releaser) {
            return Err(EscrowError::Unauthorized);
        }
        let total = sum_amounts(&self.amounts);
        let amount = match partial_amount {
            Some(a) => a,
            None => self.pot,
        };
        if amount < 0 || amount > total {
            return Err(EscrowError::AmountMismatch);
        }
        if amount > self.pot {
            return Err(EscrowError::InsufficientFunds);
        }
        let whole = amount == self.pot;
        let ts = self.settle_equal(amount, custody);
        if whole {
            self.state = EscrowState::Released;
        }
        Ok(ts)
    }

    pub open spec fn dispute_error(&self, disputer: Address) -> Option<EscrowError> {
        if self.state != EscrowState::Active {
            Some(EscrowError::InvalidState)
        } else if !self.parties@.contains(disputer) {
            Some(EscrowError::NotParty)
        } else if self.arbitrator is None {
            Some(EscrowError::NoArbitrator)
        } else {
            None
        }
    }

    pub open spec fn dispute_post(pre: EscrowData, post: EscrowData, disputer: Address, r: Result<(), EscrowError>) -> bool {
        match pre.dispute_error(disputer) {
            Some(err) => r == Err::<(), EscrowError>(err) && post == pre,
            None => {
                &&& r is Ok
                &&& post.same_terms(&pre)
                &&& post.deposited@ == pre.deposited@
                &&& post.approvals@ == pre.approvals@
                &&& post.pot == pre.pot
                &&& post.paid_out == pre.paid_out
                &&& post.state == EscrowState::Disputed
            },
        }
    }

    /// A party halts the agreement for the arbitrator to decide.
    pub fn dispute(&mut self, disputer: Address) -> (r: Result<(), EscrowError>)
        requires
            old(self).wf(),
        ensures
            final(self).wf(),
            Self::dispute_post(*old(self), *final(self), disputer, r),
    {
        if self.state != EscrowState::Active {
            return Err(EscrowError::InvalidState);
        }
        if !crate::common::contains_address(&self.parties, disputer) {
            return Err(EscrowError::NotParty);
        }
        if self.arbitrator.is_none() {
            return Err(EscrowError::NoArbitrator);
        }
        self.state = EscrowState::Disputed;
        Ok(())
    }

    pub open spec fn resolve_error(&self, arbitrator: Address, resolution: DisputeResolution) -> Option<EscrowError> {
        if self.state != EscrowState::Disputed {
            Some(EscrowError::InvalidState)
        } else if self.arbitrator != Some(arbitrator) {
            Some(EscrowError::Unauthorized)
        } else if resolution == DisputeResolution::Refund && self.paid_out != 0 {
            Some(EscrowError::InvalidState)
        } else {
            None
        }
    }

    pub open spec fn resolve_post(
        pre: EscrowData,
        post: EscrowData,
        arbitrator: Address,
        resolution: DisputeResolution,
        custody: Address,
        r: Result<Vec<Transfer>, EscrowError>,
    ) -> bool {
        match pre.resolve_error(arbitrator, resolution) {
            Some(err) => r == Err::<Vec<Transfer>, EscrowError>(err) && post == pre,
            None => {
                &&& post.same_terms(&pre)
                &&& post.deposited@ == pre.deposited@
                &&& post.approvals@ == pre.approvals@
                &&& r matches Ok(ts) && match resolution {
                    DisputeResolution::Release => Self::settled(pre, post, pre.pot as int, custody, ts@)
                        && post.state == EscrowState::Released,
                    DisputeResolution::Refund => Self::refunded(pre, post, custody, ts@)
                        && post.state == EscrowState::Refunded,
                }
            },
        }
    }

    /// The arbitrator ends a dispute: release the whole pot, or refund every deposit.
    pub fn resolve_dispute(&mut self, arbitrator: Address, resolution: DisputeResolution, custody: Address) -> (r: Result<
        Vec<Transfer>,
        EscrowError,
    >)
        requires
            old(self).wf(),
        ensures
            final(self).wf(),
            Self::resolve_post(*old(self), *final(self), arbitrator, resolution, custody, r),
    {
        if self.state != EscrowState::Disputed {
            return Err(EscrowError::InvalidState);
        }
        match self.arbitrator {
            Some(a) => {
                if a != arbitrator {
                    return Err(EscrowError::Unauthorized);
                }
            },
            None => {
                return Err(EscrowError::Unauthorized);
            },
        }
        match resolution {
            DisputeResolution::Release => {
                let pot = self.pot;
                let ts = self.settle_equal(pot, custody);
                self.state = EscrowState::Released;
                Ok(ts)
            },
            DisputeResolution::Refund => {
                if self.paid_out != 0 {
                    return Err(EscrowError::InvalidState);
                }
                let ts = self.refund_all(custody);
                self.take_refund(EscrowState::Refunded);
                Ok(ts)
            },
        }
    }

    /// Books a full refund: the pot leaves custody and the agreement ends in `end`.
    fn take_refund(&mut self, end: EscrowState)
        requires
            old(self).wf(),
        ensures
            final(self).wf(),
            final(self).same_terms(old(self)),
            final(self).deposited@ == old(self).deposited@,
            final(self).approvals@ == old(self).approvals@,
            final(self).pot == 0,
            final(self).paid_out == old(self).paid_out + old(self).pot,
            final(self).state == end,
    {
        proof {
            lemma_sum_bounded(self.deposited@, self.amounts@);
        }
        self.paid_out = self.paid_out + self.pot;
        self.pot = 0;
        self.state = end;
    }

    pub open spec fn refund_timeout_error(&self, now: u64) -> Option<EscrowError> {
        if self.state != EscrowState::Active {
            Some(EscrowError::InvalidState)
        } else if now < self.timeout {
            Some(EscrowError::TimeoutNotReached)
        } else if self.paid_out != 0 {
            Some(EscrowError::InvalidState)
        } else {
            None
        }
    }

    pub open spec fn refund_timeout_post(
        pre: EscrowData,
        post: EscrowData,
        now: u64,
        custody: Address,
        r: Result<Vec<Transfer>, EscrowError>,
    ) -> bool {
        match pre.refund_timeout_error(now) {
            Some(err) => r == Err::<Vec<Transfer>, EscrowError>(err) && post == pre,
            None => {
                &&& post.same_terms(&pre)
                &&& post.deposited@ == pre.deposited@
                &&& post.approvals@ == pre.approvals@
                &&& r matches Ok(ts) && Self::refunded(pre, post, custody, ts@)
                &&& post.state == EscrowState::Refunded
            },
        }
    }

    /// Once the deadline has come, anyone may have every deposit handed back.
    pub fn refund_timeout(&mut self, now: u64, custody: Address) -> (r: Result<Vec<Transfer>, EscrowError>)
        requires
            old(self).wf(),
        ensures
            final(self).wf(),
            Self::refund_timeout_post(*old(self), *final(self), now, custody, r),
    {
        if self.state != EscrowState::Active {
            return Err(EscrowError::InvalidState);
        }
        if now < self.timeout {
            return Err(EscrowError::TimeoutNotReached);
        }
        if self.paid_out != 0 {
            return Err(EscrowError::InvalidState);
        }
        let ts = self.refund_all(custody);
        self.take_refund(EscrowState::Refunded);
        Ok(ts)
    }

    pub open spec fn cancel_error(&self, caller: Address, now: u64) -> Option<EscrowError> {
        if caller != self.creator {
            Some(EscrowError::Unauthorized)
        } else if !(self.state == EscrowState::Created || (self.state == EscrowState::Active && now
            >= self.timeout)) {
            Some(EscrowError::InvalidState)
        } else if self.paid_out != 0 {
            Some(EscrowError::InvalidState)
        } else {
            None
        }
    }

    pub open spec fn cancel_post(
        pre: EscrowData,
        post: EscrowData,
        caller: Address,
        now: u64,
        custody: Address,
        r: Result<Vec<Transfer>, EscrowError>,
    ) -> bool {
        match pre.cancel_error(caller, now) {
            Some(err) => r == Err::<Vec<Transfer>, EscrowError>(err) && post == pre,
            None => {
                &&& post.same_terms(&pre)
                &&& post.deposited@ == pre.deposited@
                &&& post.approvals@ == pre.approvals@
                &&& r matches Ok(ts) && Self::refunded(pre, post, custody, ts@)
                &&& post.state == EscrowState::Cancelled
            },
        }
    }

    /// The creator calls the agreement off, before it is active or once its
    /// deadline has come; every deposit made so far is handed back.
    pub fn cancel(&mut self, caller: Address, now: u64, custody: Address) -> (r: Result<Vec<Transfer>, EscrowError>)
        requires
            old(self).wf(),
        ensures
            final(self).wf(),
            Self::cancel_post(*old(self), *final(self), caller, now, custody, r),
    {
        if caller != self.creator {
            return Err(EscrowError::Unauthorized);
        }
        let open_now = self.state == EscrowState::Created || (self.state == EscrowState::Active && now
            >= self.timeout);
        if !open_now {
            return Err(EscrowError::InvalidState);
        }
        if self.paid_out != 0 {
            return Err(EscrowError::InvalidState);
        }
        let ts = self.refund_all(custody);
        self.take_refund(EscrowState::Cancelled);
        Ok(ts)
    }
}

/// The total of all obligations.
pub fn sum_amounts(amounts: &Vec<i128>) -> (r: i128)
    requires
        forall|i: int| 0 <= i < amounts@.len() ==> #[trigger] amounts@[i] > 0,
        sum_of(amounts@) <= i128::MAX,
    ensures
        r == sum_of(amounts@),
{
    let mut total: i128 = 0;
    let mut i: usize = 0;
    while i < amounts.len()
        invariant
            i <= amounts@.len(),
            total == sum_of(amounts@.take(i as int)),
            forall|k: int| 0 <= k < amounts@.len() ==> #[trigger] amounts@[k] > 0,
            sum_of(amounts@) <= i128::MAX,
        decreases amounts@.len() - i,
    {
        proof {
            assert(amounts@.take(i + 1).drop_last() =~= amounts@.take(i as int));
            lemma_prefix_sum_le(amounts@, i + 1);
            lemma_sum_bounded(amounts@.take(i as int), amounts@.take(i as int));
        }
        total = total + amounts[i];
        i += 1;
    }
    assert(amounts@.take(i as int) =~= amounts@);
    total
}

/// The escrow contract's storage: agreements by id (id `k` at position `k - 1`)
/// and the contract's own address, which holds the funds in custody.
#[derive(Debug)]
pub struct EscrowContract {
    pub address: Address,
    pub escrows: Vec<EscrowData>,
}

impl EscrowContract {
    pub open spec fn wf(&self) -> bool {
        forall|i: int|
            0 <= i < self.escrows@.len() ==> (#[trigger] self.escrows@[i]).wf() && self.escrows@[i].id
                == i + 1
    }

    pub open spec fn has_escrow(&self, id: u32) -> bool {
        1 <= id <= self.escrows@.len()
    }

    pub open spec fn escrow(&self, id: u32) -> EscrowData {
        self.escrows@[id - 1]
    }

    /// Only the agreement `id` may have changed.
    pub open spec fn others_kept(&self, pre: &EscrowContract, id: u32) -> bool {
        &&& self.address == pre.address
        &&& self.escrows@.len() == pre.escrows@.len()
        &&& forall|j: int| 0 <= j < self.escrows@.len() && j != id - 1 ==> #[trigger] self.escrows@[j] == pre.escrows@[j]
    }

    pub fn new(address: Address) -> (r: EscrowContract)
        ensures
            r.wf(),
            r.address == address,
            r.escrows@.len() == 0,
    {
        EscrowContract { address, escrows: Vec::new() }
    }

    /// The id the next agreement will get.
    pub fn get_next_escrow_id(&self) -> (r: u32)
        requires
            self.escrows@.len() < u32::MAX,
        ensures
            r == self.escrows@.len() + 1,
    {
        (self.escrows.len() + 1) as u32
    }

    /// Opens an agreement under the next id.
    pub fn create_escrow(
        &mut self,
        creator: Address,
        parties: Vec<Address>,
        token: Address,
        amounts: Vec<i128>,
        conditions: Vec<ReleaseCondition>,
        arbitrator: Option<Address>,
        timeout: u64,
        now: u64,
    ) -> (r: Result<u32, EscrowError>)
        requires
            old(self).wf(),
            old(self).escrows@.len() < u32::MAX,
        ensures
            final(self).wf(),
            !valid_terms(parties@, amounts@) ==> r == Err::<u32, EscrowError>(EscrowError::InvalidParties)
                && *final(self) == *old(self),
            valid_terms(parties@, amounts@) ==> {
                &&& r == Ok::<u32, EscrowError>((old(self).escrows@.len() + 1) as u32)
                &&& final(self).address == old(self).address
                &&& final(self).escrows@.len() == old(self).escrows@.len() + 1
                &&& final(self).escrows@.drop_last() == old(self).escrows@
                &&& EscrowData::opened(
                    final(self).escrows@.last(),
                    (old(self).escrows@.len() + 1) as u32,
                    creator,
                    parties@,
                    token,
                    amounts@,
                    conditions@,
                    arbitrator,
                    timeout,
                    now,
                )
            },
    {
        let id = self.get_next_escrow_id();
        match EscrowData::open(id, creator, parties, token, amounts, conditions, arbitrator, timeout, now) {
            Ok(e) => {
                self.escrows.push(e);
                assert(self.escrows@.drop_last() =~= old(self).escrows@);
                Ok(id)
            },
            Err(err) => Err(err),
        }
    }

    /// A party pays in its obligation; see [`EscrowData::deposit`].
    pub fn deposit(&mut self, depositor: Address, escrow_id: u32, amount: i128) -> (r: Result<
        Vec<Transfer>,
        EscrowError,
    >)
        requires
            old(self).wf(),
        ensures
            final(self).wf(),
            !old(self).has_escrow(escrow_id) ==> r == Err::<Vec<Transfer>, EscrowError>(
                EscrowError::EscrowNotFound,
            ) && *final(self) == *old(self),
            old(self).has_escrow(escrow_id) ==> final(self).others_kept(old(self), escrow_id)
                && EscrowData::deposit_post(
                old(self).escrow(escrow_id),
                final(self).escrow(escrow_id),
                depositor,
                amount,
                old(self).address,
                r,
            ),
    {
        if escrow_id == 0 || escrow_id as usize > self.escrows.len() {
            return Err(EscrowError::EscrowNotFound);
        }
        let idx = (escrow_id - 1) as usize;
        let custody = self.address;
        let r = self.escrows[idx].deposit(depositor, amount, custody);
        assert forall|j: int| 0 <= j < self.escrows@.len() implies (#[trigger] self.escrows@[j]).wf()
            && self.escrows@[j].id == j + 1 by {
            if j != idx {
                assert(self.escrows@[j] == old(self).escrows@[j]);
            }
        }
        r
    }

    /// A party approves; see [`EscrowData::approve`].
    pub fn approve(&mut self, approver: Address, escrow_id: u32) -> (r: Result<Vec<Transfer>, EscrowError>)
        requires
            old(self).wf(),
        ensures
            final(self).wf(),
            !old(self).has_escrow(escrow_id) ==> r == Err::<Vec<Transfer>, EscrowError>(
                EscrowError::EscrowNotFound,
            ) && *final(self) == *old(self),
            old(self).has_escrow(escrow_id) ==> final(self).others_kept(old(self), escrow_id)
                && EscrowData::approve_post(old(self).escrow(escrow_id), final(self).escrow(escrow_id), approver, old(self).address, r),
    {
        if escrow_id == 0 || escrow_id as usize > self.escrows.len() {
            return Err(EscrowError::EscrowNotFound);
        }
        let idx = (escrow_id - 1) as usize;
        let custody = self.address;
        let r = self.escrows[idx].approve(approver, custody);
        assert forall|j: int| 0 <= j < self.escrows@.len() implies (#[trigger] self.escrows@[j]).wf()
            && self.escrows@[j].id == j + 1 by {
            if j != idx {
                assert(self.escrows@[j] == old(self).escrows@[j]);
            }
        }
        r
    }

    /// Releases all or part of the pot; see [`EscrowData::release`].
    pub fn release(&mut self, releaser: Address, escrow_id: u32, partial_amount: Option<i128>) -> (r: Result<Vec<Transfer>, EscrowError>)
        requires
            old(self).wf(),
        ensures
            final(self).wf(),
            !old(self).has_escrow(escrow_id) ==> r == Err::<Vec<Transfer>, EscrowError>(
                EscrowError::EscrowNotFound,
            ) && *final(self) == *old(self),
            old(self).has_escrow(escrow_id) ==> final(self).others_kept(old(self), escrow_id)
                && EscrowData::release_post(old(self).escrow(escrow_id), final(self).escrow(escrow_id), releaser, partial_amount, old(self).address, r),
    {
        if escrow_id == 0 || escrow_id as usize > self.escrows.len() {
            return Err(EscrowError::EscrowNotFound);
        }
        let idx = (escrow_id - 1) as usize;
        let custody = self.address;
        let r = self.escrows[idx].release(releaser, partial_amount, custody);
        assert forall|j: int| 0 <= j < self.escrows@.len() implies (#[trigger] self.escrows@[j]).wf()
            && self.escrows@[j].id == j + 1 by {
            if j != idx {
                assert(self.escrows@[j] == old(self).escrows@[j]);
            }
        }
        r
    }

    /// The arbitrator settles a dispute; see [`EscrowData::resolve_dispute`].
    pub fn resolve_dispute(&mut self, arbitrator: Address, escrow_id: u32, resolution: DisputeResolution) -> (r: Result<Vec<Transfer>, EscrowError>)
        requires
            old(self).wf(),
        ensures
            final(self).wf(),
            !old(self).has_escrow(escrow_id) ==> r == Err::<Vec<Transfer>, EscrowError>(
                EscrowError::EscrowNotFound,
            ) && *final(self) == *old(self),
            old(self).has_escrow(escrow_id) ==> final(self).others_kept(old(self), escrow_id)
                && EscrowData::resolve_post(old(self).escrow(escrow_id), final(self).escrow(escrow_id), arbitrator, resolution, old(self).address, r),
    {
        if escrow_id == 0 || escrow_id as usize > self.escrows.len() {
            return Err(EscrowError::EscrowNotFound);
        }
        let idx = (escrow_id - 1) as usize;
        let custody = self.address;
        let r = self.escrows[idx].resolve_dispute(arbitrator, resolution, custody);
        assert forall|j: int| 0 <= j < self.escrows@.len() implies (#[trigger] self.escrows@[j]).wf()
            && self.escrows@[j].id == j + 1 by {
            if j != idx {
                assert(self.escrows@[j] == old(self).escrows@[j]);
            }
        }
        r
    }

    /// A party raises a dispute; see [`EscrowData::dispute`]. The reason is for
    /// the record only.
    pub fn dispute(&mut self, disputer: Address, escrow_id: u32, reason: &str) -> (r: Result<(), EscrowError>)
        requires
            old(self).wf(),
        ensures
            final(self).wf(),
            !old(self).has_escrow(escrow_id) ==> r == Err::<(), EscrowError>(EscrowError::EscrowNotFound)
                && *final(self) == *old(self),
            old(self).has_escrow(escrow_id) ==> final(self).others_kept(old(self), escrow_id)
                && EscrowData::dispute_post(old(self).escrow(escrow_id), final(self).escrow(escrow_id), disputer, r),
    {
        if escrow_id == 0 || escrow_id as usize > self.escrows.len() {
            return Err(EscrowError::EscrowNotFound);
        }
        let idx = (escrow_id - 1) as usize;
        let r = self.escrows[idx].dispute(disputer);
        assert forall|j: int| 0 <= j < self.escrows@.len() implies (#[trigger] self.escrows@[j]).wf()
            && self.escrows@[j].id == j + 1 by {
            if j != idx {
                assert(self.escrows@[j] == old(self).escrows@[j]);
            }
        }
        r
    }

    /// Refunds an active agreement whose deadline has come; see
    /// [`EscrowData::refund_timeout`].
    pub fn refund_timeout(&mut self, escrow_id: u32, now: u64) -> (r: Result<Vec<Transfer>, EscrowError>)
        requires
            old(self).wf(),
        ensures
            final(self).wf(),
            !old(self).has_escrow(escrow_id) ==> r == Err::<Vec<Transfer>, EscrowError>(
                EscrowError::EscrowNotFound,
            ) && *final(self) == *old(self),
            old(self).has_escrow(escrow_id) ==> final(self).others_kept(old(self), escrow_id)
                && EscrowData::refund_timeout_post(
                old(self).escrow(escrow_id),
                final(self).escrow(escrow_id),
                now,
                old(self).address,
                r,
            ),
    {
        if escrow_id == 0 || escrow_id as usize > self.escrows.len() {
            return Err(EscrowError::EscrowNotFound);
        }
        let idx = (escrow_id - 1) as usize;
        let custody = self.address;
        let r = self.escrows[idx].refund_timeout(now, custody);
        assert forall|j: int| 0 <= j < self.escrows@.len() implies (#[trigger] self.escrows@[j]).wf()
            && self.escrows@[j].id == j + 1 by {
            if j != idx {
                assert(self.escrows@[j] == old(self).escrows@[j]);
            }
        }
        r
    }

    /// The creator calls an agreement off; see [`EscrowData::cancel`].
    pub fn cancel(&mut self, caller: Address, escrow_id: u32, now: u64) -> (r: Result<Vec<Transfer>, EscrowError>)
        requires
            old(self).wf(),
        ensures
            final(self).wf(),
            !old(self).has_escrow(escrow_id) ==> r == Err::<Vec<Transfer>, EscrowError>(
                EscrowError::EscrowNotFound,
            ) && *final(self) == *old(self),
            old(self).has_escrow(escrow_id) ==> final(self).others_kept(old(self), escrow_id)
                && EscrowData::cancel_post(
                old(self).escrow(escrow_id),
                final(self).escrow(escrow_id),
                caller,
                now,
                old(self).address,
                r,
            ),
    {
        if escrow_id == 0 || escrow_id as usize > self.escrows.len() {
            return Err(EscrowError::EscrowNotFound);
        }
        let idx = (escrow_id - 1) as usize;
        let custody = self.address;
        let r = self.escrows[idx].cancel(caller, now, custody);
        assert forall|j: int| 0 <= j < self.escrows@.len() implies (#[trigger] self.escrows@[j]).wf()
            && self.escrows@[j].id == j + 1 by {
            if j != idx {
                assert(self.escrows@[j] == old(self).escrows@[j]);
            }
        }
        r
    }

    /// The agreement with this id, if there is one.
    pub fn get_escrow(&self, escrow_id: u32) -> (r: Option<&EscrowData>)
        ensures
            self.has_escrow(escrow_id) ==> r == Some(&self.escrow(escrow_id)),
            !self.has_escrow(escrow_id) ==> r is None,
    {
        if escrow_id == 0 || escrow_id as usize > self.escrows.len() {
            None
        } else {
            Some(&self.escrows[(escrow_id - 1) as usize])
        }
    }
}

/// The sum of a prefix of non-negative entries is at most the whole sum.
proof fn lemma_prefix_sum_le(s: Seq<i128>, k: int)
    requires
        0 <= k <= s.len(),
        forall|i: int| 0 <= i < s.len() ==> 0 <= #[trigger] s[i],
    ensures
        sum_of(s.take(k)) <= sum_of(s),
    decreases s.len() - k,
{
    if k < s.len() {
        lemma_prefix_sum_le(s, k + 1);
        assert(s.take(k + 1).drop_last() =~= s.take(k));
    } else {
        assert(s.take(k) =~= s);
    }
}

} // verus!

verus! {

proof fn lemma_total_uniform(ts: Seq<Transfer>, per: int)
    requires
        forall|i: int| 0 <= i < ts.len() ==> (#[trigger] ts[i]).amount == per,
    ensures
        total_of(ts) == ts.len() * per,
    decreases ts.len(),
{
    if ts.len() > 0 {
        lemma_total_uniform(ts.drop_last(), per);
        assert(ts.len() * per == (ts.len() - 1) * per + per) by (nonlinear_arith);
    }
}

/// Custody is balanced: in every well-formed agreement the pot is what was
/// deposited less what has been paid out, and never negative.
pub proof fn lemma_custody_balanced(e: EscrowData)
    requires
        e.wf(),
    ensures
        e.pot == sum_of(e.deposited@) - e.paid_out,
        e.pot >= 0,
        forall|i: int| 0 <= i < e.parties@.len() ==> 0 <= #[trigger] e.deposited@[i] <= e.amounts@[i],
{
}

/// Once a party's deposit went through, any further deposit by that party is
/// refused.
pub proof fn lemma_no_double_deposit(
    pre: EscrowData,
    post: EscrowData,
    depositor: Address,
    amount: i128,
    custody: Address,
    r: Result<Vec<Transfer>, EscrowError>,
    again: i128,
)
    requires
        pre.wf(),
        EscrowData::deposit_post(pre, post, depositor, amount, custody, r),
        r is Ok,
    ensures
        post.deposit_error(depositor, again) is Some,
{
    lemma_index_of(pre.parties@, depositor);
}

/// A timeout refund is not repeated: once it went through, every later attempt
/// is refused with `InvalidState`, and so is any attempt on a refunded agreement.
pub proof fn lemma_refund_once(
    pre: EscrowData,
    post: EscrowData,
    now: u64,
    later: u64,
    custody: Address,
    r: Result<Vec<Transfer>, EscrowError>,
)
    requires
        pre.wf(),
        EscrowData::refund_timeout_post(pre, post, now, custody, r),
        r is Ok,
    ensures
        post.state == EscrowState::Refunded,
        post.refund_timeout_error(later) == Some(EscrowError::InvalidState),
{
}

/// An equal split of `amount` among `n` parties gives each exactly
/// `amount / n` (rounded down) and pays out no more than `amount` in all.
pub proof fn lemma_equal_split_floor(parties: Seq<Address>, token: Address, from: Address, amount: int)
    requires
        parties.len() > 0,
        0 <= amount <= i128::MAX,
    ensures
        equal_split(parties, token, from, amount).len() == parties.len(),
        forall|i: int|
            0 <= i < parties.len() ==> (#[trigger] equal_split(parties, token, from, amount)[i]).amount
                == amount / (parties.len() as int),
        total_of(equal_split(parties, token, from, amount)) == split_total(amount, parties.len() as int),
        total_of(equal_split(parties, token, from, amount)) <= amount,
{
    let n = parties.len() as int;
    lemma_equal_split_within(amount, n);
    assert(amount / n <= amount) by (nonlinear_arith)
        requires
            n > 0,
            amount >= 0,
    ;
    let ts = equal_split(parties, token, from, amount);
    lemma_total_uniform(ts, amount / n);
}

} // verus!
