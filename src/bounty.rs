//! Bounties: a creator escrows a reward, a solver accepts and submits, and the
//! reward goes to the solver on approval, back to the creator on cancellation,
//! or is split by the admin after a dispute.
use vstd::prelude::*;

use crate::common::{Address, Transfer, lemma_total_concat, total_of, transfer_of};

verus! {

#[derive(Clone, Copy, Debug, PartialEq, Eq, Structural)]
pub enum BountyStatus {
    Open,
    Accepted,
    Submitted,
    Completed,
    Cancelled,
    Disputed,
}

#[derive(Clone, Copy, Debug, PartialEq, Eq)]
pub struct Bounty {
    pub id: u32,
    pub creator: Address,
    pub token: Address,
    pub amount: i128,
    pub puzzle_id: Option<u32>,
    pub solver: Option<Address>,
    pub expiration: u64,
    pub status: BountyStatus,
}

#[derive(Clone, Copy, Debug, PartialEq, Eq, Structural)]
pub enum BountyError {
    AlreadyInitialized,
    NoAdmin,
    InvalidAmount,
    BountyNotFound,
    NotOpen,
    Expired,
    NotAccepted,
    NotAssignedSolver,
    NotCreator,
    NoSubmission,
    NoSolver,
    CannotCancel,
    NotParticipant,
    CannotDispute,
    NotAdmin,
    NotInDispute,
    InvalidPayout,
}

/// Whether a bounty in this status still waits for work.
pub open spec fn is_active(s: BountyStatus) -> bool {
    s == BountyStatus::Open || s == BountyStatus::Accepted || s == BountyStatus::Submitted
}

/// The active bounties among `bs`, in order.
pub open spec fn active_of(bs: Seq<Bounty>) -> Seq<Bounty>
    decreases bs.len(),
{
    if bs.len() == 0 {
        seq![]
    } else if is_active(bs.last().status) {
        active_of(bs.drop_last()).push(bs.last())
    } else {
        active_of(bs.drop_last())
    }
}

/// The bounty contract's storage: the admin, bounties by id (id `k` at position
/// `k - 1`), the contract's own address, and the transfers decided so far.
#[derive(Debug)]
pub struct BountyContract {
    pub address: Address,
    pub admin: Option<Address>,
    pub bounties: Vec<Bounty>,
    pub transfers: Vec<Transfer>,
}

impl BountyContract {
    pub open spec fn wf(&self) -> bool {
        forall|i: int|
            0 <= i < self.bounties@.len() ==> (#[trigger] self.bounties@[i]).id == i + 1
                && self.bounties@[i].amount > 0
    }

    pub open spec fn has_bounty(&self, id: u32) -> bool {
        1 <= id <= self.bounties@.len()
    }

    pub open spec fn bounty(&self, id: u32) -> Bounty {
        self.bounties@[id - 1]
    }

    /// `post` is `pre` with bounty `id` replaced by `b` and `ts` appended to the
    /// transfers.
    pub open spec fn updated(pre: &BountyContract, post: &BountyContract, id: u32, b: Bounty, ts: Seq<Transfer>) -> bool {
        &&& post.address == pre.address
        &&& post.admin == pre.admin
        &&& post.bounties@ == pre.bounties@.update(id - 1, b)
        &&& post.transfers@ == pre.transfers@ + ts
    }

    pub fn new(address: Address) -> (r: BountyContract)
        ensures
            r.wf(),
            r.address == address,
            r.admin is None,
            r.bounties@.len() == 0,
            r.transfers@.len() == 0,
    {
        BountyContract { address, admin: None, bounties: Vec::new(), transfers: Vec::new() }
    }

    /// Sets the admin, once.
    pub fn initialize(&mut self, admin: Address) -> (r: Result<(), BountyError>)
        requires
            old(self).wf(),
        ensures
            final(self).wf(),
            old(self).admin is Some ==> r == Err::<(), BountyError>(BountyError::AlreadyInitialized)
                && *final(self) == *old(self),
            old(self).admin is None ==> r is Ok && final(self).admin == Some(admin)
                && final(self).bounties@ == old(self).bounties@ && final(self).transfers@ == old(
                self,
            ).transfers@ && final(self).address == old(self).address,
    {
        if self.admin.is_some() {
            return Err(BountyError::AlreadyInitialized);
        }
        self.admin = Some(admin);
        Ok(())
    }

    /// Opens a bounty under the next id and takes its reward into custody.
    pub fn create_bounty(
        &mut self,
        creator: Address,
        token_address: Address,
        amount: i128,
        puzzle_id: Option<u32>,
        duration: u64,
        now: u64,
    ) -> (r: Result<u32, BountyError>)
        requires
            old(self).wf(),
            old(self).bounties@.len() < u32::MAX,
        ensures
            final(self).wf(),
            amount <= 0 ==> r == Err::<u32, BountyError>(BountyError::InvalidAmount) && *final(self)
                == *old(self),
            amount > 0 ==> {
                let id = (old(self).bounties@.len() + 1) as u32;
                &&& r == Ok::<u32, BountyError>(id)
                &&& final(self).address == old(self).address
                &&& final(self).admin == old(self).admin
                &&& final(self).bounties@ == old(self).bounties@.push(
                    Bounty {
                        id,
                        creator,
                        token: token_address,
                        amount,
                        puzzle_id,
                        solver: None,
                        expiration: crate::escrow::deadline_after(now, duration),
                        status: BountyStatus::Open,
                    },
                )
                &&& final(self).transfers@ == old(self).transfers@.push(
                    transfer_of(token_address, creator, old(self).address, amount as int),
                )
            },
    {
        if amount <= 0 {
            return Err(BountyError::InvalidAmount);
        }
        let id = (self.bounties.len() + 1) as u32;
        let expiration = if duration <= u64::MAX - now {
            now + duration
        } else {
            u64::MAX
        };
        self.bounties.push(
            Bounty {
                id,
                creator,
                token: token_address,
                amount,
                puzzle_id,
                solver: None,
                expiration,
                status: BountyStatus::Open,
            },
        );
        self.transfers.push(Transfer { token: token_address, from: creator, to: self.address, amount });
        Ok(id)
    }

    fn slot(&self, bounty_id: u32) -> (r: Option<usize>)
        ensures
            self.has_bounty(bounty_id) ==> r == Some((bounty_id - 1) as usize),
            !self.has_bounty(bounty_id) ==> r is None,
    {
        if bounty_id == 0 || bounty_id as usize > self.bounties.len() {
            None
        } else {
            Some((bounty_id - 1) as usize)
        }
    }

    pub open spec fn accept_error(&self, bounty_id: u32, now: u64) -> Option<BountyError> {
        if !self.has_bounty(bounty_id) {
            Some(BountyError::BountyNotFound)
        } else if self.bounty(bounty_id).status != BountyStatus::Open {
            Some(BountyError::NotOpen)
        } else if now > self.bounty(bounty_id).expiration {
            Some(BountyError::Expired)
        } else {
            None
        }
    }

    /// A solver takes on an open bounty before it expires.
    pub fn accept_bounty(&mut self, solver: Address, bounty_id: u32, now: u64) -> (r: Result<(), BountyError>)
        requires
            old(self).wf(),
        ensures
            final(self).wf(),
            match old(self).accept_error(bounty_id, now) {
                Some(err) => r == Err::<(), BountyError>(err) && *final(self) == *old(self),
                None => r is Ok && Self::updated(
                    old(self),
                    final(self),
                    bounty_id,
                    Bounty {
                        solver: Some(solver),
                        status: BountyStatus::Accepted,
                        ..old(self).bounty(bounty_id)
                    },
                    seq![],
                ),
            },
    {
        let idx = match self.slot(bounty_id) {
            Some(i) => i,
            None => {
                return Err(BountyError::BountyNotFound);
            },
        };
        let mut b = self.bounties[idx];
        if b.status != BountyStatus::Open {
            return Err(BountyError::NotOpen);
        }
        if now > b.expiration {
            return Err(BountyError::Expired);
        }
        b.solver = Some(solver);
        b.status = BountyStatus::Accepted;
        self.bounties.set(idx, b);
        assert(self.transfers@ =~= old(self).transfers@ + seq![]);
        Ok(())
    }

    pub open spec fn submit_error(&self, solver: Address, bounty_id: u32, now: u64) -> Option<BountyError> {
        if !self.has_bounty(bounty_id) {
            Some(BountyError::BountyNotFound)
        } else if self.bounty(bounty_id).status != BountyStatus::Accepted {
            Some(BountyError::NotAccepted)
        } else if self.bounty(bounty_id).solver != Some(solver) {
            Some(BountyError::NotAssignedSolver)
        } else if now > self.bounty(bounty_id).expiration {
            Some(BountyError::Expired)
        } else {
            None
        }
    }

    /// The assigned solver hands in a solution before the bounty expires.
    pub fn submit_solution(&mut self, solver: Address, bounty_id: u32, now: u64) -> (r: Result<(), BountyError>)
        requires
            old(self).wf(),
        ensures
            final(self).wf(),
            match old(self).submit_error(solver, bounty_id, now) {
                Some(err) => r == Err::<(), BountyError>(err) && *final(self) == *old(self),
                None => r is Ok && Self::updated(
                    old(self),
                    final(self),
                    bounty_id,
                    Bounty { status: BountyStatus::Submitted, ..old(self).bounty(bounty_id) },
                    seq![],
                ),
            },
    {
        let idx = match self.slot(bounty_id) {
            Some(i) => i,
            None => {
                return Err(BountyError::BountyNotFound);
            },
        };
        let mut b = self.bounties[idx];
        if b.status != BountyStatus::Accepted {
            return Err(BountyError::NotAccepted);
        }
        match b.solver {
            Some(s) => {
                if s != solver {
                    return Err(BountyError::NotAssignedSolver);
                }
            },
            None => {
                return Err(BountyError::NotAssignedSolver);
            },
        }
        if now > b.expiration {
            return Err(BountyError::Expired);
        }
        b.status = BountyStatus::Submitted;
        self.bounties.set(idx, b);
        assert(self.transfers@ =~= old(self).transfers@ + seq![]);
        Ok(())
    }

    pub open spec fn approve_error(&self, creator: Address, bounty_id: u32) -> Option<BountyError> {
        if !self.has_bounty(bounty_id) {
            Some(BountyError::BountyNotFound)
        } else if self.bounty(bounty_id).creator != creator {
            Some(BountyError::NotCreator)
        } else if self.bounty(bounty_id).status != BountyStatus::Submitted {
            Some(BountyError::NoSubmission)
        } else if self.bounty(bounty_id).solver is None {
            Some(BountyError::NoSolver)
        } else {
            None
        }
    }

    /// The creator accepts the submission; the reward goes to the solver.
    pub fn approve_submission(&mut self, creator: Address, bounty_id: u32) -> (r: Result<(), BountyError>)
        requires
            old(self).wf(),
        ensures
            final(self).wf(),
            match old(self).approve_error(creator, bounty_id) {
                Some(err) => r == Err::<(), BountyError>(err) && *final(self) == *old(self),
                None => {
                    let b = old(self).bounty(bounty_id);
                    r is Ok && Self::updated(
                        old(self),
                        final(self),
                        bounty_id,
                        Bounty { status: BountyStatus::Completed, ..b },
                        seq![transfer_of(b.token, old(self).address, b.solver->0, b.amount as int)],
                    )
                },
            },
    {
        let idx = match self.slot(bounty_id) {
            Some(i) => i,
            None => {
                return Err(BountyError::BountyNotFound);
            },
        };
        let mut b = self.bounties[idx];
        if b.creator != creator {
            return Err(BountyError::NotCreator);
        }
        if b.status != BountyStatus::Submitted {
            return Err(BountyError::NoSubmission);
        }
        let solver = match b.solver {
            Some(s) => s,
            None => {
                return Err(BountyError::NoSolver);
            },
        };
        let t = Transfer { token: b.token, from: self.address, to: solver, amount: b.amount };
        self.transfers.push(t);
        assert(self.transfers@ =~= old(self).transfers@ + seq![t]);
        b.status = BountyStatus::Completed;
        self.bounties.set(idx, b);
        Ok(())
    }

    /// Whether the creator may call the bounty off at time `now`: while open, or
    /// once a taken bounty has expired.
    pub open spec fn cancellable(b: Bounty, now: u64) -> bool {
        b.status == BountyStatus::Open || ((b.status == BountyStatus::Accepted || b.status
            == BountyStatus::Submitted) && now > b.expiration)
    }

    pub open spec fn cancel_error(&self, creator: Address, bounty_id: u32, now: u64) -> Option<BountyError> {
        if !self.has_bounty(bounty_id) {
            Some(BountyError::BountyNotFound)
        } else if self.bounty(bounty_id).creator != creator {
            Some(BountyError::NotCreator)
        } else if !Self::cancellable(self.bounty(bounty_id), now) {
            Some(BountyError::CannotCancel)
        } else {
            None
        }
    }

    /// The creator calls the bounty off and gets the reward back.
    pub fn cancel_bounty(&mut self, creator: Address, bounty_id: u32, now: u64) -> (r: Result<(), BountyError>)
        requires
            old(self).wf(),
        ensures
            final(self).wf(),
            match old(self).cancel_error(creator, bounty_id, now) {
                Some(err) => r == Err::<(), BountyError>(err) && *final(self) == *old(self),
                None => {
                    let b = old(self).bounty(bounty_id);
                    r is Ok && Self::updated(
                        old(self),
                        final(self),
                        bounty_id,
                        Bounty { status: BountyStatus::Cancelled, ..b },
                        seq![transfer_of(b.token, old(self).address, creator, b.amount as int)],
                    )
                },
            },
    {
        let idx = match self.slot(bounty_id) {
            Some(i) => i,
            None => {
                return Err(BountyError::BountyNotFound);
            },
        };
        let mut b = self.bounties[idx];
        if b.creator != creator {
            return Err(BountyError::NotCreator);
        }
        let can_cancel = match b.status {
            BountyStatus::Open => true,
            BountyStatus::Accepted | BountyStatus::Submitted => now > b.expiration,
            _ => false,
        };
        if !can_cancel {
            return Err(BountyError::CannotCancel);
        }
        let t = Transfer { token: b.token, from: self.address, to: creator, amount: b.amount };
        self.transfers.push(t);
        assert(self.transfers@ =~= old(self).transfers@ + seq![t]);
        b.status = BountyStatus::Cancelled;
        self.bounties.set(idx, b);
        Ok(())
    }

    pub open spec fn dispute_error(&self, caller: Address, bounty_id: u32) -> Option<BountyError> {
        if !self.has_bounty(bounty_id) {
            Some(BountyError::BountyNotFound)
        } else if caller != self.bounty(bounty_id).creator && self.bounty(bounty_id).solver != Some(
            caller,
        ) {
            Some(BountyError::NotParticipant)
        } else if self.bounty(bounty_id).status != BountyStatus::Submitted && self.bounty(
            bounty_id,
        ).status != BountyStatus::Accepted {
            Some(BountyError::CannotDispute)
        } else {
            None
        }
    }

    /// The creator or the solver puts a taken bounty in dispute.
    pub fn dispute_bounty(&mut self, caller: Address, bounty_id: u32) -> (r: Result<(), BountyError>)
        requires
            old(self).wf(),
        ensures
            final(self).wf(),
            match old(self).dispute_error(caller, bounty_id) {
                Some(err) => r == Err::<(), BountyError>(err) && *final(self) == *old(self),
                None => r is Ok && Self::updated(
                    old(self),
                    final(self),
                    bounty_id,
                    Bounty { status: BountyStatus::Disputed, ..old(self).bounty(bounty_id) },
                    seq![],
                ),
            },
    {
        let idx = match self.slot(bounty_id) {
            Some(i) => i,
            None => {
                return Err(BountyError::BountyNotFound);
            },
        };
        let mut b = self.bounties[idx];
        let is_solver = match b.solver {
            Some(s) => s == caller,
            None => false,
        };
        if caller != b.creator && !is_solver {
            return Err(BountyError::NotParticipant);
        }
        if b.status != BountyStatus::Submitted && b.status != BountyStatus::Accepted {
            return Err(BountyError::CannotDispute);
        }
        b.status = BountyStatus::Disputed;
        self.bounties.set(idx, b);
        assert(self.transfers@ =~= old(self).transfers@ + seq![]);
        Ok(())
    }

    pub open spec fn resolve_error(&self, admin: Address, bounty_id: u32, solver_payout: i128) -> Option<BountyError> {
        if self.admin is None {
            Some(BountyError::NoAdmin)
        } else if self.admin != Some(admin) {
            Some(BountyError::NotAdmin)
        } else if !self.has_bounty(bounty_id) {
            Some(BountyError::BountyNotFound)
        } else if self.bounty(bounty_id).status != BountyStatus::Disputed {
            Some(BountyError::NotInDispute)
        } else if solver_payout < 0 || solver_payout > self.bounty(bounty_id).amount {
            Some(BountyError::InvalidPayout)
        } else if solver_payout > 0 && self.bounty(bounty_id).solver is None {
            Some(BountyError::NoSolver)
        } else {
            None
        }
    }

    /// The payouts of a split: `solver_payout` to the solver, the rest of the
    /// reward to the creator, each only when positive.
    pub open spec fn split_transfers(b: Bounty, custody: Address, solver_payout: int) -> Seq<Transfer> {
        let to_solver = if solver_payout > 0 {
            seq![transfer_of(b.token, custody, b.solver->0, solver_payout)]
        } else {
            seq![]
        };
        let rest = b.amount - solver_payout;
        let to_creator = if rest > 0 {
            seq![transfer_of(b.token, custody, b.creator, rest)]
        } else {
            seq![]
        };
        to_solver + to_creator
    }

    /// The admin settles a dispute: `solver_payout` goes to the solver and the
    /// remainder of the reward back to the creator, so the two add up to the reward.
    pub fn resolve_dispute(&mut self, admin: Address, bounty_id: u32, solver_payout: i128) -> (r: Result<
        (),
        BountyError,
    >)
        requires
            old(self).wf(),
        ensures
            final(self).wf(),
            match old(self).resolve_error(admin, bounty_id, solver_payout) {
                Some(err) => r == Err::<(), BountyError>(err) && *final(self) == *old(self),
                None => {
                    let b = old(self).bounty(bounty_id);
                    r is Ok && Self::updated(
                        old(self),
                        final(self),
                        bounty_id,
                        Bounty { status: BountyStatus::Completed, ..b },
                        Self::split_transfers(b, old(self).address, solver_payout as int),
                    )
                },
            },
    {
        match self.admin {
            Some(a) => {
                if a != admin {
                    return Err(BountyError::NotAdmin);
                }
            },
            None => {
                return Err(BountyError::NoAdmin);
            },
        }
        let idx = match self.slot(bounty_id) {
            Some(i) => i,
            None => {
                return Err(BountyError::BountyNotFound);
            },
        };
        let mut b = self.bounties[idx];
        if b.status != BountyStatus::Disputed {
            return Err(BountyError::NotInDispute);
        }
        if solver_payout < 0 || solver_payout > b.amount {
            return Err(BountyError::InvalidPayout);
        }
        if solver_payout > 0 && b.solver.is_none() {
            return Err(BountyError::NoSolver);
        }
        let creator_payout = b.amount - solver_payout;
        let ghost custody = self.address;
        if solver_payout > 0 {
            let solver = b.solver.unwrap();
            self.transfers.push(Transfer { token: b.token, from: self.address, to: solver, amount: solver_payout });
        }
        if creator_payout > 0 {
            self.transfers.push(Transfer { token: b.token, from: self.address, to: b.creator, amount: creator_payout });
        }
        assert(self.transfers@ =~= old(self).transfers@ + Self::split_transfers(b, custody, solver_payout as int));
        b.status = BountyStatus::Completed;
        self.bounties.set(idx, b);
        Ok(())
    }

    /// The active bounties with ids from `offset + 1` up to, not including,
    /// `offset + limit`, in id order.
    pub fn get_active_bounties(&self, offset: u32, limit: u32) -> (r: Vec<Bounty>)
        ensures
            offset > self.bounties@.len() ==> r@.len() == 0,
            offset <= self.bounties@.len() ==> {
                let end: int = if offset + limit <= self.bounties@.len() + 1 {
                    offset + limit
                } else {
                    self.bounties@.len() + 1int
                };
                r@ == active_of(
                    self.bounties@.subrange(
                        offset as int,
                        if end - 1 >= offset {
                            end - 1
                        } else {
                            offset as int
                        },
                    ),
                )
            },
    {
        let count = self.bounties.len();
        let mut out: Vec<Bounty> = Vec::new();
        if offset as usize > count {
            return out;
        }
        let sum = offset as u64 + limit as u64;
        let end: u64 = if (count as u64) < u64::MAX && sum > count as u64 + 1 {
            count as u64 + 1
        } else {
            sum
        };
        let hi: usize = if end >= offset as u64 + 1 {
            (end - 1) as usize
        } else {
            offset as usize
        };
        let lo = offset as usize;
        let mut p: usize = lo;
        while p < hi
            invariant
                lo <= p <= hi <= count,
                count == self.bounties@.len(),
                out@ == active_of(self.bounties@.subrange(lo as int, p as int)),
            decreases hi - p,
        {
            let b = self.bounties[p];
            proof {
                assert(self.bounties@.subrange(lo as int, p + 1).drop_last() =~= self.bounties@.subrange(
                    lo as int,
                    p as int,
                ));
            }
            if b.status == BountyStatus::Open || b.status == BountyStatus::Accepted || b.status
                == BountyStatus::Submitted {
                out.push(b);
            }
            p += 1;
        }
        out
    }

    /// The bounty with this id, if there is one.
    pub fn get_bounty(&self, bounty_id: u32) -> (r: Option<Bounty>)
        ensures
            self.has_bounty(bounty_id) ==> r == Some(self.bounty(bounty_id)),
            !self.has_bounty(bounty_id) ==> r is None,
    {
        match self.slot(bounty_id) {
            Some(i) => Some(self.bounties[i]),
            None => None,
        }
    }

    /// How many bounties have been created.
    pub fn get_bounty_count(&self) -> (r: u32)
        requires
            self.bounties@.len() <= u32::MAX,
        ensures
            r == self.bounties@.len(),
    {
        self.bounties.len() as u32
    }
}

/// A dispute split hands out the whole reward and nothing more: what the solver
/// and the creator receive adds up to the reward, with nothing left in custody.
pub proof fn lemma_split_covers_reward(b: Bounty, custody: Address, solver_payout: int)
    requires
        0 <= solver_payout <= b.amount,
    ensures
        total_of(BountyContract::split_transfers(b, custody, solver_payout)) == b.amount,
{
    let to_solver = if solver_payout > 0 {
        seq![transfer_of(b.token, custody, b.solver->0, solver_payout)]
    } else {
        seq![]
    };
    let rest = b.amount - solver_payout;
    let to_creator = if rest > 0 {
        seq![transfer_of(b.token, custody, b.creator, rest)]
    } else {
        seq![]
    };
    lemma_total_concat(to_solver, to_creator);
    if solver_payout > 0 {
        assert(to_solver.drop_last() =~= Seq::<Transfer>::empty());
        assert(to_solver.last().amount == solver_payout);
        assert(total_of(to_solver) == total_of(to_solver.drop_last()) + to_solver.last().amount);
        assert(total_of(Seq::<Transfer>::empty()) == 0);
    } else {
        assert(total_of(to_solver) == 0);
    }
    if rest > 0 {
        assert(to_creator.drop_last() =~= Seq::<Transfer>::empty());
        assert(to_creator.last().amount == rest);
        assert(total_of(to_creator) == total_of(to_creator.drop_last()) + to_creator.last().amount);
        assert(total_of(Seq::<Transfer>::empty()) == 0);
    } else {
        assert(total_of(to_creator) == 0);
    }
    assert(BountyContract::split_transfers(b, custody, solver_payout) == to_solver + to_creator);
}

} // verus!
