//! Multiplayer puzzle matches: players pay an entry fee into a pot, commit to a
//! score digest, reveal their scores, may dispute each other's results, and the
//! pot goes in equal shares to the holders of the best valid score.
//!
//! The match's keyed tables (commits, results, disputes, rulings) are held as
//! vectors whose keys are distinct; results keep the order in which they were
//! revealed, and winners are paid in that order. The digest that a reveal is
//! checked against is computed by the host (a hash of the player, the score and
//! the secret) and handed in.
use vstd::prelude::*;

use crate::common::{
    Address, Transfer, distinct, find_address, index_of, lemma_distinct_push, lemma_distinct_remove,
    lemma_index_of, lemma_index_of_unique, transfer_of,
};
use crate::escrow::deadline_after;

verus! {

#[derive(Clone, Copy, Debug, PartialEq, Eq, Structural)]
pub enum Error {
    MatchNotFound,
    InvalidStatus,
    MaxPlayersReached,
    NotPlayer,
    AlreadyJoined,
    InsufficientPlayers,
    DeadlinePassed,
    InvalidReveal,
    NoResults,
    DisputeNotFound,
    AlreadyResolved,
    NotCreator,
    InvalidOp,
    DeadlineNotReached,
    InvalidEntryFee,
}

#[derive(Clone, Copy, Debug, PartialEq, Eq, Structural)]
pub enum Status {
    Open,
    Started,
    Submission,
    Reveal,
    Disputed,
    Finished,
    Abandoned,
}

/// A player's committed digest.
#[derive(Clone, Copy, Debug, PartialEq, Eq)]
pub struct Commit {
    pub player: Address,
    pub digest: [u8; 32],
}

/// A revealed score; higher is better.
#[derive(Clone, Copy, Debug, PartialEq, Eq, Structural)]
pub struct Score {
    pub player: Address,
    pub score: i128,
}

/// The players who dispute `disputed`'s result.
#[derive(Debug)]
pub struct Dispute {
    pub disputed: Address,
    pub disputers: Vec<Address>,
}

/// The creator's ruling on a disputed result.
#[derive(Clone, Copy, Debug, PartialEq, Eq, Structural)]
pub struct Ruling {
    pub player: Address,
    pub valid: bool,
}

#[derive(Debug)]
pub struct MatchData {
    pub creator: Address,
    pub token: Address,
    pub entry_fee: i128,
    pub max_players: u32,
    pub min_players: u32,
    pub players: Vec<Address>,
    pub status: Status,
    pub pot: i128,
    pub create_time: u64,
    pub join_deadline: u64,
    pub submission_duration: u64,
    pub reveal_duration: u64,
    pub submission_deadline: u64,
    pub reveal_deadline: u64,
    pub commits: Vec<Commit>,
    pub results: Vec<Score>,
    pub disputes: Vec<Dispute>,
    pub resolved: Vec<Ruling>,
}

pub open spec fn commit_keys(s: Seq<Commit>) -> Seq<Address> {
    s.map_values(|c: Commit| c.player)
}

pub open spec fn score_keys(s: Seq<Score>) -> Seq<Address> {
    s.map_values(|c: Score| c.player)
}

pub open spec fn dispute_keys(s: Seq<Dispute>) -> Seq<Address> {
    s.map_values(|c: Dispute| c.disputed)
}

pub open spec fn ruling_keys(s: Seq<Ruling>) -> Seq<Address> {
    s.map_values(|c: Ruling| c.player)
}

/// Whether the match still holds every entry fee paid in.
pub open spec fn fees_held(s: Status) -> bool {
    s == Status::Open || s == Status::Started || s == Status::Submission || s == Status::Reveal || s
        == Status::Disputed
}

/// Whether the creator has ruled `player`'s result invalid.
pub open spec fn ruled_invalid(rulings: Seq<Ruling>, player: Address) -> bool {
    exists|i: int| 0 <= i < rulings.len() && (#[trigger] rulings[i]).player == player && !rulings[i].valid
}

/// The results that no ruling has struck, in order.
pub open spec fn valid_of(results: Seq<Score>, rulings: Seq<Ruling>) -> Seq<Score>
    decreases results.len(),
{
    if results.len() == 0 {
        seq![]
    } else if ruled_invalid(rulings, results.last().player) {
        valid_of(results.drop_last(), rulings)
    } else {
        valid_of(results.drop_last(), rulings).push(results.last())
    }
}

/// The best score among `s`, which is not empty.
pub open spec fn max_of(s: Seq<Score>) -> i128
    decreases s.len(),
{
    if s.len() <= 1 {
        s[0].score
    } else if s.last().score > max_of(s.drop_last()) {
        s.last().score
    } else {
        max_of(s.drop_last())
    }
}

/// The players of `s` that scored `best`, in order.
pub open spec fn winners_of(s: Seq<Score>, best: i128) -> Seq<Address>
    decreases s.len(),
{
    if s.len() == 0 {
        seq![]
    } else if s.last().score == best {
        winners_of(s.drop_last(), best).push(s.last().player)
    } else {
        winners_of(s.drop_last(), best)
    }
}

/// Each winner gets `prize`, in order.
pub open spec fn prize_transfers(token: Address, from: Address, winners: Seq<Address>, prize: int) -> Seq<Transfer> {
    Seq::new(winners.len(), |i: int| transfer_of(token, from, winners[i], prize))
}

/// Sharing the pot among `n` winners gives each exactly `pot / n` (rounded
/// down) and pays out no more than the pot.
pub proof fn lemma_prize_split_floor(token: Address, from: Address, winners: Seq<Address>, pot: int)
    requires
        winners.len() > 0,
        0 <= pot <= i128::MAX,
    ensures
        forall|i: int|
            0 <= i < winners.len() ==> (#[trigger] prize_transfers(token, from, winners, pot / (winners.len() as int))[i]).to
                == winners[i] && prize_transfers(token, from, winners, pot / (winners.len() as int))[i].amount
                == pot / (winners.len() as int),
        0 <= winners.len() * (pot / (winners.len() as int)) <= pot,
{
    lemma_equal_split_within_pot(pot, winners.len() as int);
    let n = winners.len() as int;
    assert(pot / n <= pot) by (nonlinear_arith)
        requires
            n > 0,
            pot >= 0,
    ;
}

/// While a match holds its entry fees, its pot is exactly one fee per player.
pub proof fn lemma_pot_matches_fees(m: MatchData)
    requires
        m.wf(),
        fees_held(m.status),
    ensures
        m.pot == m.entry_fee * m.players@.len(),
        m.pot >= 0,
{
}

/// Someone holds the best score.
pub proof fn lemma_winners_nonempty(s: Seq<Score>)
    requires
        s.len() > 0,
    ensures
        winners_of(s, max_of(s)).len() > 0,
    decreases s.len(),
{
    if s.len() == 1 {
        assert(s[0] == s.last());
    } else if s.last().score > max_of(s.drop_last()) {
    } else {
        lemma_winners_nonempty(s.drop_last());
        lemma_winners_len_mono(s, max_of(s));
    }
}

proof fn lemma_winners_len_mono(s: Seq<Score>, best: i128)
    requires
        s.len() > 0,
    ensures
        winners_of(s.drop_last(), best).len() <= winners_of(s, best).len(),
{
}

proof fn lemma_equal_split_within_pot(pot: int, n: int)
    requires
        pot >= 0,
        n > 0,
    ensures
        0 <= n * (pot / n) <= pot,
        pot / n >= 0,
{
    crate::escrow::lemma_equal_split_within(pot, n);
}

/// Whether `player`'s result has been ruled invalid.
pub fn is_ruled_invalid(rulings: &Vec<Ruling>, player: Address) -> (r: bool)
    ensures
        r == ruled_invalid(rulings@, player),
{
    let mut i: usize = 0;
    while i < rulings.len()
        invariant
            i <= rulings@.len(),
            forall|k: int| 0 <= k < i ==> !((#[trigger] rulings@[k]).player == player && !rulings@[k].valid),
        decreases rulings@.len() - i,
    {
        if rulings[i].player == player && !rulings[i].valid {
            return true;
        }
        i += 1;
    }
    false
}

/// The results that no ruling struck, in order.
pub fn valid_results(results: &Vec<Score>, rulings: &Vec<Ruling>) -> (r: Vec<Score>)
    ensures
        r@ == valid_of(results@, rulings@),
{
    let mut out: Vec<Score> = Vec::new();
    let mut i: usize = 0;
    while i < results.len()
        invariant
            i <= results@.len(),
            out@ == valid_of(results@.take(i as int), rulings@),
        decreases results@.len() - i,
    {
        proof {
            assert(results@.take(i + 1).drop_last() =~= results@.take(i as int));
        }
        let sc = results[i];
        if !is_ruled_invalid(rulings, sc.player) {
            out.push(sc);
        }
        i += 1;
    }
    assert(results@.take(i as int) =~= results@);
    out
}

/// The best of the scores.
pub fn best_score(scores: &Vec<Score>) -> (r: i128)
    requires
        scores@.len() > 0,
    ensures
        r == max_of(scores@),
{
    let mut best = scores[0].score;
    let mut i: usize = 1;
    assert(scores@.take(1)[0] == scores@[0]);
    while i < scores.len()
        invariant
            1 <= i <= scores@.len(),
            best == max_of(scores@.take(i as int)),
        decreases scores@.len() - i,
    {
        proof {
            assert(scores@.take(i + 1).drop_last() =~= scores@.take(i as int));
        }
        if scores[i].score > best {
            best = scores[i].score;
        }
        i += 1;
    }
    assert(scores@.take(i as int) =~= scores@);
    best
}

/// The players whose score is `best`, in order.
pub fn winners_among(scores: &Vec<Score>, best: i128) -> (r: Vec<Address>)
    ensures
        r@ == winners_of(scores@, best),
{
    let mut out: Vec<Address> = Vec::new();
    let mut i: usize = 0;
    while i < scores.len()
        invariant
            i <= scores@.len(),
            out@ == winners_of(scores@.take(i as int), best),
        decreases scores@.len() - i,
    {
        proof {
            assert(scores@.take(i + 1).drop_last() =~= scores@.take(i as int));
        }
        if scores[i].score == best {
            out.push(scores[i].player);
        }
        i += 1;
    }
    assert(scores@.take(i as int) =~= scores@);
    out
}

/// Whether two digests are equal.
pub fn same_digest(a: &[u8; 32], b: &[u8; 32]) -> (r: bool)
    ensures
        r == (a@ == b@),
{
    let mut i: usize = 0;
    while i < 32
        invariant
            i <= 32,
            a@.len() == 32,
            b@.len() == 32,
            forall|k: int| 0 <= k < i ==> a@[k] == b@[k],
        decreases 32 - i,
    {
        if a[i] != b[i] {
            return false;
        }
        i += 1;
    }
    assert(a@ =~= b@);
    true
}

impl MatchData {
    pub open spec fn wf(&self) -> bool {
        &&& distinct(self.players@)
        &&& self.entry_fee > 0
        &&& self.entry_fee * (self.max_players + 1) <= i128::MAX
        &&& self.players@.len() <= self.max_players + 1
        &&& self.pot >= 0
        &&& fees_held(self.status) ==> self.pot == self.entry_fee * self.players@.len()
        &&& distinct(commit_keys(self.commits@))
        &&& distinct(score_keys(self.results@))
        &&& distinct(dispute_keys(self.disputes@))
        &&& distinct(ruling_keys(self.resolved@))
        &&& (fees_held(self.status) && self.status != Status::Disputed) ==> self.disputes@.len() == 0
            && self.resolved@.len() == 0
        &&& (self.status == Status::Finished && valid_of(self.results@, self.resolved@).len() == 0)
            ==> self.pot == self.entry_fee * self.players@.len()
    }

    /// The fields that no transition changes.
    pub open spec fn same_terms(&self, other: &MatchData) -> bool {
        &&& self.creator == other.creator
        &&& self.token == other.token
        &&& self.entry_fee == other.entry_fee
        &&& self.max_players == other.max_players
        &&& self.min_players == other.min_players
        &&& self.create_time == other.create_time
        &&& self.join_deadline == other.join_deadline
        &&& self.submission_duration == other.submission_duration
        &&& self.reveal_duration == other.reveal_duration
    }

    /// Whether the players, commitments, results, disputes and rulings are those
    /// of `other`.
    pub open spec fn same_play(&self, other: &MatchData) -> bool {
        &&& self.players@ == other.players@
        &&& self.commits@ == other.commits@
        &&& self.results@ == other.results@
        &&& self.disputes@ == other.disputes@
        &&& self.resolved@ == other.resolved@
    }

    /// The entry fee paid back to every player, in join order.
    pub open spec fn fee_refunds(&self, custody: Address) -> Seq<Transfer> {
        Seq::new(
            self.players@.len(),
            |i: int| transfer_of(self.token, custody, self.players@[i], self.entry_fee as int),
        )
    }

    /// Pays every player's entry fee back and abandons the match.
    fn refund_all(&mut self, custody: Address) -> (r: Vec<Transfer>)
        requires
            old(self).wf(),
            fees_held(old(self).status) || old(self).status == Status::Finished,
        ensures
            final(self).wf(),
            r@ == old(self).fee_refunds(custody),
            final(self).same_terms(old(self)),
            final(self).same_play(old(self)),
            final(self).submission_deadline == old(self).submission_deadline,
            final(self).reveal_deadline == old(self).reveal_deadline,
            final(self).pot == 0,
            final(self).status == Status::Abandoned,
    {
        let mut ts: Vec<Transfer> = Vec::new();
        let mut i: usize = 0;
        while i < self.players.len()
            invariant
                i <= self.players@.len(),
                ts@ == self.fee_refunds(custody).take(i as int),
            decreases self.players@.len() - i,
        {
            ts.push(Transfer { token: self.token, from: custody, to: self.players[i], amount: self.entry_fee });
            i += 1;
            assert(ts@ =~= self.fee_refunds(custody).take(i as int));
        }
        assert(ts@ =~= self.fee_refunds(custody));
        self.pot = 0;
        self.status = Status::Abandoned;
        ts
    }

    /// Opens a match with its creator as the first player, whose entry fee is
    /// taken at once.
    pub fn open(
        creator: Address,
        token: Address,
        entry_fee: i128,
        max_players: u32,
        min_players: u32,
        join_duration: u64,
        submission_duration: u64,
        reveal_duration: u64,
        now: u64,
        custody: Address,
    ) -> (r: Result<(MatchData, Vec<Transfer>), Error>)
        ensures
            entry_fee <= 0 || entry_fee * (max_players + 1) > i128::MAX ==> r == Err::<
                (MatchData, Vec<Transfer>),
                Error,
            >(Error::InvalidEntryFee),
            !(entry_fee <= 0 || entry_fee * (max_players + 1) > i128::MAX) ==> (r matches Ok((m, ts)) && {
                &&& m.wf()
                &&& m.creator == creator
                &&& m.token == token
                &&& m.entry_fee == entry_fee
                &&& m.max_players == max_players
                &&& m.min_players == min_players
                &&& m.players@ == seq![creator]
                &&& m.status == Status::Open
                &&& m.pot == entry_fee
                &&& m.create_time == now
                &&& m.join_deadline == deadline_after(now, join_duration)
                &&& m.submission_duration == submission_duration
                &&& m.reveal_duration == reveal_duration
                &&& m.submission_deadline == 0
                &&& m.reveal_deadline == 0
                &&& m.commits@.len() == 0
                &&& m.results@.len() == 0
                &&& m.disputes@.len() == 0
                &&& m.resolved@.len() == 0
                &&& ts@ == seq![transfer_of(token, creator, custody, entry_fee as int)]
            }),
    {
        if entry_fee <= 0 {
            return Err(Error::InvalidEntryFee);
        }
        if entry_fee > i128::MAX / (max_players as i128 + 1) {
            assert(entry_fee * (max_players + 1) > i128::MAX) by (nonlinear_arith)
                requires
                    entry_fee > (i128::MAX as int) / (max_players + 1),
                    max_players >= 0,
            ;
            return Err(Error::InvalidEntryFee);
        }
        assert(entry_fee * (max_players + 1) <= i128::MAX) by (nonlinear_arith)
            requires
                entry_fee <= (i128::MAX as int) / (max_players + 1),
                max_players >= 0,
        ;
        let join_deadline = if join_duration <= u64::MAX - now {
            now + join_duration
        } else {
            u64::MAX
        };
        let mut players: Vec<Address> = Vec::new();
        players.push(creator);
        let m = MatchData {
            creator,
            token,
            entry_fee,
            max_players,
            min_players,
            players,
            status: Status::Open,
            pot: entry_fee,
            create_time: now,
            join_deadline,
            submission_duration,
            reveal_duration,
            submission_deadline: 0,
            reveal_deadline: 0,
            commits: Vec::new(),
            results: Vec::new(),
            disputes: Vec::new(),
            resolved: Vec::new(),
        };
        assert(commit_keys(m.commits@) =~= seq![]);
        assert(score_keys(m.results@) =~= seq![]);
        assert(dispute_keys(m.disputes@) =~= seq![]);
        assert(ruling_keys(m.resolved@) =~= seq![]);
        let mut ts: Vec<Transfer> = Vec::new();
        ts.push(Transfer { token, from: creator, to: custody, amount: entry_fee });
        assert(ts@ =~= seq![transfer_of(token, creator, custody, entry_fee as int)]);
        Ok((m, ts))
    }

    pub open spec fn join_error(&self, player: Address, now: u64) -> Option<Error> {
        if self.status != Status::Open {
            Some(Error::InvalidStatus)
        } else if now > self.join_deadline {
            Some(Error::DeadlinePassed)
        } else if self.players@.len() >= self.max_players {
            Some(Error::MaxPlayersReached)
        } else if self.players@.contains(player) {
            Some(Error::AlreadyJoined)
        } else {
            None
        }
    }

    pub open spec fn join_post(pre: MatchData, post: MatchData, player: Address, now: u64, custody: Address, r: Result<Vec<Transfer>, Error>) -> bool {
        match pre.join_error(player, now) {
            Some(err) => r == Err::<Vec<Transfer>, Error>(err) && post == pre,
            None => {
                &&& r matches Ok(ts) && ts@ == seq![transfer_of(pre.token, player, custody, pre.entry_fee as int)]
                &&& post.same_terms(&pre)
                &&& post.players@ == pre.players@.push(player)
                &&& post.pot == pre.pot + pre.entry_fee
                &&& post.commits@ == pre.commits@
                &&& post.results@ == pre.results@
                &&& post.disputes@ == pre.disputes@
                &&& post.resolved@ == pre.resolved@
                &&& post.reveal_deadline == pre.reveal_deadline
                &&& if post.players@.len() >= pre.min_players {
                    post.status == Status::Submission && post.submission_deadline == deadline_after(
                        now,
                        pre.submission_duration,
                    )
                } else {
                    post.status == Status::Open && post.submission_deadline == pre.submission_deadline
                }
            },
        }
    }

    /// A player pays the entry fee and joins an open match; once the minimum
    /// number of players is reached, the submission phase starts.
    pub fn join(&mut self, player: Address, now: u64, custody: Address) -> (r: Result<Vec<Transfer>, Error>)
        requires
            old(self).wf(),
        ensures
            final(self).wf(),
            Self::join_post(*old(self), *final(self), player, now, custody, r),
    {
        if self.status != Status::Open {
            return Err(Error::InvalidStatus);
        }
        if now > self.join_deadline {
            return Err(Error::DeadlinePassed);
        }
        if self.players.len() >= self.max_players as usize {
            return Err(Error::MaxPlayersReached);
        }
        if crate::common::contains_address(&self.players, player) {
            return Err(Error::AlreadyJoined);
        }
        proof {
            lemma_distinct_push(self.players@, player);
            let n = self.players@.len() as int;
            assert(self.entry_fee * (n + 1) <= self.entry_fee * (self.max_players + 1)) by (nonlinear_arith)
                requires
                    n < self.max_players,
                    self.entry_fee > 0,
            ;
            assert(self.entry_fee * (n + 1) == self.entry_fee * n + self.entry_fee) by (nonlinear_arith);
        }
        self.players.push(player);
        self.pot = self.pot + self.entry_fee;
        if self.players.len() >= self.min_players as usize {
            self.start_match(now);
        }
        let mut ts: Vec<Transfer> = Vec::new();
        ts.push(Transfer { token: self.token, from: player, to: custody, amount: self.entry_fee });
        assert(ts@ =~= seq![transfer_of(self.token, player, custody, self.entry_fee as int)]);
        Ok(ts)
    }

    /// Moves a full enough match into the submission phase.
    fn start_match(&mut self, now: u64)
        requires
            old(self).wf(),
            old(self).status == Status::Open,
            old(self).players@.len() >= old(self).min_players,
        ensures
            final(self).wf(),
            final(self).same_terms(old(self)),
            final(self).same_play(old(self)),
            final(self).pot == old(self).pot,
            final(self).reveal_deadline == old(self).reveal_deadline,
            final(self).status == Status::Submission,
            final(self).submission_deadline == deadline_after(now, old(self).submission_duration),
    {
        self.status = Status::Submission;
        self.submission_deadline = if self.submission_duration <= u64::MAX - now {
            now + self.submission_duration
        } else {
            u64::MAX
        };
    }

    pub open spec fn leave_error(&self, player: Address) -> Option<Error> {
        if self.status != Status::Open {
            Some(Error::InvalidStatus)
        } else if !self.players@.contains(player) {
            Some(Error::NotPlayer)
        } else {
            None
        }
    }

    pub open spec fn leave_post(pre: MatchData, post: MatchData, player: Address, custody: Address, r: Result<Vec<Transfer>, Error>) -> bool {
        match pre.leave_error(player) {
            Some(err) => r == Err::<Vec<Transfer>, Error>(err) && post == pre,
            None => {
                &&& r matches Ok(ts) && ts@ == seq![transfer_of(pre.token, custody, player, pre.entry_fee as int)]
                &&& post.same_terms(&pre)
                &&& post.players@ == pre.players@.remove(index_of(pre.players@, player))
                &&& post.pot == pre.pot - pre.entry_fee
                &&& post.status == Status::Open
                &&& post.commits@ == pre.commits@
                &&& post.results@ == pre.results@
                &&& post.submission_deadline == pre.submission_deadline
                &&& post.reveal_deadline == pre.reveal_deadline
            },
        }
    }

    /// A player leaves an open match and gets the entry fee back.
    pub fn leave(&mut self, player: Address, custody: Address) -> (r: Result<Vec<Transfer>, Error>)
        requires
            old(self).wf(),
        ensures
            final(self).wf(),
            Self::leave_post(*old(self), *final(self), player, custody, r),
    {
        if self.status != Status::Open {
            return Err(Error::InvalidStatus);
        }
        let i = match find_address(&self.players, player) {
            Some(i) => i,
            None => {
                return Err(Error::NotPlayer);
            },
        };
        proof {
            lemma_index_of_unique(self.players@, player, i as int);
            lemma_distinct_remove(self.players@, i as int);
            let n = self.players@.len() as int;
            assert(self.entry_fee * n == self.entry_fee * (n - 1) + self.entry_fee) by (nonlinear_arith);
            assert(self.entry_fee * (n - 1) >= 0) by (nonlinear_arith)
                requires
                    n >= 1,
                    self.entry_fee > 0,
            ;
        }
        self.players.remove(i);
        self.pot = self.pot - self.entry_fee;
        let mut ts: Vec<Transfer> = Vec::new();
        ts.push(Transfer { token: self.token, from: custody, to: player, amount: self.entry_fee });
        assert(ts@ =~= seq![transfer_of(self.token, custody, player, self.entry_fee as int)]);
        Ok(ts)
    }

    /// `commits` with `player`'s digest set to `digest`.
    pub open spec fn commits_with(commits: Seq<Commit>, player: Address, digest: [u8; 32]) -> Seq<Commit> {
        if commit_keys(commits).contains(player) {
            commits.update(index_of(commit_keys(commits), player), Commit { player, digest })
        } else {
            commits.push(Commit { player, digest })
        }
    }

    pub open spec fn commit_error(&self, player: Address, now: u64) -> Option<Error> {
        if self.status != Status::Submission {
            Some(Error::InvalidStatus)
        } else if now > self.submission_deadline {
            Some(Error::DeadlinePassed)
        } else if !self.players@.contains(player) {
            Some(Error::NotPlayer)
        } else {
            None
        }
    }

    fn find_commit(&self, player: Address) -> (r: Option<usize>)
        requires
            distinct(commit_keys(self.commits@)),
        ensures
            commit_keys(self.commits@).contains(player) <==> r is Some,
            r matches Some(i) ==> i < self.commits@.len() && i as int == index_of(commit_keys(self.commits@), player),
    {
        let mut i: usize = 0;
        while i < self.commits.len()
            invariant
                distinct(commit_keys(self.commits@)),
                i <= self.commits@.len(),
                forall|k: int| 0 <= k < i ==> commit_keys(self.commits@)[k] != player,
            decreases self.commits@.len() - i,
        {
            if self.commits[i].player == player {
                proof {
                    assert(commit_keys(self.commits@)[i as int] == player);
                    lemma_index_of_unique(commit_keys(self.commits@), player, i as int);
                }
                return Some(i);
            }
            i += 1;
        }
        proof {
            if commit_keys(self.commits@).contains(player) {
                lemma_index_of(commit_keys(self.commits@), player);
            }
        }
        None
    }

    pub open spec fn submit_commit_post(pre: MatchData, post: MatchData, player: Address, digest: [u8; 32], now: u64, r: Result<(), Error>) -> bool {
        match pre.commit_error(player, now) {
            Some(err) => r == Err::<(), Error>(err) && post == pre,
            None => {
                let commits = Self::commits_with(pre.commits@, player, digest);
                &&& r is Ok
                &&& post.same_terms(&pre)
                &&& post.players@ == pre.players@
                &&& post.commits@ == commits
                &&& post.results@ == pre.results@
                &&& post.pot == pre.pot
                &&& post.submission_deadline == pre.submission_deadline
                &&& if commits.len() == pre.players@.len() {
                    post.status == Status::Reveal && post.reveal_deadline == deadline_after(
                        now,
                        pre.reveal_duration,
                    )
                } else {
                    post.status == Status::Submission && post.reveal_deadline == pre.reveal_deadline
                }
            },
        }
    }

    /// A player commits to a digest of its score during the submission phase; when
    /// every player has committed, the reveal phase starts.
    pub fn submit_commit(&mut self, player: Address, digest: [u8; 32], now: u64) -> (r: Result<(), Error>)
        requires
            old(self).wf(),
        ensures
            final(self).wf(),
            Self::submit_commit_post(*old(self), *final(self), player, digest, now, r),
    {
        if self.status != Status::Submission {
            return Err(Error::InvalidStatus);
        }
        if now > self.submission_deadline {
            return Err(Error::DeadlinePassed);
        }
        if !crate::common::contains_address(&self.players, player) {
            return Err(Error::NotPlayer);
        }
        let c = Commit { player, digest };
        match self.find_commit(player) {
            Some(i) => {
                self.commits.set(i, c);
                assert(commit_keys(self.commits@) =~= commit_keys(old(self).commits@));
            },
            None => {
                proof {
                    lemma_distinct_push(commit_keys(self.commits@), player);
                }
                self.commits.push(c);
                assert(commit_keys(self.commits@) =~= commit_keys(old(self).commits@).push(player));
            },
        }
        if self.commits.len() == self.players.len() {
            self.status = Status::Reveal;
            self.reveal_deadline = if self.reveal_duration <= u64::MAX - now {
                now + self.reveal_duration
            } else {
                u64::MAX
            };
        }
        Ok(())
    }

    /// `results` with `player`'s score set to `score`.
    pub open spec fn results_with(results: Seq<Score>, player: Address, score: i128) -> Seq<Score> {
        if score_keys(results).contains(player) {
            results.update(index_of(score_keys(results), player), Score { player, score })
        } else {
            results.push(Score { player, score })
        }
    }

    /// `results` without `player`'s score.
    pub open spec fn results_without(results: Seq<Score>, player: Address) -> Seq<Score> {
        if score_keys(results).contains(player) {
            results.remove(index_of(score_keys(results), player))
        } else {
            results
        }
    }

    fn find_result(&self, player: Address) -> (r: Option<usize>)
        requires
            distinct(score_keys(self.results@)),
        ensures
            score_keys(self.results@).contains(player) <==> r is Some,
            r matches Some(i) ==> i < self.results@.len() && i as int == index_of(score_keys(self.results@), player),
    {
        let mut i: usize = 0;
        while i < self.results.len()
            invariant
                distinct(score_keys(self.results@)),
                i <= self.results@.len(),
                forall|k: int| 0 <= k < i ==> score_keys(self.results@)[k] != player,
            decreases self.results@.len() - i,
        {
            if self.results[i].player == player {
                proof {
                    assert(score_keys(self.results@)[i as int] == player);
                    lemma_index_of_unique(score_keys(self.results@), player, i as int);
                }
                return Some(i);
            }
            i += 1;
        }
        proof {
            if score_keys(self.results@).contains(player) {
                lemma_index_of(score_keys(self.results@), player);
            }
        }
        None
    }

    pub open spec fn reveal_error(&self, player: Address, digest: [u8; 32], now: u64) -> Option<Error> {
        if self.status != Status::Reveal {
            Some(Error::InvalidStatus)
        } else if now > self.reveal_deadline {
            Some(Error::DeadlinePassed)
        } else if !self.players@.contains(player) {
            Some(Error::NotPlayer)
        } else if !commit_keys(self.commits@).contains(player) {
            Some(Error::NoResults)
        } else if self.commits@[index_of(commit_keys(self.commits@), player)].digest@ != digest@ {
            Some(Error::InvalidReveal)
        } else {
            None
        }
    }

    pub open spec fn reveal_result_post(pre: MatchData, post: MatchData, player: Address, score: i128, digest: [u8; 32], now: u64, r: Result<(), Error>) -> bool {
        match pre.reveal_error(player, digest, now) {
            Some(err) => r == Err::<(), Error>(err) && post == pre,
            None => {
                &&& r is Ok
                &&& post.same_terms(&pre)
                &&& post.players@ == pre.players@
                &&& post.commits@ == pre.commits@
                &&& post.results@ == Self::results_with(pre.results@, player, score)
                &&& post.disputes@ == pre.disputes@
                &&& post.resolved@ == pre.resolved@
                &&& post.status == pre.status
                &&& post.pot == pre.pot
                &&& post.submission_deadline == pre.submission_deadline
                &&& post.reveal_deadline == pre.reveal_deadline
            },
        }
    }

    /// A player reveals its score; `digest` is the hash of the player, the score
    /// and the secret, and must be the committed one.
    pub fn reveal_result(&mut self, player: Address, score: i128, digest: [u8; 32], now: u64) -> (r: Result<(), Error>)
        requires
            old(self).wf(),
        ensures
            final(self).wf(),
            Self::reveal_result_post(*old(self), *final(self), player, score, digest, now, r),
    {
        if self.status != Status::Reveal {
            return Err(Error::InvalidStatus);
        }
        if now > self.reveal_deadline {
            return Err(Error::DeadlinePassed);
        }
        if !crate::common::contains_address(&self.players, player) {
            return Err(Error::NotPlayer);
        }
        let ci = match self.find_commit(player) {
            Some(i) => i,
            None => {
                return Err(Error::NoResults);
            },
        };
        if !same_digest(&self.commits[ci].digest, &digest) {
            return Err(Error::InvalidReveal);
        }
        let sc = Score { player, score };
        match self.find_result(player) {
            Some(i) => {
                self.results.set(i, sc);
                assert(score_keys(self.results@) =~= score_keys(old(self).results@));
            },
            None => {
                proof {
                    lemma_distinct_push(score_keys(self.results@), player);
                }
                self.results.push(sc);
                assert(score_keys(self.results@) =~= score_keys(old(self).results@).push(player));
            },
        }
        Ok(())
    }

    pub open spec fn raise_error(&self, disputer: Address, disputed: Address) -> Option<Error> {
        if self.status != Status::Reveal {
            Some(Error::InvalidStatus)
        } else if !self.players@.contains(disputer) || !self.players@.contains(disputed) {
            Some(Error::NotPlayer)
        } else if disputer == disputed {
            Some(Error::InvalidOp)
        } else {
            None
        }
    }

    pub open spec fn raise_dispute_post(pre: MatchData, post: MatchData, disputer: Address, disputed: Address, r: Result<(), Error>) -> bool {
        match pre.raise_error(disputer, disputed) {
            Some(err) => r == Err::<(), Error>(err) && post == pre,
            None => {
                &&& r is Ok
                &&& post.same_terms(&pre)
                &&& post.players@ == pre.players@
                &&& post.commits@ == pre.commits@
                &&& post.results@ == pre.results@
                &&& post.disputes@.len() == 1
                &&& post.disputes@[0].disputed == disputed
                &&& post.disputes@[0].disputers@ == seq![disputer]
                &&& post.resolved@ == pre.resolved@
                &&& post.status == Status::Disputed
                &&& post.pot == pre.pot
                &&& post.submission_deadline == pre.submission_deadline
                &&& post.reveal_deadline == pre.reveal_deadline
            },
        }
    }

    /// During the reveal phase a player disputes another player's result; the
    /// match waits for the creator's ruling.
    pub fn raise_dispute(&mut self, disputer: Address, disputed: Address) -> (r: Result<(), Error>)
        requires
            old(self).wf(),
        ensures
            final(self).wf(),
            Self::raise_dispute_post(*old(self), *final(self), disputer, disputed, r),
    {
        if self.status != Status::Reveal {
            return Err(Error::InvalidStatus);
        }
        if !crate::common::contains_address(&self.players, disputer) || !crate::common::contains_address(
            &self.players,
            disputed,
        ) {
            return Err(Error::NotPlayer);
        }
        if disputer == disputed {
            return Err(Error::InvalidOp);
        }
        let mut disputers: Vec<Address> = Vec::new();
        disputers.push(disputer);
        self.disputes.push(Dispute { disputed, disputers });
        assert(dispute_keys(self.disputes@) =~= seq![disputed]);
        self.status = Status::Disputed;
        Ok(())
    }

    pub open spec fn resolve_error(&self, caller: Address, disputed: Address) -> Option<Error> {
        if caller != self.creator {
            Some(Error::NotCreator)
        } else if self.status != Status::Disputed {
            Some(Error::InvalidStatus)
        } else if !dispute_keys(self.disputes@).contains(disputed) {
            Some(Error::DisputeNotFound)
        } else if ruling_keys(self.resolved@).contains(disputed) {
            Some(Error::AlreadyResolved)
        } else {
            None
        }
    }

    pub open spec fn resolve_dispute_post(pre: MatchData, post: MatchData, caller: Address, disputed: Address, valid: bool, r: Result<(), Error>) -> bool {
        match pre.resolve_error(caller, disputed) {
            Some(err) => r == Err::<(), Error>(err) && post == pre,
            None => {
                let resolved = pre.resolved@.push(Ruling { player: disputed, valid });
                &&& r is Ok
                &&& post.same_terms(&pre)
                &&& post.players@ == pre.players@
                &&& post.commits@ == pre.commits@
                &&& post.results@ == if valid {
                    pre.results@
                } else {
                    Self::results_without(pre.results@, disputed)
                }
                &&& post.disputes@ == pre.disputes@
                &&& post.resolved@ == resolved
                &&& post.status == if forall|k: int|
                    0 <= k < pre.disputes@.len() ==> ruling_keys(resolved).contains(
                        #[trigger] dispute_keys(pre.disputes@)[k],
                    ) {
                    Status::Finished
                } else {
                    Status::Disputed
                }
                &&& post.pot == pre.pot
                &&& post.submission_deadline == pre.submission_deadline
                &&& post.reveal_deadline == pre.reveal_deadline
            },
        }
    }

    /// The creator rules on a disputed result; an invalid one is struck. When
    /// every dispute has a ruling, the match is finished.
    pub fn resolve_dispute(&mut self, caller: Address, disputed: Address, valid: bool) -> (r: Result<(), Error>)
        requires
            old(self).wf(),
        ensures
            final(self).wf(),
            Self::resolve_dispute_post(*old(self), *final(self), caller, disputed, valid, r),
    {
        if caller != self.creator {
            return Err(Error::NotCreator);
        }
        if self.status != Status::Disputed {
            return Err(Error::InvalidStatus);
        }
        let mut found: bool = false;
        let mut i: usize = 0;
        while i < self.disputes.len()
            invariant
                i <= self.disputes@.len(),
                found == (exists|k: int| 0 <= k < i && dispute_keys(self.disputes@)[k] == disputed),
            decreases self.disputes@.len() - i,
        {
            if self.disputes[i].disputed == disputed {
                found = true;
                assert(dispute_keys(self.disputes@)[i as int] == disputed);
            }
            i += 1;
        }
        if !found {
            return Err(Error::DisputeNotFound);
        }
        let mut j: usize = 0;
        while j < self.resolved.len()
            invariant
                *self == *old(self),
                old(self).wf(),
                old(self).status == Status::Disputed,
                caller == old(self).creator,
                dispute_keys(old(self).disputes@).contains(disputed),
                j <= self.resolved@.len(),
                forall|k: int| 0 <= k < j ==> ruling_keys(self.resolved@)[k] != disputed,
            decreases self.resolved@.len() - j,
        {
            if self.resolved[j].player == disputed {
                assert(ruling_keys(self.resolved@)[j as int] == disputed);
                return Err(Error::AlreadyResolved);
            }
            j += 1;
        }
        proof {
            lemma_distinct_push(ruling_keys(self.resolved@), disputed);
        }
        self.resolved.push(Ruling { player: disputed, valid });
        assert(ruling_keys(self.resolved@) =~= ruling_keys(old(self).resolved@).push(disputed));
        if !valid {
            match self.find_result(disputed) {
                Some(ri) => {
                    proof {
                        lemma_distinct_remove(score_keys(self.results@), ri as int);
                        assert(score_keys(self.results@.remove(ri as int)) =~= score_keys(self.results@).remove(ri as int));
                    }
                    self.results.remove(ri);
                },
                None => {},
            }
        }
        let mut all: bool = true;
        let mut k: usize = 0;
        while k < self.disputes.len()
            invariant
                k <= self.disputes@.len(),
                all == (forall|q: int|
                    0 <= q < k ==> ruling_keys(self.resolved@).contains(#[trigger] dispute_keys(self.disputes@)[q])),
            decreases self.disputes@.len() - k,
        {
            let key = self.disputes[k].disputed;
            let mut seen: bool = false;
            let mut m: usize = 0;
            while m < self.resolved.len()
                invariant
                    m <= self.resolved@.len(),
                    seen == (exists|q: int| 0 <= q < m && ruling_keys(self.resolved@)[q] == key),
                decreases self.resolved@.len() - m,
            {
                if self.resolved[m].player == key {
                    seen = true;
                    assert(ruling_keys(self.resolved@)[m as int] == key);
                }
                m += 1;
            }
            assert(dispute_keys(self.disputes@)[k as int] == key);
            if !seen {
                all = false;
            }
            k += 1;
        }
        if all {
            self.status = Status::Finished;
        }
        Ok(())
    }

    pub open spec fn evaluate_error(&self, now: u64) -> Option<Error> {
        if self.status == Status::Finished {
            None
        } else if now <= self.reveal_deadline {
            Some(Error::DeadlineNotReached)
        } else if self.status != Status::Reveal {
            Some(Error::InvalidStatus)
        } else {
            None
        }
    }

    pub open spec fn evaluate_post(pre: MatchData, post: MatchData, now: u64, custody: Address, r: Result<Vec<Transfer>, Error>) -> bool {
        match pre.evaluate_error(now) {
            Some(err) => r == Err::<Vec<Transfer>, Error>(err) && post == pre,
            None => {
                let valid = valid_of(pre.results@, pre.resolved@);
                &&& post.same_terms(&pre)
                &&& post.same_play(&pre)
                &&& post.submission_deadline == pre.submission_deadline
                &&& post.reveal_deadline == pre.reveal_deadline
                &&& r matches Ok(ts) && if valid.len() == 0 {
                    &&& ts@ == pre.fee_refunds(custody)
                    &&& post.pot == 0
                    &&& post.status == Status::Abandoned
                } else {
                    let w = winners_of(valid, max_of(valid));
                    let prize = (pre.pot as int) / (w.len() as int);
                    &&& w.len() > 0
                    &&& ts@ == prize_transfers(pre.token, custody, w, prize)
                    &&& post.pot == pre.pot - w.len() * prize
                    &&& post.status == Status::Finished
                }
            },
        }
    }

    /// Settles a finished match, or one whose reveal phase is over: the pot is
    /// shared equally among the players with the best valid score (the
    /// indivisible remainder stays in the pot); with no valid score at all, every
    /// entry fee is refunded and the match is abandoned.
    pub fn evaluate(&mut self, now: u64, custody: Address) -> (r: Result<Vec<Transfer>, Error>)
        requires
            old(self).wf(),
        ensures
            final(self).wf(),
            Self::evaluate_post(*old(self), *final(self), now, custody, r),
    {
        if self.status != Status::Finished {
            if now <= self.reveal_deadline {
                return Err(Error::DeadlineNotReached);
            }
            if self.status != Status::Reveal {
                return Err(Error::InvalidStatus);
            }
            self.status = Status::Finished;
        }
        let valid = valid_results(&self.results, &self.resolved);
        if valid.len() == 0 {
            return Ok(self.refund_all(custody));
        }
        let best = best_score(&valid);
        let winners = winners_among(&valid, best);
        proof {
            lemma_winners_nonempty(valid@);
        }
        let n = winners.len();
        proof {
            lemma_equal_split_within_pot(self.pot as int, n as int);
        }
        let prize = self.pot / (n as i128);
        let mut ts: Vec<Transfer> = Vec::new();
        let mut i: usize = 0;
        while i < n
            invariant
                n == winners@.len(),
                i <= n,
                ts@ == prize_transfers(self.token, custody, winners@, prize as int).take(i as int),
            decreases n - i,
        {
            ts.push(Transfer { token: self.token, from: custody, to: winners[i], amount: prize });
            i += 1;
            assert(ts@ =~= prize_transfers(self.token, custody, winners@, prize as int).take(i as int));
        }
        assert(ts@ =~= prize_transfers(self.token, custody, winners@, prize as int));
        assert(0 <= prize * n <= self.pot) by (nonlinear_arith)
            requires
                prize == (self.pot as int) / (n as int),
                0 <= n * ((self.pot as int) / (n as int)) <= self.pot,
        ;
        let paid = prize * (n as i128);
        assert(paid == n * prize) by (nonlinear_arith)
            requires
                paid == prize * n,
        ;
        self.pot = self.pot - paid;
        Ok(ts)
    }

    pub open spec fn timeout_error(&self, now: u64) -> Option<Error> {
        match self.status {
            Status::Open => if now > self.join_deadline && self.players@.len() < self.min_players {
                None
            } else {
                Some(Error::InvalidStatus)
            },
            Status::Submission => if now > self.submission_deadline {
                None
            } else {
                Some(Error::InvalidStatus)
            },
            Status::Reveal => if now > self.reveal_deadline {
                None
            } else {
                Some(Error::InvalidStatus)
            },
            _ => Some(Error::InvalidStatus),
        }
    }

    pub open spec fn handle_timeout_post(pre: MatchData, post: MatchData, now: u64, custody: Address, r: Result<Vec<Transfer>, Error>) -> bool {
        match pre.timeout_error(now) {
            Some(err) => r == Err::<Vec<Transfer>, Error>(err) && post == pre,
            None => {
                &&& post.same_terms(&pre)
                &&& post.same_play(&pre)
                &&& post.submission_deadline == pre.submission_deadline
                &&& r matches Ok(ts) && match pre.status {
                    Status::Open => {
                        &&& ts@ == pre.fee_refunds(custody)
                        &&& post.pot == 0
                        &&& post.status == Status::Abandoned
                        &&& post.reveal_deadline == pre.reveal_deadline
                    },
                    Status::Submission => {
                        &&& ts@.len() == 0
                        &&& post.pot == pre.pot
                        &&& post.status == Status::Reveal
                        &&& post.reveal_deadline == deadline_after(now, pre.reveal_duration)
                    },
                    _ => {
                        &&& ts@.len() == 0
                        &&& post.pot == pre.pot
                        &&& post.status == Status::Finished
                        &&& post.reveal_deadline == pre.reveal_deadline
                    },
                }
            },
        }
    }

    /// Anyone may push an overdue match on: an underfilled open match is
    /// abandoned and refunded, an overdue submission phase moves to reveal with
    /// what was committed, an overdue reveal phase finishes with what was revealed.
    pub fn handle_timeout(&mut self, now: u64, custody: Address) -> (r: Result<Vec<Transfer>, Error>)
        requires
            old(self).wf(),
        ensures
            final(self).wf(),
            Self::handle_timeout_post(*old(self), *final(self), now, custody, r),
    {
        match self.status {
            Status::Open => {
                if now > self.join_deadline && self.players.len() < self.min_players as usize {
                    Ok(self.refund_all(custody))
                } else {
                    Err(Error::InvalidStatus)
                }
            },
            Status::Submission => {
                if now > self.submission_deadline {
                    self.status = Status::Reveal;
                    self.reveal_deadline = if self.reveal_duration <= u64::MAX - now {
                        now + self.reveal_duration
                    } else {
                        u64::MAX
                    };
                    Ok(Vec::new())
                } else {
                    Err(Error::InvalidStatus)
                }
            },
            Status::Reveal => {
                if now > self.reveal_deadline {
                    self.status = Status::Finished;
                    Ok(Vec::new())
                } else {
                    Err(Error::InvalidStatus)
                }
            },
            _ => Err(Error::InvalidStatus),
        }
    }
}


/// The match contract's storage: matches by id (id `k` at position `k - 1`) and
/// the contract's own address, which holds the pots.
#[derive(Debug)]
pub struct MultiplayerPuzzleMatch {
    pub address: Address,
    pub matches: Vec<MatchData>,
}

impl MultiplayerPuzzleMatch {
    pub open spec fn wf(&self) -> bool {
        forall|i: int| 0 <= i < self.matches@.len() ==> (#[trigger] self.matches@[i]).wf()
    }

    pub open spec fn has_match(&self, id: u64) -> bool {
        1 <= id <= self.matches@.len()
    }

    pub open spec fn game(&self, id: u64) -> MatchData {
        self.matches@[id - 1]
    }

    /// Only the match `id` may have changed.
    pub open spec fn others_kept(&self, pre: &MultiplayerPuzzleMatch, id: u64) -> bool {
        &&& self.address == pre.address
        &&& self.matches@.len() == pre.matches@.len()
        &&& forall|j: int| 0 <= j < self.matches@.len() && j != id - 1 ==> #[trigger] self.matches@[j] == pre.matches@[j]
    }

    pub fn new(address: Address) -> (r: MultiplayerPuzzleMatch)
        ensures
            r.wf(),
            r.address == address,
            r.matches@.len() == 0,
    {
        MultiplayerPuzzleMatch { address, matches: Vec::new() }
    }

    /// Opens a match under the next id; see [`MatchData::open`].
    pub fn create_match(
        &mut self,
        creator: Address,
        token: Address,
        entry_fee: i128,
        max_players: u32,
        min_players: u32,
        join_duration: u64,
        submission_duration: u64,
        reveal_duration: u64,
        now: u64,
    ) -> (r: Result<(u64, Vec<Transfer>), Error>)
        requires
            old(self).wf(),
            old(self).matches@.len() < u64::MAX,
        ensures
            final(self).wf(),
            entry_fee <= 0 || entry_fee * (max_players + 1) > i128::MAX ==> r == Err::<(u64, Vec<Transfer>), Error>(
                Error::InvalidEntryFee,
            ) && *final(self) == *old(self),
            !(entry_fee <= 0 || entry_fee * (max_players + 1) > i128::MAX) ==> (r matches Ok((id, ts)) && {
                let m = final(self).matches@.last();
                &&& id == old(self).matches@.len() + 1
                &&& final(self).address == old(self).address
                &&& final(self).matches@.drop_last() == old(self).matches@
                &&& final(self).matches@.len() == old(self).matches@.len() + 1
                &&& m.creator == creator && m.token == token && m.entry_fee == entry_fee
                &&& m.max_players == max_players && m.min_players == min_players
                &&& m.players@ == seq![creator] && m.status == Status::Open && m.pot == entry_fee
                &&& m.join_deadline == deadline_after(now, join_duration)
                &&& ts@ == seq![transfer_of(token, creator, old(self).address, entry_fee as int)]
            }),
    {
        match MatchData::open(
            creator,
            token,
            entry_fee,
            max_players,
            min_players,
            join_duration,
            submission_duration,
            reveal_duration,
            now,
            self.address,
        ) {
            Ok((m, ts)) => {
                self.matches.push(m);
                assert(self.matches@.drop_last() =~= old(self).matches@);
                Ok((self.matches.len() as u64, ts))
            },
            Err(e) => Err(e),
        }
    }

    /// The match with this id, if there is one.
    pub fn get_match(&self, match_id: u64) -> (r: Option<&MatchData>)
        ensures
            self.has_match(match_id) ==> r == Some(&self.game(match_id)),
            !self.has_match(match_id) ==> r is None,
    {
        if match_id == 0 || match_id > self.matches.len() as u64 {
            None
        } else {
            Some(&self.matches[(match_id - 1) as usize])
        }
    }

    /// A player joins a match; see [`MatchData::join`].
    pub fn join_match(&mut self, match_id: u64, player: Address, now: u64) -> (r: Result<Vec<Transfer>, Error>)
        requires
            old(self).wf(),
        ensures
            final(self).wf(),
            !old(self).has_match(match_id) ==> r == Err::<Vec<Transfer>, Error>(Error::MatchNotFound)
                && *final(self) == *old(self),
            old(self).has_match(match_id) ==> final(self).others_kept(old(self), match_id)
                && MatchData::join_post(old(self).game(match_id), final(self).game(match_id), player, now, old(self).address, r),
    {
        if match_id == 0 || match_id > self.matches.len() as u64 {
            return Err(Error::MatchNotFound);
        }
        let idx = (match_id - 1) as usize;
        let custody = self.address;
        let r = self.matches[idx].join(player, now, custody);
        assert forall|j: int| 0 <= j < self.matches@.len() implies (#[trigger] self.matches@[j]).wf() by {
            if j != idx {
                assert(self.matches@[j] == old(self).matches@[j]);
            }
        }
        r
    }

    /// A player leaves an open match; see [`MatchData::leave`].
    pub fn leave_match(&mut self, match_id: u64, player: Address) -> (r: Result<Vec<Transfer>, Error>)
        requires
            old(self).wf(),
        ensures
            final(self).wf(),
            !old(self).has_match(match_id) ==> r == Err::<Vec<Transfer>, Error>(Error::MatchNotFound)
                && *final(self) == *old(self),
            old(self).has_match(match_id) ==> final(self).others_kept(old(self), match_id)
                && MatchData::leave_post(old(self).game(match_id), final(self).game(match_id), player, old(self).address, r),
    {
        if match_id == 0 || match_id > self.matches.len() as u64 {
            return Err(Error::MatchNotFound);
        }
        let idx = (match_id - 1) as usize;
        let custody = self.address;
        let r = self.matches[idx].leave(player, custody);
        assert forall|j: int| 0 <= j < self.matches@.len() implies (#[trigger] self.matches@[j]).wf() by {
            if j != idx {
                assert(self.matches@[j] == old(self).matches@[j]);
            }
        }
        r
    }

    /// A player commits to a score digest; see [`MatchData::submit_commit`].
    pub fn submit_commit(&mut self, match_id: u64, player: Address, commit_hash: [u8; 32], now: u64) -> (r: Result<(), Error>)
        requires
            old(self).wf(),
        ensures
            final(self).wf(),
            !old(self).has_match(match_id) ==> r == Err::<(), Error>(Error::MatchNotFound)
                && *final(self) == *old(self),
            old(self).has_match(match_id) ==> final(self).others_kept(old(self), match_id)
                && MatchData::submit_commit_post(old(self).game(match_id), final(self).game(match_id), player, commit_hash, now, r),
    {
        if match_id == 0 || match_id > self.matches.len() as u64 {
            return Err(Error::MatchNotFound);
        }
        let idx = (match_id - 1) as usize;
        let custody = self.address;
        let r = self.matches[idx].submit_commit(player, commit_hash, now);
        assert forall|j: int| 0 <= j < self.matches@.len() implies (#[trigger] self.matches@[j]).wf() by {
            if j != idx {
                assert(self.matches@[j] == old(self).matches@[j]);
            }
        }
        r
    }

    /// A player reveals its score; see [`MatchData::reveal_result`].
    pub fn reveal_result(&mut self, match_id: u64, player: Address, score: i128, digest: [u8; 32], now: u64) -> (r: Result<(), Error>)
        requires
            old(self).wf(),
        ensures
            final(self).wf(),
            !old(self).has_match(match_id) ==> r == Err::<(), Error>(Error::MatchNotFound)
                && *final(self) == *old(self),
            old(self).has_match(match_id) ==> final(self).others_kept(old(self), match_id)
                && MatchData::reveal_result_post(old(self).game(match_id), final(self).game(match_id), player, score, digest, now, r),
    {
        if match_id == 0 || match_id > self.matches.len() as u64 {
            return Err(Error::MatchNotFound);
        }
        let idx = (match_id - 1) as usize;
        let custody = self.address;
        let r = self.matches[idx].reveal_result(player, score, digest, now);
        assert forall|j: int| 0 <= j < self.matches@.len() implies (#[trigger] self.matches@[j]).wf() by {
            if j != idx {
                assert(self.matches@[j] == old(self).matches@[j]);
            }
        }
        r
    }

    /// A player disputes another's result; see [`MatchData::raise_dispute`].
    pub fn raise_dispute(&mut self, match_id: u64, disputer: Address, disputed: Address) -> (r: Result<(), Error>)
        requires
            old(self).wf(),
        ensures
            final(self).wf(),
            !old(self).has_match(match_id) ==> r == Err::<(), Error>(Error::MatchNotFound)
                && *final(self) == *old(self),
            old(self).has_match(match_id) ==> final(self).others_kept(old(self), match_id)
                && MatchData::raise_dispute_post(old(self).game(match_id), final(self).game(match_id), disputer, disputed, r),
    {
        if match_id == 0 || match_id > self.matches.len() as u64 {
            return Err(Error::MatchNotFound);
        }
        let idx = (match_id - 1) as usize;
        let custody = self.address;
        let r = self.matches[idx].raise_dispute(disputer, disputed);
        assert forall|j: int| 0 <= j < self.matches@.len() implies (#[trigger] self.matches@[j]).wf() by {
            if j != idx {
                assert(self.matches@[j] == old(self).matches@[j]);
            }
        }
        r
    }

    /// The creator rules on a dispute; see [`MatchData::resolve_dispute`].
    pub fn resolve_dispute(&mut self, match_id: u64, caller: Address, disputed: Address, valid: bool) -> (r: Result<(), Error>)
        requires
            old(self).wf(),
        ensures
            final(self).wf(),
            !old(self).has_match(match_id) ==> r == Err::<(), Error>(Error::MatchNotFound)
                && *final(self) == *old(self),
            old(self).has_match(match_id) ==> final(self).others_kept(old(self), match_id)
                && MatchData::resolve_dispute_post(old(self).game(match_id), final(self).game(match_id), caller, disputed, valid, r),
    {
        if match_id == 0 || match_id > self.matches.len() as u64 {
            return Err(Error::MatchNotFound);
        }
        let idx = (match_id - 1) as usize;
        let custody = self.address;
        let r = self.matches[idx].resolve_dispute(caller, disputed, valid);
        assert forall|j: int| 0 <= j < self.matches@.len() implies (#[trigger] self.matches@[j]).wf() by {
            if j != idx {
                assert(self.matches@[j] == old(self).matches@[j]);
            }
        }
        r
    }

    /// Pays out a finished match; see [`MatchData::evaluate`].
    pub fn evaluate_match(&mut self, match_id: u64, now: u64) -> (r: Result<Vec<Transfer>, Error>)
        requires
            old(self).wf(),
        ensures
            final(self).wf(),
            !old(self).has_match(match_id) ==> r == Err::<Vec<Transfer>, Error>(Error::MatchNotFound)
                && *final(self) == *old(self),
            old(self).has_match(match_id) ==> final(self).others_kept(old(self), match_id)
                && MatchData::evaluate_post(old(self).game(match_id), final(self).game(match_id), now, old(self).address, r),
    {
        if match_id == 0 || match_id > self.matches.len() as u64 {
            return Err(Error::MatchNotFound);
        }
        let idx = (match_id - 1) as usize;
        let custody = self.address;
        let r = self.matches[idx].evaluate(now, custody);
        assert forall|j: int| 0 <= j < self.matches@.len() implies (#[trigger] self.matches@[j]).wf() by {
            if j != idx {
                assert(self.matches@[j] == old(self).matches@[j]);
            }
        }
        r
    }

    /// Pushes an overdue match on; see [`MatchData::handle_timeout`].
    pub fn handle_timeout(&mut self, match_id: u64, now: u64) -> (r: Result<Vec<Transfer>, Error>)
        requires
            old(self).wf(),
        ensures
            final(self).wf(),
            !old(self).has_match(match_id) ==> r == Err::<Vec<Transfer>, Error>(Error::MatchNotFound)
                && *final(self) == *old(self),
            old(self).has_match(match_id) ==> final(self).others_kept(old(self), match_id)
                && MatchData::handle_timeout_post(old(self).game(match_id), final(self).game(match_id), now, old(self).address, r),
    {
        if match_id == 0 || match_id > self.matches.len() as u64 {
            return Err(Error::MatchNotFound);
        }
        let idx = (match_id - 1) as usize;
        let custody = self.address;
        let r = self.matches[idx].handle_timeout(now, custody);
        assert forall|j: int| 0 <= j < self.matches@.len() implies (#[trigger] self.matches@[j]).wf() by {
            if j != idx {
                assert(self.matches@[j] == old(self).matches@[j]);
            }
        }
        r
    }
}

} // verus!
