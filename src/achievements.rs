//! Achievement sets: achievements are grouped into sets, players collect them,
//! and completing a set earns its bonus points once. A set may cap how many
//! players can claim each of its achievements; collected marks can be traded.
//!
//! The keyed tables of the contract's storage are kept as logs of writes: the
//! value of a key is its latest write, and a key never written has its default.
use vstd::prelude::*;

use crate::common::Address;

verus! {

#[derive(Clone, Copy, Debug, PartialEq, Eq, Structural)]
pub enum Rarity {
    Common,
    Rare,
    Epic,
    Legendary,
}

#[derive(Debug)]
pub struct AchievementSet {
    pub id: u32,
    pub name: String,
    pub achievements: Vec<u32>,
    pub rarity: Rarity,
    /// How many players may claim each achievement of the set, if limited.
    pub limited_cap: Option<u32>,
    /// Awarded once to each player who completes the set.
    pub bonus_points: i128,
}

#[derive(Clone, Copy, Debug, PartialEq, Eq, Structural)]
pub enum AchievementError {
    AlreadyInitialized,
    EmptySet,
    AlreadyMapped,
    SetNotFound,
    NotMapped,
    CapReached,
    NotOwned,
    BonusOverflow,
}

/// Which set an achievement belongs to.
#[derive(Clone, Copy, Debug, PartialEq, Eq, Structural)]
pub struct SetMapping {
    pub achievement_id: u32,
    pub set_id: u32,
}

/// A player's collected achievements within a set.
#[derive(Debug)]
pub struct ProgressEntry {
    pub player: Address,
    pub set_id: u32,
    pub achievements: Vec<u32>,
}

/// How many players have claimed an achievement.
#[derive(Clone, Copy, Debug, PartialEq, Eq, Structural)]
pub struct ClaimCount {
    pub achievement_id: u32,
    pub count: u32,
}

/// A player's bonus point balance.
#[derive(Clone, Copy, Debug, PartialEq, Eq, Structural)]
pub struct BonusEntry {
    pub player: Address,
    pub points: i128,
}

/// A player has been awarded a set's bonus.
#[derive(Clone, Copy, Debug, PartialEq, Eq, Structural)]
pub struct Completion {
    pub player: Address,
    pub set_id: u32,
}

pub open spec fn set_of(log: Seq<SetMapping>, achievement_id: u32) -> Option<u32>
    decreases log.len(),
{
    if log.len() == 0 {
        None
    } else if log.last().achievement_id == achievement_id {
        Some(log.last().set_id)
    } else {
        set_of(log.drop_last(), achievement_id)
    }
}

pub open spec fn progress_of(log: Seq<ProgressEntry>, player: Address, set_id: u32) -> Seq<u32>
    decreases log.len(),
{
    if log.len() == 0 {
        seq![]
    } else if log.last().player == player && log.last().set_id == set_id {
        log.last().achievements@
    } else {
        progress_of(log.drop_last(), player, set_id)
    }
}

pub open spec fn claims_of(log: Seq<ClaimCount>, achievement_id: u32) -> u32
    decreases log.len(),
{
    if log.len() == 0 {
        0
    } else if log.last().achievement_id == achievement_id {
        log.last().count
    } else {
        claims_of(log.drop_last(), achievement_id)
    }
}

pub open spec fn points_of(log: Seq<BonusEntry>, player: Address) -> i128
    decreases log.len(),
{
    if log.len() == 0 {
        0
    } else if log.last().player == player {
        log.last().points
    } else {
        points_of(log.drop_last(), player)
    }
}

pub open spec fn completed_in(log: Seq<Completion>, player: Address, set_id: u32) -> bool {
    log.contains(Completion { player, set_id })
}

/// Whether `progress` holds every achievement of `set`.
pub open spec fn covers(set: Seq<u32>, progress: Seq<u32>) -> bool {
    progress.len() >= set.len() && forall|i: int| 0 <= i < set.len() ==> progress.contains(#[trigger] set[i])
}

/// `s` without any occurrence of `a`.
pub open spec fn without(s: Seq<u32>, a: u32) -> Seq<u32>
    decreases s.len(),
{
    if s.len() == 0 {
        seq![]
    } else if s.last() == a {
        without(s.drop_last(), a)
    } else {
        without(s.drop_last(), a).push(s.last())
    }
}

/// Whether `s` holds `x`.
pub fn contains_id(s: &Vec<u32>, x: u32) -> (r: bool)
    ensures
        r == s@.contains(x),
{
    let mut i: usize = 0;
    while i < s.len()
        invariant
            i <= s@.len(),
            forall|k: int| 0 <= k < i ==> s@[k] != x,
        decreases s@.len() - i,
    {
        if s[i] == x {
            assert(s@[i as int] == x);
            return true;
        }
        i += 1;
    }
    false
}

/// A copy of `s`.
pub fn copy_ids(s: &Vec<u32>) -> (r: Vec<u32>)
    ensures
        r@ == s@,
{
    let mut out: Vec<u32> = Vec::new();
    let mut i: usize = 0;
    while i < s.len()
        invariant
            i <= s@.len(),
            out@ == s@.take(i as int),
        decreases s@.len() - i,
    {
        out.push(s[i]);
        i += 1;
        assert(out@ =~= s@.take(i as int));
    }
    assert(s@.take(i as int) =~= s@);
    out
}

/// `s` without any occurrence of `a`.
pub fn remove_id(s: &Vec<u32>, a: u32) -> (r: Vec<u32>)
    ensures
        r@ == without(s@, a),
{
    let mut out: Vec<u32> = Vec::new();
    let mut i: usize = 0;
    while i < s.len()
        invariant
            i <= s@.len(),
            out@ == without(s@.take(i as int), a),
        decreases s@.len() - i,
    {
        proof {
            assert(s@.take(i + 1).drop_last() =~= s@.take(i as int));
        }
        if s[i] != a {
            out.push(s[i]);
        }
        i += 1;
    }
    assert(s@.take(i as int) =~= s@);
    out
}

/// Whether `progress` completes a set of `set_achievements`.
pub fn is_completed_internal(set_achievements: &Vec<u32>, progress: &Vec<u32>) -> (r: bool)
    ensures
        r == covers(set_achievements@, progress@),
{
    if progress.len() < set_achievements.len() {
        return false;
    }
    let mut i: usize = 0;
    while i < set_achievements.len()
        invariant
            i <= set_achievements@.len(),
            forall|k: int| 0 <= k < i ==> progress@.contains(#[trigger] set_achievements@[k]),
        decreases set_achievements@.len() - i,
    {
        if !contains_id(progress, set_achievements[i]) {
            return false;
        }
        i += 1;
    }
    true
}

/// The achievement contract's storage: sets by id (id `k` at position `k - 1`)
/// and the logs of its keyed tables.
#[derive(Debug)]
pub struct AchievementCollection {
    pub initialized: bool,
    pub sets: Vec<AchievementSet>,
    pub mappings: Vec<SetMapping>,
    pub progress: Vec<ProgressEntry>,
    pub claims: Vec<ClaimCount>,
    pub bonuses: Vec<BonusEntry>,
    pub completions: Vec<Completion>,
}

proof fn lemma_set_of_valid(log: Seq<SetMapping>, a: u32, n: int)
    requires
        forall|i: int| 0 <= i < log.len() ==> 1 <= (#[trigger] log[i]).set_id <= n,
    ensures
        set_of(log, a) matches Some(s) ==> 1 <= s <= n,
    decreases log.len(),
{
    if log.len() > 0 {
        lemma_set_of_valid(log.drop_last(), a, n);
    }
}

impl AchievementCollection {
    pub open spec fn wf(&self) -> bool {
        &&& forall|i: int| 0 <= i < self.sets@.len() ==> (#[trigger] self.sets@[i]).id == i + 1
        &&& forall|i: int| 0 <= i < self.mappings@.len() ==> 1 <= (#[trigger] self.mappings@[i]).set_id <= self.sets@.len()
    }

    pub open spec fn has_set(&self, set_id: u32) -> bool {
        1 <= set_id <= self.sets@.len()
    }

    pub open spec fn set(&self, set_id: u32) -> &AchievementSet {
        &self.sets@[set_id - 1]
    }

    /// The tables other than the sets and the mappings are those of `other`.
    pub open spec fn same_records(&self, other: &AchievementCollection) -> bool {
        &&& self.progress@ == other.progress@
        &&& self.claims@ == other.claims@
        &&& self.bonuses@ == other.bonuses@
        &&& self.completions@ == other.completions@
    }

    pub fn new() -> (r: AchievementCollection)
        ensures
            r.wf(),
            !r.initialized,
            r.sets@.len() == 0,
            r.mappings@.len() == 0,
            r.progress@.len() == 0,
            r.claims@.len() == 0,
            r.bonuses@.len() == 0,
            r.completions@.len() == 0,
    {
        AchievementCollection {
            initialized: false,
            sets: Vec::new(),
            mappings: Vec::new(),
            progress: Vec::new(),
            claims: Vec::new(),
            bonuses: Vec::new(),
            completions: Vec::new(),
        }
    }

    /// Marks the contract initialized, once.
    pub fn initialize(&mut self) -> (r: Result<(), AchievementError>)
        ensures
            old(self).initialized ==> r == Err::<(), AchievementError>(AchievementError::AlreadyInitialized)
                && *final(self) == *old(self),
            !old(self).initialized ==> r is Ok && final(self).initialized && final(self).sets@ == old(
                self,
            ).sets@ && final(self).mappings@ == old(self).mappings@ && final(self).same_records(old(self)),
    {
        if self.initialized {
            return Err(AchievementError::AlreadyInitialized);
        }
        self.initialized = true;
        Ok(())
    }

    /// The set an achievement belongs to.
    pub fn find_set_of(&self, achievement_id: u32) -> (r: Option<u32>)
        requires
            self.wf(),
        ensures
            r == set_of(self.mappings@, achievement_id),
            r matches Some(s) ==> self.has_set(s),
    {
        proof {
            lemma_set_of_valid(self.mappings@, achievement_id, self.sets@.len() as int);
        }
        let mut j = self.mappings.len();
        assert(self.mappings@.take(j as int) =~= self.mappings@);
        while j > 0
            invariant
                j <= self.mappings@.len(),
                set_of(self.mappings@, achievement_id) == set_of(self.mappings@.take(j as int), achievement_id),
                set_of(self.mappings@, achievement_id) matches Some(s) ==> 1 <= s <= self.sets@.len(),
            decreases j,
        {
            j -= 1;
            assert(self.mappings@.take(j + 1).drop_last() =~= self.mappings@.take(j as int));
            if self.mappings[j].achievement_id == achievement_id {
                return Some(self.mappings[j].set_id);
            }
        }
        None
    }

    /// `player`'s collected achievements in a set.
    pub fn progress(&self, player: Address, set_id: u32) -> (r: Vec<u32>)
        ensures
            r@ == progress_of(self.progress@, player, set_id),
    {
        let mut j = self.progress.len();
        assert(self.progress@.take(j as int) =~= self.progress@);
        while j > 0
            invariant
                j <= self.progress@.len(),
                progress_of(self.progress@, player, set_id) == progress_of(self.progress@.take(j as int), player, set_id),
            decreases j,
        {
            j -= 1;
            assert(self.progress@.take(j + 1).drop_last() =~= self.progress@.take(j as int));
            if self.progress[j].player == player && self.progress[j].set_id == set_id {
                return copy_ids(&self.progress[j].achievements);
            }
        }
        Vec::new()
    }

    /// How many players have claimed an achievement.
    pub fn claim_count(&self, achievement_id: u32) -> (r: u32)
        ensures
            r == claims_of(self.claims@, achievement_id),
    {
        let mut j = self.claims.len();
        assert(self.claims@.take(j as int) =~= self.claims@);
        while j > 0
            invariant
                j <= self.claims@.len(),
                claims_of(self.claims@, achievement_id) == claims_of(self.claims@.take(j as int), achievement_id),
            decreases j,
        {
            j -= 1;
            assert(self.claims@.take(j + 1).drop_last() =~= self.claims@.take(j as int));
            if self.claims[j].achievement_id == achievement_id {
                return self.claims[j].count;
            }
        }
        0
    }

    /// `player`'s bonus points.
    pub fn bonus_of(&self, player: Address) -> (r: i128)
        ensures
            r == points_of(self.bonuses@, player),
    {
        let mut j = self.bonuses.len();
        assert(self.bonuses@.take(j as int) =~= self.bonuses@);
        while j > 0
            invariant
                j <= self.bonuses@.len(),
                points_of(self.bonuses@, player) == points_of(self.bonuses@.take(j as int), player),
            decreases j,
        {
            j -= 1;
            assert(self.bonuses@.take(j + 1).drop_last() =~= self.bonuses@.take(j as int));
            if self.bonuses[j].player == player {
                return self.bonuses[j].points;
            }
        }
        0
    }

    /// Whether `player` has been awarded the bonus of a set.
    pub fn bonus_awarded(&self, player: Address, set_id: u32) -> (r: bool)
        ensures
            r == completed_in(self.completions@, player, set_id),
    {
        let target = Completion { player, set_id };
        let mut i: usize = 0;
        while i < self.completions.len()
            invariant
                target == (Completion { player, set_id }),
                i <= self.completions@.len(),
                forall|k: int| 0 <= k < i ==> self.completions@[k] != target,
            decreases self.completions@.len() - i,
        {
            if self.completions[i] == target {
                assert(self.completions@[i as int] == target);
                assert(self.completions@.contains(target));
                return true;
            }
            i += 1;
        }
        false
    }

    /// The set with this id, if there is one.
    pub fn get_set(&self, set_id: u32) -> (r: Option<&AchievementSet>)
        ensures
            self.has_set(set_id) ==> r == Some(self.set(set_id)),
            !self.has_set(set_id) ==> r is None,
    {
        if set_id == 0 || set_id as usize > self.sets.len() {
            None
        } else {
            Some(&self.sets[(set_id - 1) as usize])
        }
    }

    /// Whether `player` has collected every achievement of a set.
    pub fn is_completed(&self, player: Address, set_id: u32) -> (r: Result<bool, AchievementError>)
        ensures
            !self.has_set(set_id) ==> r == Err::<bool, AchievementError>(AchievementError::SetNotFound),
            self.has_set(set_id) ==> r == Ok::<bool, AchievementError>(
                covers(self.set(set_id).achievements@, progress_of(self.progress@, player, set_id)),
            ),
    {
        if set_id == 0 || set_id as usize > self.sets.len() {
            return Err(AchievementError::SetNotFound);
        }
        let prog = self.progress(player, set_id);
        Ok(is_completed_internal(&self.sets[(set_id - 1) as usize].achievements, &prog))
    }

    /// Whether a new set of `achievements` would clash: an achievement already
    /// belongs to a set, or occurs twice.
    pub open spec fn clashes(&self, achievements: Seq<u32>) -> bool {
        exists|k: int|
            0 <= k < achievements.len() && (set_of(self.mappings@, #[trigger] achievements[k]) is Some || exists|j: int|
                0 <= j < k && achievements[j] == achievements[k])
    }

    /// Creates a set under the next id and maps each of its achievements to it.
    pub fn create_set(
        &mut self,
        name: String,
        achievements: Vec<u32>,
        rarity: Rarity,
        limited_cap: Option<u32>,
        bonus_points: i128,
    ) -> (r: Result<u32, AchievementError>)
        requires
            old(self).wf(),
            old(self).sets@.len() < u32::MAX,
        ensures
            final(self).wf(),
            achievements@.len() == 0 ==> r == Err::<u32, AchievementError>(AchievementError::EmptySet)
                && *final(self) == *old(self),
            achievements@.len() > 0 && old(self).clashes(achievements@) ==> r == Err::<u32, AchievementError>(
                AchievementError::AlreadyMapped,
            ) && *final(self) == *old(self),
            achievements@.len() > 0 && !old(self).clashes(achievements@) ==> {
                let id = (old(self).sets@.len() + 1) as u32;
                let set = final(self).sets@.last();
                &&& r == Ok::<u32, AchievementError>(id)
                &&& final(self).initialized == old(self).initialized
                &&& final(self).same_records(old(self))
                &&& final(self).sets@.drop_last() == old(self).sets@
                &&& final(self).sets@.len() == old(self).sets@.len() + 1
                &&& set.id == id && set.name@ == name@ && set.achievements@ == achievements@
                &&& set.rarity == rarity && set.limited_cap == limited_cap && set.bonus_points == bonus_points
                &&& final(self).mappings@ == old(self).mappings@ + Seq::new(
                    achievements@.len(),
                    |k: int| SetMapping { achievement_id: achievements@[k], set_id: id },
                )
            },
    {
        let n = achievements.len();
        if n == 0 {
            return Err(AchievementError::EmptySet);
        }
        let mut k: usize = 0;
        while k < n
            invariant
                n == achievements@.len(),
                k <= n,
                *self == *old(self),
                old(self).wf(),
                forall|q: int|
                    0 <= q < k ==> !(set_of(self.mappings@, #[trigger] achievements@[q]) is Some || exists|j: int|
                        0 <= j < q && achievements@[j] == achievements@[q]),
            decreases n - k,
        {
            let a = achievements[k];
            if self.find_set_of(a).is_some() {
                return Err(AchievementError::AlreadyMapped);
            }
            let mut j: usize = 0;
            while j < k
                invariant
                    j <= k < n,
                    *self == *old(self),
                    old(self).wf(),
                    n == achievements@.len(),
                    a == achievements@[k as int],
                    forall|q: int| 0 <= q < j ==> achievements@[q] != a,
                decreases k - j,
            {
                if achievements[j] == a {
                    assert(achievements@[j as int] == achievements@[k as int]);
                    return Err(AchievementError::AlreadyMapped);
                }
                j += 1;
            }
            k += 1;
        }
        let id = (self.sets.len() + 1) as u32;
        let mut i: usize = 0;
        while i < n
            invariant
                n == achievements@.len(),
                i <= n,
                old(self).wf(),
                self.sets@ == old(self).sets@,
                self.mappings@ == old(self).mappings@ + Seq::new(
                    i as nat,
                    |q: int| SetMapping { achievement_id: achievements@[q], set_id: id },
                ),
                forall|q: int| 0 <= q < self.mappings@.len() ==> 1 <= (#[trigger] self.mappings@[q]).set_id <= self.sets@.len() + 1,
                id == self.sets@.len() + 1,
                self.initialized == old(self).initialized,
                self.same_records(old(self)),
            decreases n - i,
        {
            self.mappings.push(SetMapping { achievement_id: achievements[i], set_id: id });
            i += 1;
            assert(self.mappings@ =~= old(self).mappings@ + Seq::new(
                i as nat,
                |q: int| SetMapping { achievement_id: achievements@[q], set_id: id },
            ));
        }
        self.sets.push(AchievementSet { id, name, achievements, rarity, limited_cap, bonus_points });
        assert(self.sets@.drop_last() =~= old(self).sets@);
        Ok(id)
    }

    pub open spec fn add_error(&self, set_id: u32, achievement_id: u32) -> Option<AchievementError> {
        if !self.has_set(set_id) {
            Some(AchievementError::SetNotFound)
        } else if self.set(set_id).achievements@.contains(achievement_id) {
            None
        } else if set_of(self.mappings@, achievement_id) is Some {
            Some(AchievementError::AlreadyMapped)
        } else {
            None
        }
    }

    /// Adds an achievement to an existing set; adding one it already has changes
    /// nothing.
    pub fn add_achievement_to_set(&mut self, set_id: u32, achievement_id: u32) -> (r: Result<(), AchievementError>)
        requires
            old(self).wf(),
        ensures
            final(self).wf(),
            match old(self).add_error(set_id, achievement_id) {
                Some(err) => r == Err::<(), AchievementError>(err) && *final(self) == *old(self),
                None => r is Ok && if old(self).set(set_id).achievements@.contains(achievement_id) {
                    *final(self) == *old(self)
                } else {
                    let i = set_id - 1;
                    &&& final(self).initialized == old(self).initialized
                    &&& final(self).same_records(old(self))
                    &&& final(self).sets@.len() == old(self).sets@.len()
                    &&& forall|j: int| 0 <= j < old(self).sets@.len() && j != i ==> #[trigger] final(self).sets@[j] == old(self).sets@[j]
                    &&& final(self).sets@[i].id == old(self).sets@[i].id
                    &&& final(self).sets@[i].name == old(self).sets@[i].name
                    &&& final(self).sets@[i].rarity == old(self).sets@[i].rarity
                    &&& final(self).sets@[i].limited_cap == old(self).sets@[i].limited_cap
                    &&& final(self).sets@[i].bonus_points == old(self).sets@[i].bonus_points
                    &&& final(self).sets@[i].achievements@ == old(self).sets@[i].achievements@.push(achievement_id)
                    &&& final(self).mappings@ == old(self).mappings@.push(
                        SetMapping { achievement_id, set_id },
                    )
                },
            },
    {
        if set_id == 0 || set_id as usize > self.sets.len() {
            return Err(AchievementError::SetNotFound);
        }
        let idx = (set_id - 1) as usize;
        if contains_id(&self.sets[idx].achievements, achievement_id) {
            return Ok(());
        }
        if self.find_set_of(achievement_id).is_some() {
            return Err(AchievementError::AlreadyMapped);
        }
        self.sets[idx].achievements.push(achievement_id);
        self.mappings.push(SetMapping { achievement_id, set_id });
        assert forall|j: int| 0 <= j < self.sets@.len() implies (#[trigger] self.sets@[j]).id == j + 1 by {
            if j != idx {
                assert(self.sets@[j] == old(self).sets@[j]);
            }
        }
        Ok(())
    }

    /// `player`'s progress in the set of `achievement_id` once it is recorded.
    pub open spec fn recorded_progress(&self, player: Address, set_id: u32, achievement_id: u32) -> Seq<u32> {
        let prog = progress_of(self.progress@, player, set_id);
        if prog.contains(achievement_id) {
            prog
        } else {
            prog.push(achievement_id)
        }
    }

    /// Whether recording completes the set for the first time, earning its bonus.
    pub open spec fn earns_bonus(&self, player: Address, set_id: u32, achievement_id: u32) -> bool {
        covers(self.set(set_id).achievements@, self.recorded_progress(player, set_id, achievement_id))
            && !completed_in(self.completions@, player, set_id)
    }

    pub open spec fn record_error(&self, player: Address, achievement_id: u32) -> Option<AchievementError> {
        match set_of(self.mappings@, achievement_id) {
            None => Some(AchievementError::NotMapped),
            Some(sid) => {
                let owned = progress_of(self.progress@, player, sid).contains(achievement_id);
                if self.set(sid).limited_cap matches Some(cap) && !owned && claims_of(self.claims@, achievement_id)
                    >= cap {
                    Some(AchievementError::CapReached)
                } else if self.earns_bonus(player, sid, achievement_id) && points_of(self.bonuses@, player)
                    + self.set(sid).bonus_points > i128::MAX {
                    Some(AchievementError::BonusOverflow)
                } else if self.earns_bonus(player, sid, achievement_id) && points_of(self.bonuses@, player)
                    + self.set(sid).bonus_points < i128::MIN {
                    Some(AchievementError::BonusOverflow)
                } else {
                    None
                }
            },
        }
    }

    /// A player collects an achievement: a new claim counts against the set's
    /// cap, and completing the set earns its bonus once. Returns whether the
    /// player's progress now completes the set.
    pub fn record_achievement(&mut self, player: Address, achievement_id: u32) -> (r: Result<bool, AchievementError>)
        requires
            old(self).wf(),
        ensures
            final(self).wf(),
            match old(self).record_error(player, achievement_id) {
                Some(err) => r == Err::<bool, AchievementError>(err) && *final(self) == *old(self),
                None => {
                    let sid = set_of(old(self).mappings@, achievement_id)->0;
                    let set = old(self).set(sid);
                    let owned = progress_of(old(self).progress@, player, sid).contains(achievement_id);
                    let prog = old(self).recorded_progress(player, sid, achievement_id);
                    let award = old(self).earns_bonus(player, sid, achievement_id);
                    &&& r == Ok::<bool, AchievementError>(covers(set.achievements@, prog))
                    &&& final(self).initialized == old(self).initialized
                    &&& final(self).sets@ == old(self).sets@
                    &&& final(self).mappings@ == old(self).mappings@
                    &&& final(self).claims@ == if set.limited_cap is Some && !owned {
                        old(self).claims@.push(
                            ClaimCount {
                                achievement_id,
                                count: (claims_of(old(self).claims@, achievement_id) + 1) as u32,
                            },
                        )
                    } else {
                        old(self).claims@
                    }
                    &&& if owned {
                        final(self).progress@ == old(self).progress@
                    } else {
                        &&& final(self).progress@.drop_last() == old(self).progress@
                        &&& final(self).progress@.len() == old(self).progress@.len() + 1
                        &&& final(self).progress@.last().player == player
                        &&& final(self).progress@.last().set_id == sid
                        &&& final(self).progress@.last().achievements@ == prog
                    }
                    &&& final(self).bonuses@ == if award {
                        old(self).bonuses@.push(
                            BonusEntry {
                                player,
                                points: (points_of(old(self).bonuses@, player) + set.bonus_points) as i128,
                            },
                        )
                    } else {
                        old(self).bonuses@
                    }
                    &&& final(self).completions@ == if award {
                        old(self).completions@.push(Completion { player, set_id: sid })
                    } else {
                        old(self).completions@
                    }
                },
            },
    {
        let sid = match self.find_set_of(achievement_id) {
            Some(s) => s,
            None => {
                return Err(AchievementError::NotMapped);
            },
        };
        let sidx = (sid - 1) as usize;
        let mut prog = self.progress(player, sid);
        let owned = contains_id(&prog, achievement_id);
        let cap = self.sets[sidx].limited_cap;
        let count = self.claim_count(achievement_id);
        if let Some(c) = cap {
            if !owned && count >= c {
                return Err(AchievementError::CapReached);
            }
        }
        if !owned {
            prog.push(achievement_id);
        }
        let completed = is_completed_internal(&self.sets[sidx].achievements, &prog);
        let award = completed && !self.bonus_awarded(player, sid);
        let points = self.bonus_of(player);
        let set_bonus = self.sets[sidx].bonus_points;
        let new_points: i128 = if award {
            match points.checked_add(set_bonus) {
                Some(p) => p,
                None => {
                    return Err(AchievementError::BonusOverflow);
                },
            }
        } else {
            points
        };
        if cap.is_some() && !owned {
            self.claims.push(ClaimCount { achievement_id, count: count + 1 });
        }
        if !owned {
            self.progress.push(ProgressEntry { player, set_id: sid, achievements: prog });
        }
        if award {
            self.bonuses.push(BonusEntry { player, points: new_points });
            self.completions.push(Completion { player, set_id: sid });
        }
        Ok(completed)
    }

    pub open spec fn transfer_error(&self, from: Address, achievement_id: u32) -> Option<AchievementError> {
        match set_of(self.mappings@, achievement_id) {
            None => Some(AchievementError::NotMapped),
            Some(sid) => if !progress_of(self.progress@, from, sid).contains(achievement_id) {
                Some(AchievementError::NotOwned)
            } else {
                None
            },
        }
    }

    /// Moves a collected achievement from one player to another within its set.
    /// Claim counts are not touched: a traded mark is no new claim.
    pub fn transfer_progress(&mut self, from: Address, to: Address, achievement_id: u32) -> (r: Result<
        (),
        AchievementError,
    >)
        requires
            old(self).wf(),
        ensures
            final(self).wf(),
            match old(self).transfer_error(from, achievement_id) {
                Some(err) => r == Err::<(), AchievementError>(err) && *final(self) == *old(self),
                None => {
                    let sid = set_of(old(self).mappings@, achievement_id)->0;
                    let n = old(self).progress@.len();
                    let from_new = without(progress_of(old(self).progress@, from, sid), achievement_id);
                    let to_old = if to == from {
                        from_new
                    } else {
                        progress_of(old(self).progress@, to, sid)
                    };
                    &&& r is Ok
                    &&& final(self).initialized == old(self).initialized
                    &&& final(self).sets@ == old(self).sets@
                    &&& final(self).mappings@ == old(self).mappings@
                    &&& final(self).claims@ == old(self).claims@
                    &&& final(self).bonuses@ == old(self).bonuses@
                    &&& final(self).completions@ == old(self).completions@
                    &&& final(self).progress@.take(n as int) == old(self).progress@
                    &&& final(self).progress@[n as int].player == from
                    &&& final(self).progress@[n as int].set_id == sid
                    &&& final(self).progress@[n as int].achievements@ == from_new
                    &&& if to_old.contains(achievement_id) {
                        final(self).progress@.len() == n + 1
                    } else {
                        &&& final(self).progress@.len() == n + 2
                        &&& final(self).progress@[n + 1int].player == to
                        &&& final(self).progress@[n + 1int].set_id == sid
                        &&& final(self).progress@[n + 1int].achievements@ == to_old.push(achievement_id)
                    }
                },
            },
    {
        let sid = match self.find_set_of(achievement_id) {
            Some(s) => s,
            None => {
                return Err(AchievementError::NotMapped);
            },
        };
        let from_prog = self.progress(from, sid);
        if !contains_id(&from_prog, achievement_id) {
            return Err(AchievementError::NotOwned);
        }
        let new_from = remove_id(&from_prog, achievement_id);
        self.progress.push(ProgressEntry { player: from, set_id: sid, achievements: new_from });
        let mut to_prog = self.progress(to, sid);
        proof {
            assert(self.progress@.drop_last() == old(self).progress@);
        }
        if !contains_id(&to_prog, achievement_id) {
            to_prog.push(achievement_id);
            self.progress.push(ProgressEntry { player: to, set_id: sid, achievements: to_prog });
            assert(self.progress@.take(old(self).progress@.len() as int) =~= old(self).progress@);
        } else {
            assert(self.progress@.take(old(self).progress@.len() as int) =~= old(self).progress@);
        }
        Ok(())
    }
}

} // verus!
