//! Crafting: the admin registers recipes; a player who owns every ingredient
//! token may, outside the recipe's cooldown, try to craft. Success is decided by
//! a roll in `0..100` against the recipe's success rate; on success the
//! ingredients are to be burned and the output minted, which the host does.
//!
//! The host supplies what the contract cannot know itself: the current owner of
//! each ingredient token (`None` where the lookup failed) and the roll.
use vstd::prelude::*;

use crate::common::Address;

verus! {

#[derive(Clone, Copy, Debug, PartialEq, Eq, Structural)]
pub struct Ingredient {
    pub token_address: Address,
    pub token_id: u32,
    /// One for a non-fungible token; fungible ingredients are not supported.
    pub amount: u32,
}

#[derive(Clone, Copy, Debug, PartialEq, Eq, Structural)]
pub enum Rarity {
    Common,
    Uncommon,
    Rare,
    Epic,
    Legendary,
}

#[derive(Debug)]
pub struct Recipe {
    pub id: u32,
    pub name: String,
    pub description: String,
    pub ingredients: Vec<Ingredient>,
    pub output_token_address: Address,
    pub output_token_id: u32,
    /// Percentage, `0..=100`.
    pub success_rate: u32,
    pub rarity: Rarity,
    pub cooldown_seconds: u64,
    pub enabled: bool,
}

#[derive(Clone, Copy, Debug, PartialEq, Eq, Structural)]
pub enum CraftError {
    AlreadyInitialized,
    NotInitialized,
    InvalidSuccessRate,
    InvalidRarity,
    RecipeNotFound,
    RecipeDisabled,
    CooldownActive,
    InvalidIngredients,
    CraftFailed,
}

/// When a player last crafted.
#[derive(Clone, Copy, Debug, PartialEq, Eq, Structural)]
pub struct Cooldown {
    pub player: Address,
    pub last_craft: u64,
}

/// What a successful craft asks of the host: burn these ingredient tokens, then
/// mint the output for the player.
#[derive(Debug)]
pub struct CraftOrder {
    pub burns: Vec<Ingredient>,
    pub output_token_address: Address,
    pub output_token_id: u32,
}

pub open spec fn rarity_of(code: u32) -> Option<Rarity> {
    if code == 0 {
        Some(Rarity::Common)
    } else if code == 1 {
        Some(Rarity::Uncommon)
    } else if code == 2 {
        Some(Rarity::Rare)
    } else if code == 3 {
        Some(Rarity::Epic)
    } else if code == 4 {
        Some(Rarity::Legendary)
    } else {
        None
    }
}

/// The rarity with this code.
pub fn rarity_from_code(code: u32) -> (r: Option<Rarity>)
    ensures
        r == rarity_of(code),
{
    match code {
        0 => Some(Rarity::Common),
        1 => Some(Rarity::Uncommon),
        2 => Some(Rarity::Rare),
        3 => Some(Rarity::Epic),
        4 => Some(Rarity::Legendary),
        _ => None,
    }
}

/// Whether `player` owns every ingredient, `owners[i]` being the owner found
/// for ingredient `i`.
pub open spec fn owns_all(ingredients: Seq<Ingredient>, owners: Seq<Option<Address>>, player: Address) -> bool {
    forall|i: int| 0 <= i < ingredients.len() ==> #[trigger] owns_one(ingredients, owners, player, i)
}

/// Whether `player` owns ingredient `i`, a non-fungible token.
pub open spec fn owns_one(ingredients: Seq<Ingredient>, owners: Seq<Option<Address>>, player: Address, i: int) -> bool {
    ingredients[i].amount == 1 && i < owners.len() && owners[i] == Some(player)
}

pub open spec fn last_craft_of(log: Seq<Cooldown>, player: Address) -> u64
    decreases log.len(),
{
    if log.len() == 0 {
        0
    } else if log.last().player == player {
        log.last().last_craft
    } else {
        last_craft_of(log.drop_last(), player)
    }
}

/// Whether `player` owns every ingredient.
pub fn validate_ingredients(player: Address, ingredients: &Vec<Ingredient>, owners: &Vec<Option<Address>>) -> (r: bool)
    ensures
        r == owns_all(ingredients@, owners@, player),
{
    let mut i: usize = 0;
    while i < ingredients.len()
        invariant
            i <= ingredients@.len(),
            forall|k: int| 0 <= k < i ==> #[trigger] owns_one(ingredients@, owners@, player, k),
        decreases ingredients@.len() - i,
    {
        let mut ok_here = ingredients[i].amount == 1 && i < owners.len();
        if ok_here {
            ok_here = match owners[i] {
                Some(o) => o == player,
                None => false,
            };
        }
        assert(ok_here == owns_one(ingredients@, owners@, player, i as int));
        if !ok_here {
            return false;
        }
        assert(owns_one(ingredients@, owners@, player, i as int));
        i += 1;
    }
    true
}

/// A copy of the ingredient list.
pub fn copy_ingredients(s: &Vec<Ingredient>) -> (r: Vec<Ingredient>)
    ensures
        r@ == s@,
{
    let mut out: Vec<Ingredient> = Vec::new();
    let mut i: usize = 0;
    while i < s.len()
        invariant
            i <= s@.len(),
            out@ == s@.take(i as int),
        decreases s@.len() - i,
    {
        out.push(s[i]);
        i += 1;
        assert(out@ =~= s@.take(i as int));
    }
    assert(s@.take(i as int) =~= s@);
    out
}

/// The crafting contract's storage: the admin and the ownership registry set at
/// initialization, recipes by id (id `k` at position `k - 1`), and the log of
/// crafting times.
#[derive(Debug)]
pub struct CraftingContract {
    pub admin: Option<Address>,
    pub nft_contract: Option<Address>,
    pub recipes: Vec<Recipe>,
    pub cooldowns: Vec<Cooldown>,
}

impl CraftingContract {
    pub open spec fn wf(&self) -> bool {
        forall|i: int| 0 <= i < self.recipes@.len() ==> (#[trigger] self.recipes@[i]).id == i + 1
    }

    pub open spec fn has_recipe(&self, id: u32) -> bool {
        1 <= id <= self.recipes@.len()
    }

    pub open spec fn recipe(&self, id: u32) -> &Recipe {
        &self.recipes@[id - 1]
    }

    pub fn new() -> (r: CraftingContract)
        ensures
            r.wf(),
            r.admin is None,
            r.nft_contract is None,
            r.recipes@.len() == 0,
            r.cooldowns@.len() == 0,
    {
        CraftingContract { admin: None, nft_contract: None, recipes: Vec::new(), cooldowns: Vec::new() }
    }

    /// Sets the admin and the ownership registry, once.
    pub fn initialize(&mut self, admin: Address, nft_contract: Address) -> (r: Result<(), CraftError>)
        requires
            old(self).wf(),
        ensures
            final(self).wf(),
            old(self).admin is Some ==> r == Err::<(), CraftError>(CraftError::AlreadyInitialized)
                && *final(self) == *old(self),
            old(self).admin is None ==> {
                &&& r is Ok
                &&& final(self).admin == Some(admin)
                &&& final(self).nft_contract == Some(nft_contract)
                &&& final(self).recipes@ == old(self).recipes@
                &&& final(self).cooldowns@ == old(self).cooldowns@
            },
    {
        if self.admin.is_some() {
            return Err(CraftError::AlreadyInitialized);
        }
        self.admin = Some(admin);
        self.nft_contract = Some(nft_contract);
        Ok(())
    }

    pub open spec fn register_error(&self, success_rate: u32, rarity: u32) -> Option<CraftError> {
        if self.admin is None {
            Some(CraftError::NotInitialized)
        } else if success_rate > 100 {
            Some(CraftError::InvalidSuccessRate)
        } else if rarity_of(rarity) is None {
            Some(CraftError::InvalidRarity)
        } else {
            None
        }
    }

    /// Registers an enabled recipe under the next id.
    pub fn register_recipe(
        &mut self,
        name: String,
        description: String,
        ingredients: Vec<Ingredient>,
        output_token_address: Address,
        output_token_id: u32,
        success_rate: u32,
        rarity: u32,
        cooldown_seconds: u64,
    ) -> (r: Result<u32, CraftError>)
        requires
            old(self).wf(),
            old(self).recipes@.len() < u32::MAX,
        ensures
            final(self).wf(),
            match old(self).register_error(success_rate, rarity) {
                Some(err) => r == Err::<u32, CraftError>(err) && *final(self) == *old(self),
                None => {
                    let id = (old(self).recipes@.len() + 1) as u32;
                    let rec = final(self).recipes@.last();
                    &&& r == Ok::<u32, CraftError>(id)
                    &&& final(self).admin == old(self).admin
                    &&& final(self).nft_contract == old(self).nft_contract
                    &&& final(self).cooldowns@ == old(self).cooldowns@
                    &&& final(self).recipes@.len() == old(self).recipes@.len() + 1
                    &&& final(self).recipes@.drop_last() == old(self).recipes@
                    &&& rec.id == id && rec.name@ == name@ && rec.description@ == description@
                    &&& rec.ingredients@ == ingredients@
                    &&& rec.output_token_address == output_token_address
                    &&& rec.output_token_id == output_token_id
                    &&& rec.success_rate == success_rate
                    &&& Some(rec.rarity) == rarity_of(rarity)
                    &&& rec.cooldown_seconds == cooldown_seconds
                    &&& rec.enabled
                },
            },
    {
        if self.admin.is_none() {
            return Err(CraftError::NotInitialized);
        }
        if success_rate > 100 {
            return Err(CraftError::InvalidSuccessRate);
        }
        let rarity_enum = match rarity_from_code(rarity) {
            Some(r) => r,
            None => {
                return Err(CraftError::InvalidRarity);
            },
        };
        let id = (self.recipes.len() + 1) as u32;
        self.recipes.push(
            Recipe {
                id,
                name,
                description,
                ingredients,
                output_token_address,
                output_token_id,
                success_rate,
                rarity: rarity_enum,
                cooldown_seconds,
                enabled: true,
            },
        );
        assert(self.recipes@.drop_last() =~= old(self).recipes@);
        Ok(id)
    }

    /// The recipe with this id.
    pub fn get_recipe(&self, recipe_id: u32) -> (r: Result<&Recipe, CraftError>)
        ensures
            self.has_recipe(recipe_id) ==> r == Ok::<&Recipe, CraftError>(self.recipe(recipe_id)),
            !self.has_recipe(recipe_id) ==> r == Err::<&Recipe, CraftError>(CraftError::RecipeNotFound),
    {
        if recipe_id == 0 || recipe_id as usize > self.recipes.len() {
            Err(CraftError::RecipeNotFound)
        } else {
            Ok(&self.recipes[(recipe_id - 1) as usize])
        }
    }

    /// The ids of all recipes, in order.
    pub fn get_all_recipes(&self) -> (r: Vec<u32>)
        requires
            self.recipes@.len() < u32::MAX,
        ensures
            r@ == Seq::new(self.recipes@.len(), |i: int| (i + 1) as u32),
    {
        let count = self.recipes.len();
        let mut ids: Vec<u32> = Vec::new();
        let mut i: usize = 0;
        while i < count
            invariant
                count == self.recipes@.len(),
                count < u32::MAX,
                i <= count,
                ids@ == Seq::new(i as nat, |k: int| (k + 1) as u32),
            decreases count - i,
        {
            ids.push((i + 1) as u32);
            i += 1;
            assert(ids@ =~= Seq::new(i as nat, |k: int| (k + 1) as u32));
        }
        ids
    }

    /// When `player` last crafted; zero if never.
    pub fn get_player_cooldown(&self, player: Address) -> (r: u64)
        ensures
            r == last_craft_of(self.cooldowns@, player),
    {
        let mut j = self.cooldowns.len();
        assert(self.cooldowns@.take(j as int) =~= self.cooldowns@);
        while j > 0
            invariant
                j <= self.cooldowns@.len(),
                last_craft_of(self.cooldowns@, player) == last_craft_of(self.cooldowns@.take(j as int), player),
            decreases j,
        {
            j -= 1;
            assert(self.cooldowns@.take(j + 1).drop_last() =~= self.cooldowns@.take(j as int));
            if self.cooldowns[j].player == player {
                return self.cooldowns[j].last_craft;
            }
        }
        0
    }

    /// The admin turns a recipe on or off.
    pub fn set_recipe_enabled(&mut self, recipe_id: u32, enabled: bool) -> (r: Result<(), CraftError>)
        requires
            old(self).wf(),
        ensures
            final(self).wf(),
            old(self).admin is None ==> r == Err::<(), CraftError>(CraftError::NotInitialized) && *final(self)
                == *old(self),
            old(self).admin is Some && !old(self).has_recipe(recipe_id) ==> r == Err::<(), CraftError>(
                CraftError::RecipeNotFound,
            ) && *final(self) == *old(self),
            old(self).admin is Some && old(self).has_recipe(recipe_id) ==> {
                let i = recipe_id - 1;
                &&& r is Ok
                &&& final(self).admin == old(self).admin
                &&& final(self).nft_contract == old(self).nft_contract
                &&& final(self).cooldowns@ == old(self).cooldowns@
                &&& final(self).recipes@.len() == old(self).recipes@.len()
                &&& forall|j: int| 0 <= j < old(self).recipes@.len() && j != i ==> #[trigger] final(self).recipes@[j] == old(self).recipes@[j]
                &&& final(self).recipes@[i].enabled == enabled
                &&& final(self).recipes@[i].id == old(self).recipes@[i].id
                &&& final(self).recipes@[i].name == old(self).recipes@[i].name
                &&& final(self).recipes@[i].description == old(self).recipes@[i].description
                &&& final(self).recipes@[i].ingredients == old(self).recipes@[i].ingredients
                &&& final(self).recipes@[i].output_token_address == old(self).recipes@[i].output_token_address
                &&& final(self).recipes@[i].output_token_id == old(self).recipes@[i].output_token_id
                &&& final(self).recipes@[i].success_rate == old(self).recipes@[i].success_rate
                &&& final(self).recipes@[i].rarity == old(self).recipes@[i].rarity
                &&& final(self).recipes@[i].cooldown_seconds == old(self).recipes@[i].cooldown_seconds
            },
    {
        if self.admin.is_none() {
            return Err(CraftError::NotInitialized);
        }
        if recipe_id == 0 || recipe_id as usize > self.recipes.len() {
            return Err(CraftError::RecipeNotFound);
        }
        let idx = (recipe_id - 1) as usize;
        self.recipes[idx].enabled = enabled;
        assert forall|j: int| 0 <= j < self.recipes@.len() implies (#[trigger] self.recipes@[j]).id == j + 1 by {
            if j != idx {
                assert(self.recipes@[j] == old(self).recipes@[j]);
            }
        }
        Ok(())
    }

    pub open spec fn craft_error(
        &self,
        player: Address,
        recipe_id: u32,
        now: u64,
        owners: Seq<Option<Address>>,
        roll: u64,
    ) -> Option<CraftError> {
        if !self.has_recipe(recipe_id) {
            Some(CraftError::RecipeNotFound)
        } else if !self.recipe(recipe_id).enabled {
            Some(CraftError::RecipeDisabled)
        } else if now < last_craft_of(self.cooldowns@, player) + self.recipe(recipe_id).cooldown_seconds {
            Some(CraftError::CooldownActive)
        } else if !owns_all(self.recipe(recipe_id).ingredients@, owners, player) {
            Some(CraftError::InvalidIngredients)
        } else if roll >= self.recipe(recipe_id).success_rate {
            Some(CraftError::CraftFailed)
        } else {
            None
        }
    }

    /// A player tries a recipe at time `now`. `owners[i]` is the owner found for
    /// ingredient `i`, and `roll` is a draw from `0..100`; the craft succeeds when
    /// the roll is below the success rate. Only a success starts a new cooldown,
    /// and it returns what the host is to burn and mint.
    pub fn craft(
        &mut self,
        player: Address,
        recipe_id: u32,
        now: u64,
        owners: &Vec<Option<Address>>,
        roll: u64,
    ) -> (r: Result<CraftOrder, CraftError>)
        requires
            old(self).wf(),
        ensures
            final(self).wf(),
            match old(self).craft_error(player, recipe_id, now, owners@, roll) {
                Some(err) => r is Err && r->Err_0 == err && *final(self) == *old(self),
                None => {
                    let rec = old(self).recipe(recipe_id);
                    &&& r matches Ok(order) && order.burns@ == rec.ingredients@
                        && order.output_token_address == rec.output_token_address
                        && order.output_token_id == rec.output_token_id
                    &&& final(self).admin == old(self).admin
                    &&& final(self).nft_contract == old(self).nft_contract
                    &&& final(self).recipes@ == old(self).recipes@
                    &&& final(self).cooldowns@ == old(self).cooldowns@.push(
                        Cooldown { player, last_craft: now },
                    )
                },
            },
    {
        if recipe_id == 0 || recipe_id as usize > self.recipes.len() {
            return Err(CraftError::RecipeNotFound);
        }
        let idx = (recipe_id - 1) as usize;
        if !self.recipes[idx].enabled {
            return Err(CraftError::RecipeDisabled);
        }
        let last_craft = self.get_player_cooldown(player);
        let cooldown = self.recipes[idx].cooldown_seconds;
        if cooldown > u64::MAX - last_craft || now < last_craft + cooldown {
            return Err(CraftError::CooldownActive);
        }
        if !validate_ingredients(player, &self.recipes[idx].ingredients, owners) {
            return Err(CraftError::InvalidIngredients);
        }
        if roll >= self.recipes[idx].success_rate as u64 {
            return Err(CraftError::CraftFailed);
        }
        self.cooldowns.push(Cooldown { player, last_craft: now });
        let burns = copy_ingredients(&self.recipes[idx].ingredients);
        Ok(
            CraftOrder {
                burns,
                output_token_address: self.recipes[idx].output_token_address,
                output_token_id: self.recipes[idx].output_token_id,
            },
        )
    }
}

} // verus!
