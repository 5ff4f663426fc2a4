use puzzle_contracts::crafting::{CraftError, CraftingContract, Ingredient, Rarity};
use puzzle_contracts::Address;

fn party(id: u64) -> Address {
    Address::new(id)
}

fn nft(token_id: u32, nft_contract: Address) -> Ingredient {
    Ingredient { token_address: nft_contract, token_id, amount: 1 }
}

#[test]
fn test_initialize() {
    let mut client = CraftingContract::new();
    client.initialize(party(1), party(2)).unwrap();
    assert_eq!(client.get_all_recipes().len(), 0);
}

#[test]
fn test_register_recipe() {
    let mut client = CraftingContract::new();
    let nft_contract = party(2);
    client.initialize(party(1), nft_contract).unwrap();
    let recipe_id = client
        .register_recipe(
            String::from("Epic Sword"),
            String::from("A powerful sword crafted from rare materials"),
            vec![nft(1, nft_contract), nft(2, nft_contract)],
            nft_contract,
            100,
            80,
            3,
            3600,
        )
        .unwrap();
    assert_eq!(recipe_id, 1);
    let recipe = client.get_recipe(recipe_id).unwrap();
    assert_eq!(recipe.name, String::from("Epic Sword"));
    assert_eq!(recipe.success_rate, 80);
    assert_eq!(recipe.ingredients.len(), 2);
    assert_eq!(recipe.rarity, Rarity::Epic);
}

#[test]
fn test_craft_success() {
    let mut client = CraftingContract::new();
    let nft_contract = party(2);
    client.initialize(party(1), nft_contract).unwrap();
    let recipe_id = client
        .register_recipe(
            String::from("Epic Sword"),
            String::from("A powerful sword"),
            vec![nft(1, nft_contract), nft(2, nft_contract)],
            nft_contract,
            100,
            100,
            3,
            0,
        )
        .unwrap();
    assert_eq!(recipe_id, 1);
    let recipe = client.get_recipe(recipe_id).unwrap();
    assert_eq!(recipe.success_rate, 100);
}

#[test]
fn test_recipe_discovery() {
    let mut client = CraftingContract::new();
    let nft_contract = party(2);
    client.initialize(party(1), nft_contract).unwrap();
    for i in 0..3u32 {
        let recipe_name = match i {
            0 => "Recipe 0",
            1 => "Recipe 1",
            2 => "Recipe 2",
            _ => "Recipe",
        };
        client
            .register_recipe(
                String::from(recipe_name),
                String::from("Description"),
                vec![nft(i + 1, nft_contract)],
                nft_contract,
                100,
                80,
                i % 5,
                3600,
            )
            .unwrap();
    }
    let all_recipes = client.get_all_recipes();
    assert_eq!(all_recipes.len(), 3);
    assert_eq!(all_recipes, vec![1, 2, 3]);
}

#[test]
fn test_craft_failure() {
    let mut client = CraftingContract::new();
    let nft_contract = party(2);
    client.initialize(party(1), nft_contract).unwrap();
    let recipe_id = client
        .register_recipe(
            String::from("Impossible Item"),
            String::from("Cannot be crafted"),
            vec![nft(1, nft_contract)],
            nft_contract,
            200,
            0,
            4,
            0,
        )
        .unwrap();
    assert_eq!(recipe_id, 1);
    let recipe = client.get_recipe(recipe_id).unwrap();
    assert_eq!(recipe.success_rate, 0);
}

#[test]
fn test_cooldown() {
    let mut client = CraftingContract::new();
    let nft_contract = party(2);
    client.initialize(party(1), nft_contract).unwrap();
    let recipe_id = client
        .register_recipe(
            String::from("Cooldown Item"),
            String::from("Has cooldown"),
            vec![nft(1, nft_contract)],
            nft_contract,
            200,
            100,
            1,
            60,
        )
        .unwrap();
    let recipe = client.get_recipe(recipe_id).unwrap();
    assert_eq!(recipe.cooldown_seconds, 60);
}

#[test]
fn crafting_outcomes() {
    let mut client = CraftingContract::new();
    let nft_contract = party(2);
    let player = party(5);
    client.initialize(party(1), nft_contract).unwrap();
    let id = client
        .register_recipe(
            String::from("Gem"),
            String::from("Shiny"),
            vec![nft(1, nft_contract), nft(2, nft_contract)],
            party(3),
            77,
            50,
            2,
            60,
        )
        .unwrap();
    let owned = vec![Some(player), Some(player)];
    assert_eq!(client.craft(player, id, 100, &vec![Some(player), Some(party(6))], 0).err(), Some(CraftError::InvalidIngredients));
    assert_eq!(client.craft(player, id, 100, &vec![Some(player)], 0).err(), Some(CraftError::InvalidIngredients));
    assert_eq!(client.craft(player, id, 100, &owned, 50).err(), Some(CraftError::CraftFailed));
    assert_eq!(client.get_player_cooldown(player), 0);
    let order = client.craft(player, id, 100, &owned, 49).unwrap();
    assert_eq!(order.burns.len(), 2);
    assert_eq!(order.output_token_address, party(3));
    assert_eq!(order.output_token_id, 77);
    assert_eq!(client.get_player_cooldown(player), 100);
    assert_eq!(client.craft(player, id, 159, &owned, 0).err(), Some(CraftError::CooldownActive));
    assert!(client.craft(player, id, 160, &owned, 0).is_ok());
    client.set_recipe_enabled(id, false).unwrap();
    assert_eq!(client.craft(player, id, 1000, &owned, 0).err(), Some(CraftError::RecipeDisabled));
    assert_eq!(client.craft(player, 9, 1000, &owned, 0).err(), Some(CraftError::RecipeNotFound));
    assert_eq!(client.set_recipe_enabled(9, true), Err(CraftError::RecipeNotFound));
}

#[test]
fn registration_errors() {
    let mut client = CraftingContract::new();
    assert_eq!(
        client.register_recipe(String::new(), String::new(), vec![], party(3), 1, 10, 0, 0),
        Err(CraftError::NotInitialized)
    );
    client.initialize(party(1), party(2)).unwrap();
    assert_eq!(client.initialize(party(1), party(2)), Err(CraftError::AlreadyInitialized));
    assert_eq!(
        client.register_recipe(String::new(), String::new(), vec![], party(3), 1, 101, 0, 0),
        Err(CraftError::InvalidSuccessRate)
    );
    assert_eq!(
        client.register_recipe(String::new(), String::new(), vec![], party(3), 1, 10, 5, 0),
        Err(CraftError::InvalidRarity)
    );
    assert_eq!(client.get_recipe(1).err(), Some(CraftError::RecipeNotFound));
}
