use puzzle_contracts::achievements::{AchievementCollection, AchievementError, Rarity};
use puzzle_contracts::Address;

fn user(id: u64) -> Address {
    Address::new(id)
}

#[test]
fn test_set_and_progress() {
    let mut client = AchievementCollection::new();
    client.initialize().unwrap();

    let name = String::from("Starter Set");
    let set_id = client.create_set(name, vec![1, 2, 3], Rarity::Common, None, 100).unwrap();
    assert_eq!(set_id, 1);

    let u = user(1);
    assert_eq!(client.is_completed(u, set_id), Ok(false));

    assert_eq!(client.record_achievement(u, 1), Ok(false));
    assert_eq!(client.record_achievement(u, 2), Ok(false));
    assert_eq!(client.record_achievement(u, 3), Ok(true));

    let progress = client.progress(u, set_id);
    assert_eq!(progress.len(), 3);
    assert_eq!(client.bonus_of(u), 100);

    assert_eq!(client.record_achievement(u, 3), Ok(true));
    assert_eq!(client.bonus_of(u), 100);
}

#[test]
fn test_limited_cap_and_trading() {
    let mut client = AchievementCollection::new();
    client.initialize().unwrap();
    let name = String::from("Limited Set");
    let set_id = client.create_set(name, vec![10, 20], Rarity::Rare, Some(1), 50).unwrap();

    let a = user(1);
    let b = user(2);

    client.record_achievement(a, 10).unwrap();
    assert_eq!(client.record_achievement(b, 10), Err(AchievementError::CapReached));
    client.transfer_progress(a, b, 10).unwrap();

    let ap = client.progress(a, set_id);
    assert_eq!(ap.len(), 0);
    let bp = client.progress(b, set_id);
    assert_eq!(bp.len(), 1);

    assert_eq!(client.record_achievement(b, 10), Ok(false));
}

#[test]
fn set_creation_rules() {
    let mut client = AchievementCollection::new();
    assert_eq!(client.create_set(String::from("e"), vec![], Rarity::Epic, None, 1), Err(AchievementError::EmptySet));
    assert_eq!(
        client.create_set(String::from("d"), vec![4, 4], Rarity::Epic, None, 1),
        Err(AchievementError::AlreadyMapped)
    );
    let s = client.create_set(String::from("a"), vec![4], Rarity::Epic, None, 1).unwrap();
    assert_eq!(
        client.create_set(String::from("b"), vec![5, 4], Rarity::Epic, None, 1),
        Err(AchievementError::AlreadyMapped)
    );
    assert_eq!(client.add_achievement_to_set(s, 4), Ok(()));
    assert_eq!(client.add_achievement_to_set(s, 6), Ok(()));
    assert_eq!(client.get_set(s).unwrap().achievements, vec![4, 6]);
    assert_eq!(client.add_achievement_to_set(9, 7), Err(AchievementError::SetNotFound));
    let t = client.create_set(String::from("c"), vec![8], Rarity::Legendary, None, 1).unwrap();
    assert_eq!(client.add_achievement_to_set(t, 6), Err(AchievementError::AlreadyMapped));
    assert_eq!(client.initialize(), Ok(()));
    assert_eq!(client.initialize(), Err(AchievementError::AlreadyInitialized));
    assert_eq!(client.is_completed(user(1), 9), Err(AchievementError::SetNotFound));
}

#[test]
fn record_and_transfer_errors() {
    let mut client = AchievementCollection::new();
    client.create_set(String::from("x"), vec![1, 2], Rarity::Common, None, i128::MAX).unwrap();
    assert_eq!(client.record_achievement(user(1), 3), Err(AchievementError::NotMapped));
    assert_eq!(client.transfer_progress(user(1), user(2), 1), Err(AchievementError::NotOwned));
    assert_eq!(client.transfer_progress(user(1), user(2), 3), Err(AchievementError::NotMapped));
    client.record_achievement(user(1), 1).unwrap();
    assert_eq!(client.record_achievement(user(1), 2), Ok(true));
    assert_eq!(client.bonus_of(user(1)), i128::MAX);
    client.create_set(String::from("y"), vec![5], Rarity::Common, None, 1).unwrap();
    assert_eq!(client.record_achievement(user(1), 5), Err(AchievementError::BonusOverflow));
    assert!(client.progress(user(1), 2).is_empty());
}
