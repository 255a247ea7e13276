use crypto_analyzer::storage::{favorites_from_data, favorites_to_data, FavoriteSet, FavoritesData};

#[test]
fn favorite_set_insert_contains_remove() {
    let mut s = FavoriteSet::new();
    assert_eq!(s.len(), 0);
    assert!(s.insert("bitcoin".to_string()));
    assert!(!s.insert("bitcoin".to_string()));
    assert!(s.insert("ethereum".to_string()));
    assert_eq!(s.len(), 2);
    assert!(s.contains(&"bitcoin".to_string()));
    assert!(!s.contains(&"tether".to_string()));
    assert!(s.remove(&"bitcoin".to_string()));
    assert!(!s.remove(&"bitcoin".to_string()));
    assert!(!s.contains(&"bitcoin".to_string()));
    assert_eq!(s.len(), 1);
}

#[test]
fn to_data_lists_each_id_once_in_insertion_order() {
    let mut s = FavoriteSet::new();
    s.insert("b".to_string());
    s.insert("a".to_string());
    s.insert("b".to_string());
    let d = favorites_to_data(&s);
    assert_eq!(d.favorites, vec!["b".to_string(), "a".to_string()]);
}

#[test]
fn from_data_drops_repeated_ids() {
    let d = FavoritesData { favorites: vec!["x".to_string(), "y".to_string(), "x".to_string()] };
    let s = favorites_from_data(d);
    assert_eq!(s.len(), 2);
    assert!(s.contains(&"x".to_string()));
    assert!(s.contains(&"y".to_string()));
}

#[test]
fn favorites_round_trip_through_storage() {
    let mut s = FavoriteSet::new();
    s.insert("solana".to_string());
    s.insert("cardano".to_string());
    let loaded = favorites_from_data(favorites_to_data(&s));
    assert_eq!(loaded.len(), 2);
    assert!(loaded.contains(&"solana".to_string()));
    assert!(loaded.contains(&"cardano".to_string()));
    assert_eq!(favorites_to_data(&loaded).favorites, favorites_to_data(&s).favorites);
}

#[test]
fn empty_data_gives_empty_set() {
    let s = favorites_from_data(FavoritesData { favorites: Vec::new() });
    assert_eq!(s.len(), 0);
    assert!(favorites_to_data(&s).favorites.is_empty());
}
