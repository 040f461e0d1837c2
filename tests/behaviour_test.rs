use games_api::controller::{
    delete_game_by_id, get_game_by_id, get_games, parse_id, update_game_by_id,
};
use games_api::{Game, Identified, InMemoryStore, Status, Store};
use std::collections::HashMap;

#[test]
fn len_counts_each_identifier_once() {
    let mut store: InMemoryStore<Game> = InMemoryStore::new();
    store.save(Game::new(1, "A"));
    store.save(Game::new(2, "B"));
    store.save(Game::new(1, "C"));
    store.save(Game::new(3, "D"));
    store.delete(&2);
    store.save(Game::new(2, "E"));
    store.save(Game::new(2, "F"));
    store.delete(&9);
    assert_eq!(store.len(), 3);
    assert_eq!(store.get_all().len(), 3);
}

#[test]
fn save_then_get_round_trips() {
    let mut store: InMemoryStore<Game> = InMemoryStore::new();
    let g = Game::new(200, "Bloodborne");
    store.save(g.clone());
    assert_eq!(store.get(&200), Some(&g));
}

#[test]
fn save_on_present_id_returns_previous_and_keeps_len() {
    let mut store = InMemoryStore::init(HashMap::from([(1, Game::new(1, "Demon Souls"))]));
    let prev = store.save(Game::new(1, "Dark Souls"));
    assert_eq!(prev, Some(Game::new(1, "Demon Souls")));
    assert_eq!(store.len(), 1);
    assert_eq!(store.get(&1).unwrap().name, "Dark Souls");
}

#[test]
fn save_on_new_id_returns_none_and_adds_one() {
    let mut store = InMemoryStore::init(HashMap::from([(1, Game::new(1, "Demon Souls"))]));
    assert_eq!(store.save(Game::new(2, "Age of Empires")), None);
    assert_eq!(store.len(), 2);
}

#[test]
fn delete_present_returns_entity_and_takes_one_off() {
    let mut store = InMemoryStore::init(HashMap::from([
        (1, Game::new(1, "Demon Souls")),
        (2, Game::new(2, "Dark Souls")),
    ]));
    assert_eq!(store.delete(&2), Some(Game::new(2, "Dark Souls")));
    assert_eq!(store.len(), 1);
    assert_eq!(store.get(&2), None);
}

#[test]
fn delete_absent_returns_none_and_keeps_len() {
    let mut store = InMemoryStore::init(HashMap::from([(1, Game::new(1, "Demon Souls"))]));
    assert_eq!(store.delete(&7), None);
    assert_eq!(store.len(), 1);
}

#[test]
fn empty_store_lists_nothing() {
    let store: InMemoryStore<Game> = InMemoryStore::new();
    assert_eq!(store.len(), 0);
    assert!(store.get_all().is_empty());
    assert_eq!(store.get(&0), None);
}

#[test]
fn largest_identifier_is_stored() {
    let mut store: InMemoryStore<Game> = InMemoryStore::new();
    assert_eq!(update_game_by_id(Game::new(255, "Max"), &mut store), Status::Created);
    assert_eq!(get_game_by_id("255", &store).unwrap().name, "Max");
    assert_eq!(get_game_by_id("256", &store), Err(Status::BadRequest));
}

#[test]
fn end_to_end_scenario() {
    let mut store = InMemoryStore::init(HashMap::from([(1, Game::new(1, "Demon Souls"))]));

    let st = update_game_by_id(Game::new(2, "Age of Empires"), &mut store);
    assert_eq!(st.code(), 201);

    let all = get_games(&store);
    assert_eq!(all.len(), 2);
    assert!(all.contains(&&Game::new(1, "Demon Souls")));
    assert!(all.contains(&&Game::new(2, "Age of Empires")));

    let st = update_game_by_id(Game::new(1, "Dark Souls"), &mut store);
    assert_eq!(st.code(), 200);

    assert_eq!(get_game_by_id("1", &store), Ok(&Game::new(1, "Dark Souls")));

    assert_eq!(delete_game_by_id("1", &mut store).code(), 200);
    assert_eq!(delete_game_by_id("1", &mut store).code(), 404);
    assert_eq!(get_game_by_id("1", &store).map_err(|s| s.code()), Err(404));
}

#[test]
fn malformed_path_is_a_bad_request() {
    let mut store = InMemoryStore::init(HashMap::from([(1, Game::new(1, "Demon Souls"))]));
    assert_eq!(get_game_by_id("one", &store), Err(Status::BadRequest));
    assert_eq!(delete_game_by_id("-1", &mut store), Status::BadRequest);
    assert_eq!(Status::BadRequest.code(), 400);
    assert_eq!(store.len(), 1);
}

#[test]
fn status_codes() {
    assert_eq!(Status::Success.code(), 200);
    assert_eq!(Status::Created.code(), 201);
    assert_eq!(Status::NotFound.code(), 404);
    assert_eq!(Status::BadRequest.code(), 400);
}

#[test]
fn parse_id_accepts_decimal_u8() {
    assert_eq!(parse_id("0"), Some(0));
    assert_eq!(parse_id("7"), Some(7));
    assert_eq!(parse_id("+7"), Some(7));
    assert_eq!(parse_id("007"), Some(7));
    assert_eq!(parse_id("42"), Some(42));
    assert_eq!(parse_id("255"), Some(255));
}

#[test]
fn parse_id_rejects_other_text() {
    assert_eq!(parse_id(""), None);
    assert_eq!(parse_id("+"), None);
    assert_eq!(parse_id("-1"), None);
    assert_eq!(parse_id("256"), None);
    assert_eq!(parse_id("1000"), None);
    assert_eq!(parse_id("1a"), None);
    assert_eq!(parse_id(" 1"), None);
    assert_eq!(parse_id("++1"), None);
}

#[test]
fn game_new_and_identifier() {
    let g = Game::new(3, "Bloodborn");
    assert_eq!(g.id, 3);
    assert_eq!(g.name, "Bloodborn");
    assert_eq!(g.get_id(), 3);
}
