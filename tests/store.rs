use game_list::{
    missing_metas, AgeRatingCategory, AgeRatingRating, DataError, GameId, Iso8601Date, List,
    Lists, Meta, Metas, PlatformCategory, Rating,
};

fn meta(id: GameId, name: &str) -> Meta {
    Meta {
        id,
        age_ratings: Vec::new(),
        aggregated_rating: None,
        aggregated_rating_count: None,
        cover: None,
        first_release_date: 0,
        franchise: None,
        game_engines: Vec::new(),
        game_modes: Vec::new(),
        genres: Vec::new(),
        involved_companies: Vec::new(),
        keywords: Vec::new(),
        multiplayer_modes: Vec::new(),
        name: name.to_string(),
        platforms: Vec::new(),
        player_perspectives: Vec::new(),
        release_dates: Vec::new(),
        themes: Vec::new(),
        rating: None,
        rating_count: None,
        total_rating: None,
        total_rating_count: None,
    }
}

fn lists(ids: Vec<GameId>) -> Lists {
    let mut l = Lists::new();
    l.insert(Iso8601Date::parse("2024-01-01").unwrap(), List(vec![GameId::Igdb(99)]));
    l.insert(Iso8601Date::parse("2024-02-01").unwrap(), List(ids));
    l
}

#[test]
fn records_round_trip_through_the_store() {
    let store = Metas::from_records(vec![
        meta(GameId::Igdb(3), "C"),
        meta(GameId::Other("x".to_string()), "X"),
        meta(GameId::Igdb(1), "A"),
    ]);
    let names: Vec<(GameId, String)> =
        store.records().iter().map(|m| (m.id.clone(), m.name.clone())).collect();
    let again = Metas::from_records(
        names.iter().map(|(id, name)| meta(id.clone(), name)).collect(),
    );
    let back: Vec<(GameId, String)> =
        again.records().iter().map(|m| (m.id.clone(), m.name.clone())).collect();
    assert_eq!(names, back);
    assert_eq!(back.len(), 3);
}

#[test]
fn later_duplicate_replaces_earlier_record() {
    let store = Metas::from_records(vec![
        meta(GameId::Igdb(1), "old"),
        meta(GameId::Igdb(2), "B"),
        meta(GameId::Igdb(1), "new"),
    ]);
    assert_eq!(store.len(), 2);
    assert_eq!(store.records()[0].name, "new");
    assert_eq!(store.get(&GameId::Igdb(1)).unwrap().name, "new");
    assert!(store.get(&GameId::Igdb(5)).is_none());
}

#[test]
fn merge_appends_new_records() {
    let mut store = Metas::from_records(vec![meta(GameId::Igdb(1), "A")]);
    store.extend(vec![meta(GameId::Igdb(2), "B"), meta(GameId::Igdb(3), "C")]);
    let ids: Vec<GameId> = store.records().iter().map(|m| m.id.clone()).collect();
    assert_eq!(ids, vec![GameId::Igdb(1), GameId::Igdb(2), GameId::Igdb(3)]);
    assert!(store.contains(&GameId::Igdb(3)));
    assert!(Metas::default().records().is_empty());
}

#[test]
fn reconcile_lists_each_missing_catalog_id_once() {
    let store = Metas::from_records(vec![meta(GameId::Igdb(2), "B"), meta(GameId::Other("o".to_string()), "O")]);
    let l = lists(vec![
        GameId::Igdb(4),
        GameId::Igdb(2),
        GameId::Other("o".to_string()),
        GameId::Igdb(5),
        GameId::Igdb(4),
    ]);
    let missing = missing_metas(&l, &store).expect("resolvable");
    assert_eq!(missing, vec![GameId::Igdb(4), GameId::Igdb(5)]);
}

#[test]
fn reconcile_with_complete_store_is_empty() {
    let store = Metas::from_records(vec![meta(GameId::Igdb(2), "B")]);
    assert_eq!(missing_metas(&lists(vec![GameId::Igdb(2)]), &store).unwrap(), Vec::new());
}

#[test]
fn reconcile_fails_on_missing_other_id() {
    let store = Metas::new();
    let l = lists(vec![GameId::Igdb(1), GameId::Other("custom".to_string()), GameId::Absent]);
    match missing_metas(&l, &store) {
        Err(DataError::MissingMetadata(id)) => assert_eq!(id, GameId::Other("custom".to_string())),
        other => panic!("unexpected {:?}", other),
    }
}

#[test]
fn reconcile_fails_on_missing_absent_id() {
    let l = lists(vec![GameId::Absent]);
    assert!(matches!(missing_metas(&l, &Metas::new()), Err(DataError::MissingMetadata(GameId::Absent))));
}

#[test]
fn reconcile_without_snapshots_fails() {
    assert!(matches!(missing_metas(&Lists::new(), &Metas::new()), Err(DataError::NoLists)));
}

#[test]
fn snapshot_of_same_date_is_replaced() {
    let mut l = Lists::new();
    let d = Iso8601Date::parse("2024-01-01").unwrap();
    l.insert(d, List(vec![GameId::Igdb(1)]));
    l.insert(d, List(vec![GameId::Igdb(2)]));
    assert_eq!(l.len(), 1);
    assert_eq!(l.latest().unwrap().0, vec![GameId::Igdb(2)]);
    assert!(l.penultimate().is_none());
}

#[test]
fn dates_parse_and_count_days() {
    let a = Iso8601Date::parse("2024-02-28").unwrap();
    let b = Iso8601Date::parse("2024-03-01").unwrap();
    assert_eq!(b.days_since(&a), 2);
    let c = Iso8601Date::parse("2023-02-28").unwrap();
    let e = Iso8601Date::parse("2023-03-01").unwrap();
    assert_eq!(e.days_since(&c), 1);
    assert_eq!(Iso8601Date::parse("2000-01-01").unwrap().day, 2_451_545);
    assert!(a < b);
}

#[test]
fn malformed_or_impossible_dates_are_refused() {
    assert!(Iso8601Date::parse("2023-02-29").is_none());
    assert!(Iso8601Date::parse("2024-13-01").is_none());
    assert!(Iso8601Date::parse("2024-00-10").is_none());
    assert!(Iso8601Date::parse("2024-1-01").is_none());
    assert!(Iso8601Date::parse("2024/01/01").is_none());
    assert!(Iso8601Date::parse("").is_none());
    assert!(Iso8601Date::parse("2024-02-29").is_some());
    assert!(Iso8601Date::from_calendar_date(1900, 2, 29).is_none());
    assert!(Iso8601Date::from_calendar_date(2000, 2, 29).is_some());
}

#[test]
fn identities_as_text() {
    assert_eq!(GameId::Igdb(1234).to_string(), "1234");
    assert_eq!(GameId::Igdb(0).to_string(), "0");
    assert_eq!(GameId::Other("abc".to_string()).to_string(), "abc");
    assert_eq!(GameId::Absent.to_string(), "");
    assert_ne!(GameId::Igdb(1), GameId::Other("1".to_string()));
}

#[test]
fn rating_codes() {
    assert_eq!(AgeRatingCategory::from_code(2), Some(AgeRatingCategory::Pegi));
    assert_eq!(AgeRatingCategory::from_code(0), None);
    assert_eq!(AgeRatingCategory::from_code(8), None);
    assert_eq!(AgeRatingRating::from_code(39), Some(AgeRatingRating::AcbRc));
    assert_eq!(AgeRatingRating::from_code(40), None);
    assert_eq!(AgeRatingRating::E10.code(), 9);
    assert_eq!(PlatformCategory::from_code(6), Some(PlatformCategory::Computer));
    assert_eq!(PlatformCategory::Arcade.code(), 2);
}

#[test]
fn rating_keys_follow_numeric_order() {
    let keys: Vec<u64> = [-10.0f64, -0.5, 0.0, 0.25, 99.0]
        .iter()
        .map(|x| Rating { bits: x.to_bits() }.order_key())
        .collect();
    for w in keys.windows(2) {
        assert!(w[0] < w[1]);
    }
}
