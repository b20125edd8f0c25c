use game_list::{Data, GameEngine, GameId, Iso8601Date, List, Lists, Meta, Metas, Rating, RatingKind};

fn meta(id: GameId, name: &str, total: Option<f64>, released: i64) -> Meta {
    Meta {
        id,
        age_ratings: Vec::new(),
        aggregated_rating: None,
        aggregated_rating_count: None,
        cover: None,
        first_release_date: released,
        franchise: None,
        game_engines: Vec::new(),
        game_modes: Vec::new(),
        genres: Vec::new(),
        involved_companies: Vec::new(),
        keywords: Vec::new(),
        multiplayer_modes: Vec::new(),
        name: name.to_string(),
        platforms: Vec::new(),
        player_perspectives: Vec::new(),
        release_dates: Vec::new(),
        themes: Vec::new(),
        rating: None,
        rating_count: None,
        total_rating: total.map(|x| Rating { bits: x.to_bits() }),
        total_rating_count: None,
    }
}

fn engine(name: &str) -> GameEngine {
    GameEngine { name: name.to_string(), logo: None }
}

fn date(s: &str) -> Iso8601Date {
    Iso8601Date::parse(s).expect("valid date")
}

fn list(ids: &[u32]) -> List {
    List(ids.iter().map(|&n| GameId::Igdb(n)).collect())
}

fn data(lists: Vec<(&str, List)>, metas: Vec<Meta>) -> Data {
    let mut l = Lists::new();
    for (d, list) in lists {
        l.insert(date(d), list);
    }
    Data::new(l, Metas::from_records(metas))
}

#[test]
fn extrema_example_top() {
    // A = 1, B = 2; D1 -> D2 is one day, D2 -> D3 two days.
    let d = data(
        vec![
            ("2024-01-01", list(&[1, 2])),
            ("2024-01-02", list(&[2, 1])),
            ("2024-01-04", list(&[1, 2])),
        ],
        Vec::new(),
    );
    let e = d.extrema(true);
    assert_eq!(e.len(), 2);
    assert_eq!(*e[0].0, GameId::Igdb(2));
    assert_eq!(e[0].1, 2);
    assert_eq!(*e[1].0, GameId::Igdb(1));
    assert_eq!(e[1].1, 1);
}

#[test]
fn extrema_bottom_accumulates_intervals() {
    let d = data(
        vec![
            ("2024-01-04", list(&[1, 2])),
            ("2024-01-01", list(&[1, 2])),
            ("2024-01-02", list(&[2, 1])),
            ("2024-01-10", list(&[2, 1, 3])),
        ],
        Vec::new(),
    );
    // Bottom holders: 2 over 1 day, 1 over 2 days, 2 over 6 days.
    let e = d.extrema(false);
    assert_eq!(e.len(), 2);
    assert_eq!(*e[0].0, GameId::Igdb(2));
    assert_eq!(e[0].1, 7);
    assert_eq!(*e[1].0, GameId::Igdb(1));
    assert_eq!(e[1].1, 2);
}

#[test]
fn extrema_of_single_snapshot_is_empty() {
    let d = data(vec![("2024-01-01", list(&[1, 2]))], Vec::new());
    assert!(d.extrema(true).is_empty());
}

#[test]
fn dates_are_increasing() {
    let d = data(
        vec![("2024-03-01", list(&[1])), ("2023-12-31", list(&[1])), ("2024-02-29", list(&[1]))],
        Vec::new(),
    );
    let dates = d.dates();
    assert_eq!(dates, vec![date("2023-12-31"), date("2024-02-29"), date("2024-03-01")]);
}

#[test]
fn rank_diff_example() {
    // Metric order X, Y, Z; latest snapshot Y, X, Z.
    let d = data(
        vec![("2024-01-01", list(&[2, 1, 3]))],
        vec![
            meta(GameId::Igdb(3), "Z", Some(70.0), 0),
            meta(GameId::Igdb(1), "X", Some(90.0), 0),
            meta(GameId::Igdb(2), "Y", Some(80.0), 0),
        ],
    );
    let diffs = d.igdb_diffs().expect("every ranked game is listed");
    let got: Vec<(i32, &str)> = diffs.iter().map(|(v, m)| (*v, m.name.as_str())).collect();
    assert_eq!(got, vec![(-1, "Y"), (0, "Z"), (1, "X")]);
}

#[test]
fn rank_diff_fails_when_ranked_game_is_not_listed() {
    let d = data(
        vec![("2024-01-01", list(&[1]))],
        vec![meta(GameId::Igdb(1), "X", Some(90.0), 0), meta(GameId::Igdb(2), "Y", Some(80.0), 0)],
    );
    assert!(d.igdb_diffs().is_none());
}

#[test]
fn rank_diff_without_snapshots_is_none() {
    let d = data(Vec::new(), vec![meta(GameId::Igdb(1), "X", Some(90.0), 0)]);
    assert!(d.igdb_diffs().is_none());
}

#[test]
fn ranking_skips_unrated_and_keeps_store_order_on_ties() {
    let d = data(
        Vec::new(),
        vec![
            meta(GameId::Igdb(1), "A", Some(50.0), 0),
            meta(GameId::Igdb(2), "B", None, 0),
            meta(GameId::Igdb(3), "C", Some(75.5), 0),
            meta(GameId::Igdb(4), "D", Some(50.0), 0),
            meta(GameId::Igdb(5), "E", Some(-1.0), 0),
        ],
    );
    let ranked = d.igdb_list(RatingKind::Total);
    let got: Vec<(f64, &str)> =
        ranked.iter().map(|(r, m)| (f64::from_bits(r.bits), m.name.as_str())).collect();
    assert_eq!(got, vec![(75.5, "C"), (50.0, "A"), (50.0, "D"), (-1.0, "E")]);
    assert!(d.igdb_list(RatingKind::User).is_empty());
}

#[test]
fn most_common_counts_and_orders_groups() {
    let mut a = meta(GameId::Igdb(1), "A", None, 0);
    a.game_engines = vec![engine("Unreal"), engine("Havok")];
    let mut b = meta(GameId::Igdb(2), "B", None, 0);
    b.game_engines = vec![engine("Unity")];
    let mut c = meta(GameId::Igdb(3), "C", None, 0);
    c.game_engines = vec![engine("Havok"), engine("Unreal"), engine("Havok")];
    let d = data(Vec::new(), vec![a, b, c]);
    let common = d.most_common(|m: &Meta| &m.game_engines, |e: &GameEngine| e.name.as_str());
    let got: Vec<(u32, &str)> = common.iter().map(|(n, e)| (*n, e.name.as_str())).collect();
    assert_eq!(got, vec![(3, "Havok"), (2, "Unreal"), (1, "Unity")]);
}

#[test]
fn most_common_of_empty_extraction_is_empty() {
    let d = data(
        Vec::new(),
        vec![meta(GameId::Igdb(1), "A", None, 0), meta(GameId::Igdb(2), "B", None, 0)],
    );
    let common = d.most_common(|m: &Meta| &m.game_engines, |e: &GameEngine| e.name.as_str());
    assert!(common.is_empty());
}

#[test]
fn release_date_range_spans_records() {
    let d = data(
        Vec::new(),
        vec![
            meta(GameId::Igdb(1), "A", None, 1_000),
            meta(GameId::Igdb(2), "B", None, -50),
            meta(GameId::Igdb(3), "C", None, 700),
        ],
    );
    assert_eq!(d.release_date_range(), Some((-50, 1_000)));
    let empty = data(Vec::new(), Vec::new());
    assert_eq!(empty.release_date_range(), None);
}

#[test]
fn latest_is_the_snapshot_of_the_greatest_date() {
    let d = data(
        vec![("2024-05-01", list(&[7])), ("2024-06-01", list(&[8, 9])), ("2024-01-01", list(&[6]))],
        Vec::new(),
    );
    assert_eq!(d.latest().unwrap().0, vec![GameId::Igdb(8), GameId::Igdb(9)]);
    assert_eq!(d.lists.penultimate().unwrap().0, vec![GameId::Igdb(7)]);
    let none = data(Vec::new(), Vec::new());
    assert!(none.latest().is_none());
}
