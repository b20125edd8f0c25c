use game_list::{
    games_query, locate, Color, Exchange, ExchangeStep, Font, GameId, IgdbRequestor, ImageSize,
    MarkerKind, RatingKind,
};

/// Sends the same body until the exchange settles; returns the bodies sent
/// and whether the request succeeded.
fn run(body: &str, statuses: &[u16]) -> (Vec<String>, bool) {
    let mut ex = Exchange::new();
    let mut sent = Vec::new();
    for &status in statuses {
        sent.push(body.to_string());
        match ex.on_status(status) {
            ExchangeStep::Accept => return (sent, true),
            ExchangeStep::Retry { delay_secs } => assert_eq!(delay_secs, 60),
            ExchangeStep::Fail { status: s } => {
                assert_eq!(s, status);
                return (sent, false);
            }
        }
    }
    (sent, false)
}

#[test]
fn rate_limited_then_ok_succeeds_after_two_requests() {
    let body = games_query(&[GameId::Igdb(1)]);
    let (sent, ok) = run(&body, &[429, 200, 200]);
    assert!(ok);
    assert_eq!(sent.len(), 2);
    assert_eq!(sent[0], sent[1]);
}

#[test]
fn rate_limited_twice_fails_after_two_requests() {
    let body = games_query(&[GameId::Igdb(1)]);
    let (sent, ok) = run(&body, &[429, 429, 200]);
    assert!(!ok);
    assert_eq!(sent.len(), 2);
}

#[test]
fn other_errors_are_not_retried() {
    let (sent, ok) = run("q", &[500, 200]);
    assert!(!ok);
    assert_eq!(sent.len(), 1);
    let mut ex = Exchange::new();
    assert_eq!(ex.on_status(204), ExchangeStep::Accept);
    assert_eq!(ex.on_status(404), ExchangeStep::Fail { status: 404 });
}

#[test]
fn games_query_names_ids_and_limit() {
    let body = games_query(&[GameId::Igdb(1), GameId::Igdb(22), GameId::Igdb(333)]);
    assert!(body.starts_with("fields age_ratings.category,"));
    assert!(body.ends_with(",total_rating,total_rating_count; where id=(1,22,333); limit 3;"));
    let one = games_query(&[GameId::Igdb(7)]);
    assert!(one.ends_with("; where id=(7); limit 1;"));
}

#[test]
fn token_is_obtained_once_and_kept() {
    let mut req = IgdbRequestor::new("id", "secret");
    assert!(req.needs_login());
    assert_eq!(req.access_token(), None);
    let q = req.login_query();
    assert_eq!(
        q,
        vec![
            ("grant_type".to_string(), "client_credentials".to_string()),
            ("client_id".to_string(), "id".to_string()),
            ("client_secret".to_string(), "secret".to_string()),
        ]
    );
    req.set_access_token("tok".to_string());
    assert!(!req.needs_login());
    assert_eq!(req.access_token(), Some("tok"));
    assert_eq!(req.client_id(), "id");
}

#[test]
fn thumbnail_is_resized_and_stored_as_png() {
    let url = "//images.igdb.com/igdb/image/upload/t_thumb/co1abc.jpg";
    let loc = locate(&ImageSize::Hd, url);
    assert_eq!(loc.url, "https://images.igdb.com/igdb/image/upload/t_720p/co1abc.png");
    assert_eq!(loc.path, "res/t_720p/co1abc.png");
    let again = locate(&ImageSize::Hd, url);
    assert_eq!(again.url, loc.url);
    assert_eq!(again.path, loc.path);
}

#[test]
fn thumbnail_without_extension_becomes_png() {
    let loc = locate(&ImageSize::Hd, "//host/t_thumb/name");
    assert_eq!(loc.url, "https://host/t_720p/png");
    assert_eq!(loc.path, "res/t_720p/png");
}

#[test]
fn other_urls_keep_their_path() {
    let loc = locate(&ImageSize::Hd, "//cdn.example.org/logos/brand.v2.svg");
    assert_eq!(loc.url, "https://cdn.example.org/logos/brand.v2.svg");
    assert_eq!(loc.path, "res/brand.v2.svg");
    let short = locate(&ImageSize::Hd, "t_thumb/a.gif");
    assert_eq!(short.url, "https:t_720p/a.png");
    assert_eq!(short.path, "res/t_720p/a.png");
}

#[test]
fn labels() {
    assert_eq!(ImageSize::Hd.to_string(), "t_720p");
    assert_eq!(RatingKind::User.to_string(), "IGDB User Ranking");
    assert_eq!(RatingKind::Critic.to_string(), "IGDB Critic Ranking");
    assert_eq!(RatingKind::Total.to_string(), "IGDB Ranking");
}

#[test]
fn fonts_colors_and_markers() {
    let f = Font::new(32);
    assert_eq!(f.size(), 32);
    assert_eq!(f.name(), "Rubik");
    assert_eq!(f.color(), Color(0xf9, 0xf9, 0xf9));
    assert_eq!(Font::default().size(), 24);
    assert_eq!(Color::bg_primary(), Color(0x4e, 0x2f, 0x63));
    assert_eq!(Color::accent_yellow(), Color(0xfa, 0xe6, 0x16));
    assert_eq!(MarkerKind::from_index(0), MarkerKind::Triangle);
    assert_eq!(MarkerKind::from_index(4), MarkerKind::Circle);
    assert_eq!(MarkerKind::from_index(5), MarkerKind::Cross);
    assert_eq!(MarkerKind::COUNT, 3);
}
