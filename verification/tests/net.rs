use gameclient::json::{collect_texts, from_value, parse_json, Json};
use gameclient::request::{
    heartbeat_body, item_body, join_body, player_body, purchase_body, route_body, route_json,
};
use gameclient::session::{api_url, detect_ui_hover, update_cursor, GameSession, Hover};
use gameclient::supabase::{
    heartbeat_url, interior_of, poll_path, writes_route, Location, LongPollState, SupabaseConfig,
};
use gameclient::text::{decimal, same_text, same_text_but_case, take_chars};
use gameclient::title::{
    champion_greeting, check_login_result, fetch_walker_players, handle_champion_click,
    handle_walker_click, load_session, read_login, spawn_title, walker_row, LoginResult,
    TitleScreen, TitleStage,
};

#[test]
fn json_is_read() {
    let json = parse_json(r#"{"a": [1, "x", null, -2], "b": {"c": true}, "d": 1.5}"#).unwrap();
    let list = json.get_list("a").unwrap();
    assert_eq!(list.len(), 4);
    assert!(matches!(list[0], Json::Number(Some(1), Some(1))));
    assert!(matches!(list[2], Json::Null));
    assert!(matches!(list[3], Json::Number(None, Some(-2))));
    assert_eq!(collect_texts(list), vec!["x"]);
    assert!(matches!(json.get("b").unwrap().get("c"), Some(Json::Bool(true))));
    assert!(matches!(json.get("d"), Some(Json::Number(None, None))));
    assert!(json.get_text("a").is_none());
    assert!(json.get("z").is_none());
    assert!(parse_json("{").is_none());
}

#[test]
fn json_values_are_converted() {
    let value: serde_json::Value = serde_json::from_str(r#"{"n": 18446744073709551615}"#).unwrap();
    let json = from_value(&value);
    assert_eq!(json.get_u64("n"), Some(u64::MAX));
    assert_eq!(json.get_i64("n"), None);
}

#[test]
fn bodies_are_json() {
    let odd = "a\"b\\c\n\u{1}\u{8}\u{c}\r\té";
    let body = player_body(odd);
    assert_eq!(body, "{\"player_id\":\"a\\\"b\\\\c\\n\\u0001\\b\\f\\r\\té\"}");
    assert_eq!(parse_json(&body).unwrap().get_text("player_id").unwrap(), odd);
    assert_eq!(item_body("p", "i"), r#"{"item_id":"i","player_id":"p"}"#);
    assert_eq!(purchase_body("p", "i", -5), r#"{"cost":-5,"item_id":"i","player_id":"p"}"#);
    assert_eq!(
        join_body("n", "w", "c"),
        r#"{"champion":"c","name":"n","walker_uuid":"w"}"#
    );
    assert_eq!(heartbeat_body("p"), r#"{"p_player_id":"p"}"#);
    assert_eq!(route_body("p", "[]", None), r#"{"player_id":"p","route":"[]"}"#);
    assert_eq!(
        route_body("p", "[]", Some("12.5")),
        r#"{"player_id":"p","route":"[]","meters":12.5}"#
    );
    // A control character beyond the short escapes.
    assert_eq!(player_body("\u{1f}"), "{\"player_id\":\"\\u001f\"}");
}

#[test]
fn routes_are_json() {
    assert_eq!(route_json(&[]), "[]");
    assert_eq!(route_json(&[(1, 20)]), "[[1,20]]");
    assert_eq!(route_json(&[(1, 20), (300, 4)]), "[[1,20],[300,4]]");
    let route: Vec<(usize, usize)> = serde_json::from_str(&route_json(&[(7, 8), (9, 10)])).unwrap();
    assert_eq!(route, vec![(7, 8), (9, 10)]);
}

#[test]
fn addresses() {
    assert_eq!(api_url(Some("https://x.y"), "/join"), "https://x.y/join");
    assert_eq!(api_url(None, "/join"), "http://localhost:3001/join");
    assert_eq!(poll_path(42), "/players/poll?after=42");
}

#[test]
fn cursor_over_the_interface() {
    assert!(detect_ui_hover(&vec![Hover::Away, Hover::Pressed]));
    assert!(!detect_ui_hover(&vec![Hover::Away]));
    assert!(!detect_ui_hover(&vec![]));
    let mut last = false;
    assert_eq!(update_cursor(false, &mut last), None);
    assert_eq!(update_cursor(true, &mut last), Some("pointer"));
    assert_eq!(update_cursor(true, &mut last), None);
    assert_eq!(update_cursor(false, &mut last), Some("default"));
}

#[test]
fn one_long_poll_at_a_time() {
    let mut poll = LongPollState::default();
    assert_eq!(poll.check_long_poll(), Some(0));
    assert_eq!(poll.check_long_poll(), None);
    poll.finish(Some(9));
    assert_eq!(poll.check_long_poll(), Some(9));
    // A lost answer is asked for again.
    poll.finish(None);
    assert_eq!(poll.check_long_poll(), Some(9));
}

#[test]
fn writing_needs_a_player() {
    assert!(!writes_route(""));
    assert!(writes_route("p"));
    let config = SupabaseConfig { url: "https://db".into(), anon_key: "k".into() };
    assert_eq!(heartbeat_url(&config, ""), None);
    assert_eq!(
        heartbeat_url(&config, "p"),
        Some("https://db/rest/v1/rpc/browser_heartbeat".to_string())
    );
    let nowhere = SupabaseConfig { url: "".into(), anon_key: "".into() };
    assert_eq!(heartbeat_url(&nowhere, "p"), None);
}

#[test]
fn locations_are_interiors_or_not() {
    assert_eq!(interior_of(None), None);
    assert_eq!(interior_of(Some(Location::Overworld)), None);
    assert_eq!(
        interior_of(Some(Location::Interior { id: "cave".into() })),
        Some("cave".to_string())
    );
}

#[test]
fn text_helpers() {
    assert!(same_text("Börg", "Börg"));
    assert!(!same_text("Borg", "Börg"));
    assert!(same_text_but_case("AbZ9", "aBz9"));
    assert!(!same_text_but_case("Ö", "ö"));
    assert_eq!(decimal(0), "0");
    assert_eq!(decimal(u64::MAX), "18446744073709551615");
    assert_eq!(take_chars("äöü", 2), "äö");
    assert_eq!(take_chars("ab", 9), "ab");
}

#[test]
fn login_answers() {
    let text = r#"{"player_id": "p1", "champion": "Grum", "map_seed": 7}"#;
    let login = read_login(text, "Ann", "Katan", "w1").unwrap();
    assert_eq!(login.player_id, "p1");
    assert_eq!(login.name, "Ann");
    assert_eq!(login.champion, "Grum");
    assert_eq!(login.walker_uuid, "w1");
    assert_eq!(login.map_seed, 7);
    let plain = read_login(r#"{"player_id": "p1"}"#, "Ann", "Katan", "w1").unwrap();
    assert_eq!(plain.champion, "Katan");
    assert_eq!(plain.map_seed, 12345);
    assert!(read_login(r#"{"name": "Ann"}"#, "Ann", "Katan", "w1").is_none());
    assert!(read_login("oops", "Ann", "Katan", "w1").is_none());
}

#[test]
fn remembered_sessions_must_be_whole() {
    let some = |s: &str| Some(s.to_string());
    let saved = load_session(some("p"), some("Ann"), some("Grum"), some("w"));
    assert_eq!(saved.as_ref().unwrap().name, "Ann");
    assert!(load_session(some("p"), some(""), some("Grum"), some("w")).is_none());
    assert!(load_session(some("p"), some("Ann"), None, some("w")).is_none());
    let mut waiting = false;
    match spawn_title(&saved, &mut waiting) {
        TitleScreen::Reconnecting { welcome, champion_line } => {
            assert_eq!(welcome, "Welcome back, Ann");
            assert_eq!(champion_line, "(Grum)");
        }
        TitleScreen::PickWalker => panic!("the session is resumed"),
    }
    assert!(waiting);
    let mut waiting = false;
    assert!(matches!(spawn_title(&None, &mut waiting), TitleScreen::PickWalker));
    assert!(!waiting);
}

#[test]
fn leaderboard_lists_everybody_once() {
    let text = r#"{
        "all_time": [{"id": "3", "name": "Cyd", "status": "walking"}, {"id": "1"}],
        "today": [{"id": "1", "name": "Ann"}, {"name": "Nobody"}],
        "weekly": "none"
    }"#;
    let walkers = fetch_walker_players(text).unwrap();
    let ids: Vec<&str> = walkers.iter().map(|w| w.id.as_str()).collect();
    assert_eq!(ids, vec!["1", "", "3"]);
    assert_eq!(walkers[0].status, "offline");
    assert_eq!((walkers[2].period, walkers[2].index), (2, 0));
    assert_eq!(walker_row(&walkers[2], "4.5").text, "* Cyd (4.5 km/h)");
    assert_eq!(walker_row(&walkers[0], "0.0").text, "  Ann");
    assert!(fetch_walker_players("?").is_none());
}

#[test]
fn picking_walker_and_champion() {
    let mut stage = TitleStage { selected_walker: None, champion_ui_built: false };
    let mut waiting = false;
    assert!(!handle_champion_click(&stage, true, &mut waiting));
    assert!(!handle_walker_click(&mut stage, None));
    assert!(handle_walker_click(&mut stage, Some(("1".to_string(), "Ann".to_string()))));
    assert!(!handle_walker_click(&mut stage, Some(("2".to_string(), "Bob".to_string()))));
    assert_eq!(stage.selected_walker, Some(("1".to_string(), "Ann".to_string())));
    assert_eq!(champion_greeting("Ann"), "Welcome, Ann");
    assert!(handle_champion_click(&stage, true, &mut waiting));
    assert!(waiting);
    assert!(!handle_champion_click(&stage, true, &mut waiting));
}

#[test]
fn login_starts_the_game() {
    let mut waiting = true;
    let mut session = GameSession::default();
    assert!(!check_login_result(&mut waiting, &mut session, None));
    assert!(waiting);
    let login = || {
        Some(LoginResult {
            player_id: "p".into(),
            name: "Ann".into(),
            champion: "Grum".into(),
            walker_uuid: "w".into(),
            map_seed: 5,
        })
    };
    assert!(check_login_result(&mut waiting, &mut session, login()));
    assert!(!waiting);
    assert_eq!(session.player_id, "p");
    assert_eq!(session.map_seed, 5);
    assert!(!check_login_result(&mut waiting, &mut session, login()));
}
