use gameclient::adventure_menu::{
    handle_button_click, player_current_adventure, start_adventure_body, switch_prompt,
    AdventureMenuState,
};
use gameclient::ambient::{
    cloud_variant, drop_is_dark, has_sky, hash2d, octave_seed, variant_seed, CLOUD_COUNT,
};
use gameclient::combat::{
    combat_active, combat_path, combat_reply, handle_combat_input, manage_combat_overlay,
    poll_combat_state, update_combat_ui, CombatReply, CombatState, CombatUiState,
};
use gameclient::daynight::{read_clock, DayNightSync};
use gameclient::entities::{
    entities_path, poll_entities, render_entities, EntityFacing, MobileEntity, PolledEntity,
};
use gameclient::music::{
    determine_context, music_base_url, pick_track, track_url, MusicContext, MusicState, MusicStep,
    Place, TrackChoice, TrackDef,
};
use gameclient::reconcile::LayerAction;
use gameclient::sfx::{notes_for, tail_hundredths, SfxKind, SfxWatch};
use gameclient::terrain::fog::FogOfWar;
use gameclient::terrain::world_map::{Biome, PoiType};
use gameclient::travel_menu::{
    apply_fetched_gates, gates_path, handle_gate_click, GateRow, TravelMenuState,
};
use gameclient::version::{announced_version, VersionState, CLIENT_VERSION};

fn fight(difficulty: u32, messages: usize) -> CombatState {
    CombatState {
        fighting: true,
        difficulty,
        description: "A fight".into(),
        enemy_name: "Yeti".into(),
        enemy_hp: 7,
        enemy_max_hp: 20,
        player_level: 3,
        player_hp: -1,
        player_max_hp: 30,
        min_level: 2,
        recommended_level: 5,
        turn_log: (0..messages).map(|i| format!("m{}", i)).collect(),
    }
}

fn track(id: &str, context: &str) -> TrackDef {
    TrackDef {
        id: id.into(),
        file: format!("{}.ogg", id),
        context: context.into(),
        looped: true,
    }
}

#[test]
fn combat_answers() {
    assert_eq!(combat_reply("null", true), CombatReply::Cleared);
    assert_eq!(combat_reply("", false), CombatReply::Nothing);
    assert_eq!(combat_reply("{}", true), CombatReply::Fight);
    assert_eq!(combat_path("p"), "/combat?player_id=p");
}

#[test]
fn a_fight_from_start_to_end() {
    let mut combat = CombatUiState::default();
    let step = poll_combat_state(&mut combat, None, false);
    assert!(!step.anchor && !step.grow);
    assert_eq!(step.difficulty, 1);
    let step = poll_combat_state(&mut combat, Some(fight(4, 0)), false);
    assert!(step.anchor && step.grow && combat_active(&combat));
    assert_eq!(step.difficulty, 4);
    assert_eq!(manage_combat_overlay(&combat, false), LayerAction::Spawn);
    assert!(handle_combat_input(&mut combat, true, false));
    assert!(!handle_combat_input(&mut combat, true, true));
    assert!(!poll_combat_state(&mut combat, None, false).grow);
    let step = poll_combat_state(&mut combat, None, true);
    assert!(step.clear && !combat.active && combat.state.is_none());
    assert_eq!(manage_combat_overlay(&combat, true), LayerAction::Despawn);
}

#[test]
fn nothing_to_run_from() {
    let mut combat = CombatUiState::default();
    assert!(!handle_combat_input(&mut combat, true, true));
    let mut over = fight(1, 0);
    over.fighting = false;
    combat.state = Some(over);
    assert!(!handle_combat_input(&mut combat, true, true));
}

#[test]
fn combat_texts_show_the_last_messages() {
    let texts = update_combat_ui(&fight(2, 6));
    assert_eq!(texts.enemy_hp, "HP: 7/20");
    assert_eq!(texts.player_hp, "HP: -1/30");
    assert_eq!(texts.player_name, "Lv 3 Adventurer");
    assert_eq!(texts.level_info, "Min Lv 2 / Rec Lv 5");
    assert_eq!(texts.log, "m2\nm3\nm4\nm5");
    assert_eq!(update_combat_ui(&fight(2, 0)).log, "");
    assert_eq!(update_combat_ui(&fight(2, 2)).log, "m0\nm1");
}

#[test]
fn music_fits_the_moment() {
    let mut combat = CombatUiState::default();
    let forest = Place { poi_type: None, biome: Biome::DenseForest };
    let town = Place { poi_type: Some(PoiType::Town), biome: Biome::Swamp };
    assert_eq!(determine_context(true, None, None, None), MusicContext::Title);
    assert_eq!(determine_context(false, None, None, None), MusicContext::Silent);
    assert_eq!(
        determine_context(false, Some(&combat), Some(true), Some(forest)),
        MusicContext::Interior
    );
    assert_eq!(determine_context(false, None, Some(false), None), MusicContext::Silent);
    assert_eq!(determine_context(false, None, Some(false), Some(forest)), MusicContext::Forest);
    assert_eq!(determine_context(false, None, Some(false), Some(town)), MusicContext::Village);
    combat.active = true;
    combat.state = Some(fight(5, 0));
    assert_eq!(
        determine_context(false, Some(&combat), Some(true), Some(forest)),
        MusicContext::Combat
    );
    combat.state = Some(fight(6, 0));
    assert_eq!(determine_context(false, Some(&combat), None, None), MusicContext::Boss);
    let names: Vec<&str> = [MusicContext::Swamp, MusicContext::Silent, MusicContext::Victory]
        .iter()
        .map(|c| c.as_str())
        .collect();
    assert_eq!(names, vec!["swamp", "", "victory"]);
}

#[test]
fn tracks_are_picked() {
    let tracks = vec![
        track("g1", "grassland"),
        track("g2", "grassland"),
        track("g3", "grassland"),
        track("g4", "grassland"),
        track("f1", "forest"),
    ];
    let near = vec![true, true, true, false, false];
    let far = vec![false; 5];
    let none: Option<String> = None;
    let silent = pick_track(&tracks, MusicContext::Silent, &near, &none, true);
    assert!(matches!(silent, TrackChoice::Silence));
    // Three tracks are near the speed: only they are drawn from.
    match pick_track(&tracks, MusicContext::Grassland, &near, &none, true) {
        TrackChoice::OneOf(pool) => assert_eq!(pool, vec![0, 1, 2]),
        _ => panic!("a track is drawn"),
    }
    match pick_track(&tracks, MusicContext::Grassland, &far, &none, true) {
        TrackChoice::OneOf(pool) => assert_eq!(pool, vec![0, 1, 2, 3]),
        _ => panic!("a track is drawn"),
    }
    // The mountain borrows; the current track is not drawn again.
    let current = Some("g2".to_string());
    match pick_track(&tracks, MusicContext::Mountain, &near, &current, false) {
        TrackChoice::OneOf(pool) => assert_eq!(pool, vec![0, 2]),
        _ => panic!("a track is drawn"),
    }
    let stay = pick_track(&tracks, MusicContext::Mountain, &near, &current, true);
    assert!(matches!(stay, TrackChoice::Stay(1)));
    // The only track of the forest is drawn again.
    let current = Some("f1".to_string());
    let choice = pick_track(&tracks, MusicContext::Forest, &near, &current, false);
    assert_eq!(choice.draw(0), Some(4));
    assert_eq!(choice.draw(1), None);
    let empty = pick_track(&vec![], MusicContext::Forest, &vec![], &none, true);
    assert!(matches!(empty, TrackChoice::Silence));
}

#[test]
fn music_crossfades_between_channels() {
    let tracks = vec![track("a", "forest"), track("b", "forest")];
    let mut music = MusicState::default();
    assert!(!music.is_on(&tracks));
    assert_eq!(music.button_label(), "[M]usic");
    assert!(!music.toggle());
    assert!(music.is_on(&tracks));
    assert_eq!(music.button_label(), "[M] On");
    assert_eq!(music.volume_label(35), "Vol: 35%");
    let step = music.update_music(&tracks, Some(1), true);
    assert_eq!(step, MusicStep::Start { track: 1, on_a: false });
    assert_eq!(music.update_music(&tracks, Some(1), false), MusicStep::Keep);
    music.started("b", MusicContext::Forest);
    assert_eq!(music.update_music(&tracks, Some(1), true), MusicStep::Keep);
    assert!(music.fade_complete());
    assert!(!music.active_is_a && !music.fading);
    assert_eq!(music.update_music(&tracks, None, true), MusicStep::FadeOut);
    music.fade_out();
    assert_eq!(music.current_track, None);
    assert!(music.toggle());
    assert_eq!(music.button_label(), "[M] Off");
    assert_eq!(music.volume_label(35), "Music: OFF");
}

#[test]
fn music_files_lie_beside_the_page() {
    let base = music_base_url(Some("http://localhost:9090/crates/index.html"));
    assert_eq!(base, "http://localhost:9090/crates/assets/music/");
    assert_eq!(music_base_url(Some("page")), "assets/music/");
    assert_eq!(music_base_url(None), "assets/music/");
    assert_eq!(track_url(&base, &track("a", "x")), format!("{}a.ogg", base));
}

#[test]
fn sounds_are_due_on_news() {
    let mut watch = SfxWatch::default();
    assert!(!watch.detect_gold_gain(50));
    assert!(watch.detect_gold_gain(60));
    assert!(!watch.detect_gold_gain(10));
    assert!(!watch.detect_level_up(4));
    assert!(watch.detect_level_up(5));
    assert!(!watch.detect_route_arrival(3));
    assert!(watch.detect_route_arrival(0));
    assert!(!watch.detect_route_arrival(0));
    assert!(!watch.detect_combat_victory(true));
    assert!(watch.detect_combat_victory(false));
}

#[test]
fn phrases_and_their_ends() {
    assert_eq!(notes_for(SfxKind::CombatVictory).len(), 4);
    let level_up = notes_for(SfxKind::LevelUp);
    assert_eq!(level_up[2].freq_hz, 784);
    assert_eq!(tail_hundredths(&level_up), 37);
    assert_eq!(tail_hundredths(&notes_for(SfxKind::GoldGained)), 21);
    assert_eq!(tail_hundredths(&notes_for(SfxKind::RouteArrived)), 25);
    assert_eq!(tail_hundredths(&vec![]), 5);
}

#[test]
fn server_clock_is_read() {
    let clock = read_clock("{\"time_s\": 12.5,\"cycle_seconds\":300}").unwrap();
    assert_eq!(clock.time_s.iter().collect::<String>(), "12.5");
    assert_eq!(clock.cycle_seconds.iter().collect::<String>(), "300");
    assert!(read_clock("{\"time_s\": 12.5}").is_none());
    let mut sync = DayNightSync { boot_fetched: false };
    assert!(sync.poll_server_time(false));
    assert!(!sync.poll_server_time(false));
    assert!(sync.poll_server_time(true));
}

#[test]
fn newer_versions_call_for_a_refresh() {
    assert_eq!(announced_version("{\"version\":\u{2003} 322, \"version\":5}"), Some(322));
    assert_eq!(announced_version("{\"version\": }"), None);
    assert_eq!(announced_version("{\"version\":99999999999}"), None);
    assert_eq!(announced_version("{}"), None);
    let mut state = VersionState::default();
    assert!(!state.update_banner_visibility(None));
    assert!(!state.update_banner_visibility(Some(CLIENT_VERSION)));
    assert!(!state.update_banner_visibility(Some(CLIENT_VERSION - 1)));
    assert!(state.update_banner_visibility(Some(CLIENT_VERSION + 1)));
    assert!(state.update_banner_visibility(Some(CLIENT_VERSION)));
}

#[test]
fn adventures_to_start() {
    let mut state = AdventureMenuState { panel_open: false };
    let choices = handle_button_click(&mut state, "").unwrap();
    assert_eq!(choices[0].label, "• The Frost Lord (current)");
    assert_eq!(choices[1].label, "Start: Chaos Unleashed");
    assert!(handle_button_click(&mut state, "chaos").is_none());
    let choices = handle_button_click(&mut state, "chaos").unwrap();
    assert!(!choices[0].is_current && choices[1].is_current);
    assert_eq!(player_current_adventure(""), "frost_quest");
    assert_eq!(
        switch_prompt("chaos"),
        "Switch to 'chaos'?\nYour current character will be reset (boons are kept)."
    );
    assert_eq!(
        start_adventure_body("p", "chaos"),
        r#"{"player_id":"p","adventure_id":"chaos"}"#
    );
}

#[test]
fn travel_to_unlocked_places() {
    let mut state = TravelMenuState { panel_open: false };
    let rows = Some(vec![GateRow { id: 5, name: "North".into(), x: 3, y: 44 }]);
    assert!(apply_fetched_gates(&state, &rows).is_none());
    assert!(gameclient::travel_menu::handle_button_click(&mut state));
    assert!(apply_fetched_gates(&state, &None).is_none());
    let buttons = apply_fetched_gates(&state, &rows).unwrap();
    assert_eq!(buttons[0].title, "→ North");
    assert_eq!(buttons[0].place, "(3, 44)");
    assert_eq!(handle_gate_click(&mut state, "p", 5), r#"{"player_id":"p","gate_id":5}"#);
    assert!(!state.panel_open);
    assert_eq!(gates_path("p"), "/travel_gates?player_id=p");
}

#[test]
fn cloud_noise() {
    let mut h = (-3i32 as u32)
        .wrapping_mul(374761393)
        .wrapping_add(7u32.wrapping_mul(668265263))
        .wrapping_add(99);
    h ^= h >> 13;
    h = h.wrapping_mul(1274126177);
    h ^= h >> 16;
    assert_eq!(hash2d(-3, 7, 99), h & 0x00FF_FFFF);
    assert_eq!(variant_seed(2), 0x1234 + 2 * 7919);
    assert_eq!(octave_seed(u32::MAX, 1), 100);
    assert_eq!(cloud_variant(CLOUD_COUNT - 1), 2);
}

#[test]
fn rain_over_fog_is_light() {
    assert!(has_sky(true, false));
    assert!(!has_sky(true, true));
    assert!(!has_sky(false, false));
    let mut fog = FogOfWar::new_sized(100, 1);
    fog.reveal_around(4, 0, 0);
    assert!(drop_is_dark(Some(&fog), 4, 0));
    assert!(!drop_is_dark(Some(&fog), 5, 0));
    assert!(drop_is_dark(Some(&fog), 5, 1));
    assert!(drop_is_dark(None, 5, 0));
    let mut wide = FogOfWar::new_sized(200, 2);
    wide.reveal_around(100, 0, 0);
    assert!(drop_is_dark(Some(&wide), 100, 0));
    assert!(!drop_is_dark(Some(&wide), 0, 1));
}

#[test]
fn entities_come_and_go() {
    assert!(poll_entities(true, "p", false));
    assert!(!poll_entities(true, "", false));
    assert!(!poll_entities(true, "p", true));
    assert_eq!(entities_path("p"), "/entities?player_id=p");
    let list = vec![PolledEntity {
        id: "e1".into(),
        sprite: "slime".into(),
        x: 1,
        y: 2,
        facing: "left".into(),
    }];
    let changes = render_entities(&vec!["e0".to_string()], &list);
    assert_eq!(changes.remove, vec![true]);
    assert_eq!(changes.add, vec![true]);
}

#[test]
fn entities_walk() {
    assert_eq!(EntityFacing::parse("up"), EntityFacing::Up);
    assert_eq!(EntityFacing::parse("sideways"), EntityFacing::Down);
    assert_eq!(EntityFacing::Right.atlas_row(), 2);
    let mut entity = MobileEntity::appear((1, 1), EntityFacing::Down, 4);
    assert_eq!(entity.advance((1, 1), EntityFacing::Down, true, true), None);
    // Turning shows the first frame of the other row.
    assert_eq!(entity.advance((1, 1), EntityFacing::Left, true, true), Some(4));
    assert_eq!(entity.advance((2, 1), EntityFacing::Left, true, true), Some(5));
    assert_eq!(entity.advance((2, 1), EntityFacing::Left, false, false), Some(5));
    assert_eq!(entity.advance((2, 1), EntityFacing::Left, true, false), Some(4));
    assert_eq!(entity.advance((2, 1), EntityFacing::Left, true, false), None);
    assert_eq!(MobileEntity::appear((0, 0), EntityFacing::Up, 0).cols, 1);
}
