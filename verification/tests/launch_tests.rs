//! Launch-argument building, emulator choice, ROM identification and the
//! model constructors.

use romscan::info::rom_info;
use romscan::launch::build_launch_args;
use romscan::launch::choose_emulator_id;
use romscan::models::Collection;
use romscan::models::Emulator;
use romscan::models::Game;
use romscan::models::Platform;
use romscan::models::PlaySession;
use romscan::models::ScanResult;
use romscan::models::UpdateGameInput;

#[test]
fn launch_args_substitute_placeholders() {
    let args = build_launch_args("{rom} -f", "/r/game.iso", "T").unwrap();
    assert_eq!(args, vec!["/r/game.iso".to_string(), "-f".to_string()]);
}

#[test]
fn launch_args_quoting_keeps_spaces_together() {
    let args = build_launch_args(
        "\"{rom}\" --title \"{title}\"",
        "/r/My Game.iso",
        "My Game",
    )
    .unwrap();
    assert_eq!(
        args,
        vec![
            "/r/My Game.iso".to_string(),
            "--title".to_string(),
            "My Game".to_string()
        ]
    );
}

#[test]
fn launch_args_unquoted_spaces_split() {
    let args = build_launch_args("{rom}", "/r/My Game.iso", "T").unwrap();
    assert_eq!(args, vec!["/r/My".to_string(), "Game.iso".to_string()]);
}

#[test]
fn launch_args_unclosed_quote_is_an_error() {
    let err = build_launch_args("\"{rom}", "/r/game.iso", "T").unwrap_err();
    assert!(err.starts_with("Failed to parse launch arguments: "));
}

#[test]
fn emulator_choice_prefers_the_game_setting() {
    let preferred = Some("mednafen".to_string());
    let fallback = Some("retroarch".to_string());
    assert_eq!(choose_emulator_id(&preferred, &fallback), preferred);
    assert_eq!(choose_emulator_id(&None, &fallback), fallback);
    assert_eq!(choose_emulator_id(&None, &None), None);
}

#[test]
fn rom_info_identifies_by_extension() {
    let platforms = vec![Platform {
        id: "snes".to_string(),
        display_name: "SNES".to_string(),
        manufacturer: "Nintendo".to_string(),
        file_extensions: vec![".sfc".to_string(), ".smc".to_string()],
        icon_path: None,
        default_emulator_id: None,
        color: "#7b5aa6".to_string(),
    }];
    assert_eq!(
        rom_info("/x/Super Game (U).sfc", &platforms),
        Some(("Super Game".to_string(), "snes".to_string()))
    );
    assert_eq!(rom_info("/x/Super Game (U).SFC", &platforms).unwrap().1, "snes");
    assert_eq!(rom_info("/x/whatever.n64", &platforms), None);
    assert_eq!(rom_info("/x/noext", &platforms), None);
}

#[test]
fn fresh_game_has_empty_metadata() {
    let g = Game::new("Title".to_string(), "/p".to_string(), "snes".to_string());
    assert_eq!(g.title, "Title");
    assert_eq!(g.rom_path, "/p");
    assert_eq!(g.platform_id, "snes");
    assert!(g.cover_art_path.is_none());
    assert!(g.screenshots.is_empty());
    assert_eq!(g.total_play_time_seconds, 0);
    assert!(!g.is_favorite);
    // a version-4 UUID rendered in its canonical hyphenated form
    assert_eq!(g.id.len(), 36);
    let g2 = Game::new("Title".to_string(), "/p".to_string(), "snes".to_string());
    assert_ne!(g.id, g2.id);
}

#[test]
fn fresh_session_and_models() {
    let s = PlaySession::new("game-1".to_string());
    assert_eq!(s.game_id, "game-1");
    assert!(s.end_time.is_none());
    assert_eq!(s.duration_seconds, 0);
    assert!(!s.start_time.is_empty());

    let e = Emulator::new("m".to_string(), "/bin/m".to_string());
    assert_eq!(e.launch_arguments, "{rom}");
    assert!(e.supported_platform_ids.is_empty());

    let c = Collection::new("faves".to_string());
    assert_eq!(c.name, "faves");
    assert!(c.game_ids.is_empty());

    let r = ScanResult::new();
    assert_eq!(r.games_found, 0);
    assert_eq!(r.games_added, 0);
    assert_eq!(r.games_updated, 0);
    assert!(r.errors.is_empty());

    let u = UpdateGameInput::default();
    assert!(u.title.is_none());
    assert!(u.preferred_emulator_id.is_none());
}
