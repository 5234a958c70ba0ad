//! Title cleaning, disc detection and path-string behaviour.

use romscan::discs::get_base_game_name;
use romscan::discs::get_disc_number;
use romscan::discs::is_disc_extension;
use romscan::hints::default_platform_hints;
use romscan::hints::detect_platform_from_path;
use romscan::info::is_supported_image_ext;
use romscan::paths::file_name_of;
use romscan::paths::file_stem_of;
use romscan::paths::join_path;
use romscan::paths::lower_string;
use romscan::paths::normalized_ext_of;
use romscan::paths::parent_dir_of;
use romscan::titles::clean_rom_title;

#[test]
fn title_cleaning_strips_release_tags() {
    assert_eq!(clean_rom_title("Chrono Trigger (USA) [T+Eng1.0]"), "Chrono Trigger");
}

#[test]
fn title_cleaning_all_tags_reduces_to_empty() {
    assert_eq!(clean_rom_title("(USA) [!]"), "");
    assert_eq!(clean_rom_title(""), "");
}

#[test]
fn title_cleaning_collapses_whitespace() {
    assert_eq!(clean_rom_title("Super  Mario   World"), "Super Mario World");
    assert_eq!(clean_rom_title("  Metroid (JP) {beta}  "), "Metroid");
}

#[test]
fn disc_detection_round_trip() {
    assert_eq!(get_disc_number("Final Fantasy IX (Disc 2 of 4)"), Some(2));
    assert_eq!(get_base_game_name("Final Fantasy IX (Disc 2 of 4)"), "Final Fantasy IX");
}

#[test]
fn disc_detection_pattern_forms() {
    assert_eq!(get_disc_number("Game (Disc 1)"), Some(1));
    assert_eq!(get_disc_number("Game [Disk 2 of 3]"), Some(2));
    assert_eq!(get_disc_number("Game (CD3)"), Some(3));
    assert_eq!(get_disc_number("Game - Disc 4"), Some(4));
    assert_eq!(get_disc_number("Game - CD1"), Some(1));
    assert_eq!(get_disc_number("Game Disc 2"), Some(2));
    assert_eq!(get_disc_number("Game_Disc1"), Some(1));
    assert_eq!(get_disc_number("Game_CD2"), Some(2));
    assert_eq!(get_disc_number("game (disc 5)"), Some(5));
}

#[test]
fn disc_detection_rejects_non_disc_names() {
    assert_eq!(get_disc_number("Game"), None);
    assert_eq!(get_disc_number("Discworld"), None);
    assert_eq!(get_disc_number("Game (Disc )"), None);
    assert_eq!(get_disc_number("Game (Disc 99999999999)"), None);
}

#[test]
fn base_name_strips_all_indicator_forms() {
    assert_eq!(get_base_game_name("Game - Disc 2"), "Game");
    assert_eq!(get_base_game_name("Game_CD2"), "Game");
    assert_eq!(get_base_game_name("Game [Disk 1 of 3]"), "Game");
}

#[test]
fn disc_extensions_closed_set() {
    for e in [".cue", ".iso", ".chd", ".mdf", ".nrg", ".img", ".ccd"] {
        assert!(is_disc_extension(e));
    }
    assert!(!is_disc_extension(".bin"));
    assert!(!is_disc_extension(".m3u"));
    assert!(!is_disc_extension("iso"));
}

#[test]
fn path_helpers() {
    assert_eq!(file_name_of("/roms/ps1/Game (Disc 1).cue"), "Game (Disc 1).cue");
    assert_eq!(parent_dir_of("/roms/ps1/Game (Disc 1).cue"), "/roms/ps1");
    assert_eq!(file_stem_of("/roms/ps1/Game (Disc 1).cue"), "Game (Disc 1)");
    assert_eq!(normalized_ext_of("/roms/FOO.ISO"), Some(".iso".to_string()));
    assert_eq!(normalized_ext_of("/roms/noext"), None);
    assert_eq!(normalized_ext_of("/roms/.hidden"), None);
    assert_eq!(join_path("/roms/ps1", "Game.m3u"), "/roms/ps1/Game.m3u");
    assert_eq!(join_path("", "Game.m3u"), "Game.m3u");
    assert_eq!(lower_string("AbC-9"), "abc-9");
}

#[test]
fn hinter_matches_path_segments() {
    let hints = default_platform_hints();
    assert_eq!(
        detect_platform_from_path("/mnt/PS2 Games/game.iso", &hints),
        Some("ps2".to_string())
    );
    assert_eq!(
        detect_platform_from_path("/mnt/roms/gamecube/game.iso", &hints),
        Some("gamecube".to_string())
    );
    assert_eq!(
        detect_platform_from_path("C:\\Games\\snes_roms\\game.sfc", &hints),
        Some("snes".to_string())
    );
    assert_eq!(detect_platform_from_path("/mnt/stuff/things", &hints), None);
}

#[test]
fn hinter_table_order_breaks_ties() {
    // "psx" names ps1; a segment naming both ps2 and ps1 resolves to the
    // earlier table entry
    let hints = default_platform_hints();
    assert_eq!(
        detect_platform_from_path("/roms/ps2 and psx/x.iso", &hints),
        Some("ps2".to_string())
    );
}

#[test]
fn image_extension_set() {
    for e in ["jpg", "jpeg", "png", "webp", "gif"] {
        assert!(is_supported_image_ext(e));
    }
    assert!(!is_supported_image_ext("bmp"));
    assert!(!is_supported_image_ext(".jpg"));
}

#[test]
fn disc_detection_is_case_insensitive() {
    assert_eq!(get_disc_number("GAME (DISC 2 OF 4)"), Some(2));
    assert_eq!(get_base_game_name("GAME (DISC 2 OF 4)"), "GAME");
}

#[test]
fn disc_indicator_of_clause_edge_forms() {
    // a malformed `of` clause leaves the whole bracket unmatched
    assert_eq!(get_disc_number("Game (Disc 1 ofx)"), None);
    // a compact clause still matches
    assert_eq!(get_disc_number("Game (Disc 1 of2)"), Some(1));
    // mismatched bracket pairs are accepted
    assert_eq!(get_disc_number("Game (Disc 2]"), Some(2));
}

#[test]
fn base_name_keeps_other_tags() {
    // only the disc indicator is deleted; release tags survive for the
    // grouping key and are cleaned later, when the title is derived
    assert_eq!(get_base_game_name("Game (Disc 1) (USA)"), "Game  (USA)");
    assert_eq!(get_base_game_name("(disc 2) Game"), "Game");
}

#[test]
fn kelvin_sign_folds_to_k() {
    // the one character outside ASCII whose single-character lowercase
    // mapping is an ASCII letter
    assert_eq!(get_disc_number("x dis\u{212A}1"), Some(1));
    assert_eq!(lower_string("\u{212A}"), "k");
}

#[test]
fn infix_indicator_inside_a_word() {
    assert_eq!(get_disc_number("abc_cd12x"), Some(12));
    assert_eq!(get_base_game_name("abc_cd12x"), "abcx");
}
