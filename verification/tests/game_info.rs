use allium::game_info::{guide_search, GameInfo};
use allium::performance::PerformanceMode;

fn game(start_time_ms: i64) -> GameInfo {
    GameInfo::new(
        "Game One".to_string(),
        "Roms/GBA/Game One.gba".to_string(),
        "mgba".to_string(),
        None,
        "/mnt/SDCARD/.allium/cores/retroarch/launch.sh".to_string(),
        vec!["mgba".to_string(), "Roms/GBA/Game One.gba".to_string()],
        true,
        false,
        vec![],
        start_time_ms,
    )
}

#[test]
fn a_new_game_starts_at_the_system_preset() {
    let g = game(1_000);
    assert_eq!(g.name, "Game One");
    assert_eq!(g.performance_mode, PerformanceMode::System);
    assert!(g.has_menu);
    assert!(!g.needs_swap());
}

#[test]
fn play_time_is_now_minus_the_start() {
    let g = game(1_000);
    assert_eq!(g.play_time_ms(61_000), 60_000);
    assert_eq!(g.play_time_ms(500), -500);
}

#[test]
fn storing_a_preset_keeps_the_rest_of_the_game() {
    let stored = GameInfo::store_performance_mode(Some(game(7)), PerformanceMode::Battery).unwrap();
    assert_eq!(stored.performance_mode, PerformanceMode::Battery);
    assert_eq!(stored.start_time_ms, 7);
    assert_eq!(stored.path, "Roms/GBA/Game One.gba");
    assert!(GameInfo::store_performance_mode(None, PerformanceMode::Battery).is_none());
}

#[test]
fn guides_are_looked_for_up_to_the_games_folder() {
    let steps = guide_search("/mnt/SDCARD/Roms/GBA/Game One.gba", "/mnt/SDCARD/Roms");
    assert_eq!(steps.len(), 2);
    assert_eq!(steps[0].guides_dir, "/mnt/SDCARD/Roms/GBA/Guides");
    assert_eq!(steps[0].dir, "/mnt/SDCARD/Roms/GBA/Guides/Game One");
    assert_eq!(steps[0].file, "/mnt/SDCARD/Roms/GBA/Guides/Game One.txt");
    assert_eq!(steps[1].guides_dir, "/mnt/SDCARD/Roms/Guides");
    assert_eq!(steps[1].dir, "/mnt/SDCARD/Roms/Guides/GBA/Game One");
    assert_eq!(steps[1].file, "/mnt/SDCARD/Roms/Guides/GBA/Game One.txt");
}

#[test]
fn a_text_guide_replaces_the_stripped_extension() {
    let steps = guide_search("/g/Game.v1.gba", "/g");
    assert_eq!(steps.len(), 1);
    assert_eq!(steps[0].dir, "/g/Guides/Game.v1");
    assert_eq!(steps[0].file, "/g/Guides/Game.txt");
}

#[test]
fn outside_the_games_folder_the_search_reaches_the_top() {
    let steps = guide_search("Roms/x.gba", "/nowhere");
    assert_eq!(steps.len(), 2);
    assert_eq!(steps[0].dir, "Roms/Guides/x");
    assert_eq!(steps[1].guides_dir, "Guides");
    assert_eq!(steps[1].dir, "Guides/Roms/x");
}
