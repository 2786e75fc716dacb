use allium::retroarch_config::{
    apply, core_name, override_path, parse, remap_path, render, scope_file_name, FileAction,
    OverrideScope,
};

#[test]
fn parses_the_retroarch_format() {
    let text = r#"
# a comment
aspect_ratio_index = "23"
video_dingux_ipu_keep_aspect = "true"

unquoted = 4
  indented = "yes"
"#;
    let map = parse(text);
    assert_eq!(
        map.get("aspect_ratio_index").map(String::as_str),
        Some("23")
    );
    assert_eq!(
        map.get("video_dingux_ipu_keep_aspect").map(String::as_str),
        Some("true")
    );
    assert_eq!(map.get("unquoted").map(String::as_str), Some("4"));
    assert_eq!(map.get("indented").map(String::as_str), Some("yes"));
    // The comment and the blank lines contribute nothing
    assert_eq!(map.len(), 4);
}

#[test]
fn skips_junk_without_discarding_the_file() {
    let map = parse("good = \"1\"\nnonsense\n= \"no key\"\nalso_good = \"2\"\n");
    assert_eq!(map.len(), 2);
    assert!(map.contains_key("good"));
    assert!(map.contains_key("also_good"));
}

#[test]
fn retroarch_config_round_trips() {
    let text = "b = \"2\"\na = \"1\"\n";
    // Sorted on the way out, so the input order is not preserved -- only the content
    assert_eq!(render(&parse(text)), "a = \"1\"\nb = \"2\"\n");
}

#[test]
fn info_files_use_the_same_format() {
    let info = r#"# Software Information
display_name = "Nintendo - Game Boy Advance (mGBA)"
corename = "mGBA"
"#;
    assert_eq!(
        parse(info).get("corename").map(String::as_str),
        Some("mGBA")
    );
    assert_eq!(core_name(info), Some("mGBA".to_string()));
    assert_eq!(core_name("corename = \"\"\n"), None);
    assert_eq!(core_name("display_name = \"x\"\n"), None);
}

#[test]
fn each_scope_names_a_different_file() {
    let rom = "/mnt/SDCARD/Roms/GBA/Golden Sun.gba";

    assert_eq!(
        scope_file_name(OverrideScope::Game, "mGBA", rom).unwrap(),
        "Golden Sun"
    );
    assert_eq!(
        scope_file_name(OverrideScope::Console, "mGBA", rom).unwrap(),
        "GBA"
    );
    assert_eq!(
        scope_file_name(OverrideScope::Core, "mGBA", rom).unwrap(),
        "mGBA"
    );
}

#[test]
fn scope_file_name_handles_awkward_roms() {
    assert_eq!(
        scope_file_name(OverrideScope::Game, "mGBA", "/Roms/GBA/Game (USA).gba.zip").unwrap(),
        "Game (USA).gba"
    );
    assert_eq!(
        scope_file_name(OverrideScope::Console, "mGBA", "Game.gba"),
        None
    );
}

#[test]
fn override_and_remap_files_live_apart() {
    let rom = "/mnt/SDCARD/Roms/GBA/Golden Sun.gba";
    let cfg = override_path("/mnt/SDCARD", OverrideScope::Game, "mGBA", rom).unwrap();
    let rmp = remap_path("/mnt/SDCARD", OverrideScope::Game, "mGBA", rom).unwrap();
    assert!(cfg.ends_with("mGBA/Golden Sun.cfg"), "{cfg}");
    assert!(rmp.ends_with("mGBA/Golden Sun.rmp"), "{rmp}");
    assert_ne!(cfg, rmp);
}

#[test]
fn applying_leaves_keys_it_does_not_manage_alone() {
    let existing = "audio_driver = \"sdl\"\nfastforward_frameskip = \"true\"\n";
    match apply(existing, true, &vec![("fps_show", Some("true".to_owned()))]) {
        FileAction::Write(text) => {
            let map = parse(&text);
            assert_eq!(map.get("audio_driver").map(String::as_str), Some("sdl"));
            assert_eq!(
                map.get("fastforward_frameskip").map(String::as_str),
                Some("true")
            );
            assert_eq!(map.get("fps_show").map(String::as_str), Some("true"));
        }
        other => panic!("expected a write, got {other:?}"),
    }
}

#[test]
fn applying_none_removes_the_key() {
    let existing = "audio_driver = \"sdl\"\nfps_show = \"true\"\n";
    match apply(existing, true, &vec![("fps_show", None)]) {
        FileAction::Write(text) => {
            let map = parse(&text);
            assert!(!map.contains_key("fps_show"));
            assert_eq!(map.get("audio_driver").map(String::as_str), Some("sdl"));
        }
        other => panic!("expected a write, got {other:?}"),
    }
}

#[test]
fn a_file_with_nothing_left_is_removed() {
    assert!(matches!(
        apply("fps_show = \"true\"\n", true, &vec![("fps_show", None)]),
        FileAction::Remove
    ));
    assert!(matches!(
        apply("", false, &vec![("fps_show", None)]),
        FileAction::Nothing
    ));
}

#[test]
fn an_unchanged_file_is_not_rewritten() {
    assert!(matches!(
        apply("fps_show = \"true\"\n", true, &vec![("fps_show", Some("true".to_owned()))]),
        FileAction::CreateDir
    ));
}
