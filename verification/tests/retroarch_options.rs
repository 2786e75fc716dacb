use std::collections::BTreeMap;

use allium::config_map::ConfigMap;
use allium::retroarch_config::{parse, FileAction, OverrideScope};
use allium::retroarch_options::{controls, options, Overrides, Setting, Target};

fn all_settings() -> Vec<Setting> {
    let mut all = options();
    all.extend(controls());
    all
}

#[test]
fn every_setting_starts_with_default_and_owns_what_it_writes() {
    for setting in all_settings() {
        assert!(
            setting.choices[0].sets.is_empty(),
            "{} must offer Default first",
            setting.label
        );

        for choice in &setting.choices {
            for (key, _) in &choice.sets {
                assert!(
                    setting.keys.contains(key),
                    "{} writes {key} but does not own it",
                    setting.label
                );
            }
        }
    }
}

#[test]
fn unset_keys_read_as_default() {
    let empty = parse("");
    for setting in all_settings() {
        assert_eq!(setting.current(&empty), 0, "{}", setting.label);
    }
}

#[test]
fn a_written_choice_reads_back_as_itself() {
    for setting in all_settings() {
        for index in 1..setting.choices.len() {
            let mut map = ConfigMap::new();
            for (key, value) in setting.changes(index) {
                if let Some(value) = value {
                    map.insert(key.to_owned(), value);
                }
            }
            assert_eq!(
                setting.current(&map),
                index,
                "{} choice {index}",
                setting.label
            );
        }
    }
}

#[test]
fn default_clears_every_key_the_setting_owns() {
    for setting in all_settings() {
        let changes = setting.changes(0);
        assert_eq!(changes.len(), setting.keys.len(), "{}", setting.label);
        assert!(
            changes.iter().all(|(_, value)| value.is_none()),
            "{} Default must remove, not write",
            setting.label
        );
    }
}

#[test]
fn switching_choices_leaves_nothing_behind() {
    let aspect = &options()[0];
    let mut map = ConfigMap::new();
    for (key, value) in aspect.changes(1) {
        if let Some(value) = value {
            map.insert(key.to_owned(), value);
        }
    }
    for (key, value) in aspect.changes(0) {
        assert!(value.is_none());
        map.remove(key);
    }
    assert!(map.is_empty());
}

#[test]
fn hotkeys_and_remaps_go_to_different_files() {
    assert!(controls().iter().any(|s| s.target == Target::Cfg));
    assert!(controls().iter().any(|s| s.target == Target::Remap));
    assert!(options().iter().all(|s| s.target == Target::Cfg));
}

fn assert_buttons_agree(target: Target) {
    let mut seen: BTreeMap<&str, &str> = BTreeMap::new();

    for setting in controls().iter().filter(|s| s.target == target) {
        for choice in &setting.choices {
            if !choice.label.starts_with("override-button-") {
                continue;
            }
            let (_, value) = choice.sets[0];
            match seen.get(choice.label) {
                Some(first) => assert_eq!(
                    *first, value,
                    "{} disagrees on {}",
                    setting.label, choice.label
                ),
                None => {
                    seen.insert(choice.label, value);
                }
            }
        }
    }

    assert!(seen.len() >= 10, "only found {} buttons", seen.len());
}

#[test]
fn hotkey_rows_agree_on_their_button_numbers() {
    assert_buttons_agree(Target::Cfg);
}

#[test]
fn remap_rows_agree_on_their_button_numbers() {
    assert_buttons_agree(Target::Remap);
}

const INFO: &str = "corename = \"mGBA\"\n";

#[test]
fn overrides_need_a_core_name() {
    assert!(Overrides::new("", "/r/GBA/x.gba".into(), "/mnt/SDCARD".into()).is_none());
    let o = Overrides::new(INFO, "/r/GBA/x.gba".into(), "/mnt/SDCARD".into()).unwrap();
    assert_eq!(o.core_name(), "mGBA");
    assert!(o.supports(OverrideScope::Console));
    let top = Overrides::new(INFO, "x.gba".into(), "/mnt/SDCARD".into()).unwrap();
    assert!(!top.supports(OverrideScope::Console));
    assert!(top.supports(OverrideScope::Game));
}

#[test]
fn reading_a_scope_parses_only_its_own_file() {
    let o = Overrides::new(INFO, "/r/GBA/x.gba".into(), "/mnt/SDCARD".into()).unwrap();
    let m = o.read(OverrideScope::Game, Target::Cfg, Some("fps_show = \"true\"\n"));
    assert_eq!(m.get("fps_show").map(String::as_str), Some("true"));
    assert!(o.read(OverrideScope::Game, Target::Cfg, None).is_empty());
    let top = Overrides::new(INFO, "x.gba".into(), "/mnt/SDCARD".into()).unwrap();
    assert!(top
        .read(OverrideScope::Console, Target::Cfg, Some("fps_show = \"true\"\n"))
        .is_empty());
}

#[test]
fn applying_a_choice_writes_its_keys() {
    let o = Overrides::new(INFO, "/r/GBA/x.gba".into(), "/mnt/SDCARD".into()).unwrap();
    let aspect = &options()[0];
    match o.apply(OverrideScope::Game, aspect, 1, "", false) {
        Some(FileAction::Write(text)) => {
            let m = parse(&text);
            assert_eq!(aspect.current(&m), 1);
        }
        other => panic!("expected a write, got {other:?}"),
    }
    assert!(matches!(
        o.apply(OverrideScope::Game, aspect, 0, "", false),
        Some(FileAction::Nothing)
    ));
}

#[test]
fn the_controls_screen_writes_what_each_row_names() {
    let c = controls();
    assert_eq!(c.len(), 14);
    assert_eq!(c[0].label, "override-hotkey-gate");
    assert_eq!(c[0].changes(2), vec![("input_enable_hotkey_btn", Some("14".to_owned()))]);
    assert_eq!(c[1].keys, vec!["input_toggle_fast_forward_btn"]);
    assert_eq!(c[1].changes(1), vec![("input_toggle_fast_forward_btn", Some("nul".to_owned()))]);
    assert_eq!(c[6].target, Target::Remap);
    assert_eq!(c[6].changes(1), vec![("input_player1_btn_a", Some("-1".to_owned()))]);
    assert_eq!(c[13].changes(2), vec![("input_player1_btn_r2", Some("8".to_owned()))]);
    assert_eq!(c[13].changes(0), vec![("input_player1_btn_r2", None)]);
    assert_eq!(options()[3].changes(3), vec![("fastforward_ratio", Some("0.0".to_owned()))]);
}
