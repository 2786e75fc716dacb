use allium::display_menu::{
    Display, ROW_BRIGHTNESS, ROW_CONTRAST, ROW_COUNT, ROW_NAME, ROW_PROFILE, ROW_RESOLUTION,
};
use allium::display_settings::{DisplaySettings, MIN_CONTRAST};
use allium::menu::{
    described_list_layout, plain_list_layout, ChildState, Control, ListMetrics, Rect, Value,
};
use allium::override_menu::{OverrideEdit, OverrideSettings};
use allium::power::{ChargingBootAction, PowerButtonAction, PowerSettings};
use allium::power_menu::{
    charging_boot_actions, description_key, Description, Power, ROW_CHARGING_BOOT,
    ROW_LID_CLOSE, ROW_POWER_BUTTON, ROW_SUSPEND_SHUTDOWN,
};
use allium::retroarch_config::{parse, FileAction, OverrideScope};
use allium::retroarch_options::{options, Overrides};

const SCREEN: Rect = Rect {
    x: 0,
    y: 60,
    w: 640,
    h: 420,
};
const METRICS: ListMetrics = ListMetrics {
    font_size: 24,
    padding_y: 8,
    margin_x: 12,
    margin_y: 8,
};

#[test]
fn the_description_strip_takes_its_row_from_the_list() {
    let l = described_list_layout(SCREEN, 436, METRICS);
    assert_eq!(l.row_height, 32);
    assert_eq!(l.list, Rect { x: 12, y: 60, w: 616, h: 336 });
    assert_eq!(l.description, Some(Rect { x: 12, y: 396, w: 616, h: 32 }));
    let plain = plain_list_layout(SCREEN, 436, METRICS);
    assert_eq!(plain.list.h, 376);
    assert_eq!(plain.description, None);
    // Hints above the list leave it no room rather than wrapping round
    assert_eq!(described_list_layout(SCREEN, 70, METRICS).list.h, 0);
}

#[test]
fn power_off_is_offered_only_where_it_works() {
    assert_eq!(charging_boot_actions(false).len(), 2);
    assert_eq!(
        charging_boot_actions(true)[2],
        ChargingBootAction::PowerOff
    );
}

#[test]
fn the_power_screen_has_a_lid_row_only_with_a_lid() {
    let p = Power::new(SCREEN, 436, METRICS, PowerSettings::new(), true, false, None);
    assert_eq!(p.rows.len(), 6);
    let p = Power::new(
        SCREEN,
        436,
        METRICS,
        PowerSettings::new(),
        false,
        true,
        Some(ChildState { selected: 3 }),
    );
    assert_eq!(p.rows.len(), 7);
    assert_eq!(p.rows[ROW_LID_CLOSE].label, "settings-power-lid-close-action");
    assert_eq!(p.selected, 3);
    match &p.rows[ROW_CHARGING_BOOT].control {
        Control::Select { selected, options } => {
            assert_eq!(*selected, 0);
            assert_eq!(options.len(), 2);
        }
        other => panic!("unexpected {other:?}"),
    }
}

#[test]
fn an_unoffered_charging_action_shows_the_first_choice() {
    let mut s = PowerSettings::new();
    s.charging_boot_action = ChargingBootAction::PowerOff;
    let p = Power::new(SCREEN, 436, METRICS, s, false, false, None);
    assert!(matches!(
        p.rows[ROW_CHARGING_BOOT].control,
        Control::Select { selected: 0, .. }
    ));
}

#[test]
fn edits_land_on_the_right_setting() {
    let mut p = Power::new(SCREEN, 436, METRICS, PowerSettings::new(), false, true, None);
    p.apply_value(ROW_CHARGING_BOOT, &Value::Int(1));
    assert_eq!(
        p.power_settings.charging_boot_action,
        ChargingBootAction::ChargeSilently
    );
    p.apply_value(ROW_CHARGING_BOOT, &Value::Int(2));
    assert_eq!(
        p.power_settings.charging_boot_action,
        ChargingBootAction::ChargeScreen,
        "not offered here"
    );
    p.apply_value(ROW_LID_CLOSE, &Value::Int(1));
    assert_eq!(p.power_settings.lid_close_action, PowerButtonAction::Shutdown);
    p.apply_value(ROW_SUSPEND_SHUTDOWN, &Value::Bool(true));
    assert_eq!(p.power_settings.suspend_shutdown_minutes, 5);
}

#[test]
fn suspend_descriptions_name_the_shutdown_delay() {
    let mut p = Power::new(SCREEN, 436, METRICS, PowerSettings::new(), true, true, None);
    p.selected = ROW_POWER_BUTTON;
    match p.description() {
        Description::Minutes(key, minutes) => {
            assert_eq!(key, "settings-power-desc-action-suspend");
            assert_eq!(minutes, 5);
        }
        other => panic!("unexpected {other:?}"),
    }
    p.power_settings.suspend_shutdown_minutes = 0;
    match p.description() {
        Description::Text(key) => assert_eq!(key, "settings-power-desc-action-suspend-never"),
        other => panic!("unexpected {other:?}"),
    }
    p.power_settings.power_button_action = PowerButtonAction::Nothing;
    assert_eq!(
        description_key(ROW_POWER_BUTTON, &p.power_settings),
        Some("settings-power-desc-action-nothing")
    );
    assert_eq!(description_key(99, &p.power_settings), None);
}

fn overrides(rom: &str) -> Overrides {
    Overrides::new("corename = \"mGBA\"\n", rom.into(), "/mnt/SDCARD".into()).unwrap()
}

#[test]
fn the_scope_row_offers_only_scopes_with_a_file() {
    let v = OverrideSettings::new(SCREEN, 436, METRICS, options(), overrides("x.gba"));
    assert_eq!(v.scopes, vec![OverrideScope::Game, OverrideScope::Core]);
    assert_eq!(v.scope, OverrideScope::Game);
    assert_eq!(v.rows.len(), options().len() + 1);
    assert_eq!(v.description_key(), "override-desc-scope");
}

#[test]
fn picking_a_scope_follows_the_offered_list() {
    let mut v = OverrideSettings::new(SCREEN, 436, METRICS, options(), overrides("x.gba"));
    assert_eq!(v.value_changed(0, 1), OverrideEdit::ScopeChanged);
    assert_eq!(v.scope, OverrideScope::Core);
    v.value_changed(0, 9);
    assert_eq!(v.scope, OverrideScope::Core, "out of range keeps the scope");
    assert_eq!(
        v.value_changed(1, -4),
        OverrideEdit::Commit { row: 1, choice: 0 }
    );
    assert_eq!(v.value_changed(500, 1), OverrideEdit::Nothing);
}

#[test]
fn committing_writes_at_the_current_scope() {
    let v = OverrideSettings::new(SCREEN, 436, METRICS, options(), overrides("/R/GBA/x.gba"));
    assert!(v.commit(0, 1, "", false).is_none());
    assert!(v.commit(1, 1, "", false).is_some());
    assert_eq!(v.setting(1), Some(0));
    assert_eq!(v.setting(0), None);
}

#[test]
fn committing_hands_back_what_the_choice_does_to_the_file() {
    let v = OverrideSettings::new(SCREEN, 436, METRICS, options(), overrides("/R/GBA/x.gba"));
    match v.commit(1, 1, "", false) {
        Some(FileAction::Write(text)) => {
            let m = parse(&text);
            assert_eq!(m.get("video_dingux_ipu_keep_aspect"), Some(&"true".to_string()));
            assert_eq!(options()[0].current(&m), 1);
        }
        other => panic!("expected a write, got {other:?}"),
    }
    assert!(matches!(v.commit(1, 0, "", false), Some(FileAction::Nothing)));
    assert!(matches!(
        v.commit(1, 0, "video_dingux_ipu_keep_aspect = \"true\"\n", true),
        Some(FileAction::Remove)
    ));
    assert!(v.commit(99, 1, "", false).is_none());
}

#[test]
fn the_display_screen_shows_the_active_profile() {
    let mut s = DisplaySettings::new();
    s.active = 1;
    let d = Display::new(SCREEN, 436, METRICS, s, 752, 560, None);
    match &d.rows[ROW_PROFILE].control {
        Control::SelectText { selected, choices } => {
            assert_eq!(*selected, 1);
            assert_eq!(choices, &vec!["Day", "Night", "Custom"]);
        }
        other => panic!("unexpected {other:?}"),
    }
    assert!(matches!(&d.rows[ROW_NAME].control, Control::Text(t) if t == "Night"));
    assert!(matches!(&d.rows[ROW_RESOLUTION].control, Control::Label(t) if t == "752x560"));
}

#[test]
fn display_edits_apply_on_top_of_what_is_stored() {
    let mut d = Display::new(SCREEN, 436, METRICS, DisplaySettings::new(), 640, 480, None);
    let mut stored = DisplaySettings::new();
    stored.active = 2;
    let written = d
        .apply_row(Some(stored), ROW_CONTRAST, &Value::Int(3))
        .unwrap();
    assert_eq!(written.active, 2);
    assert_eq!(written.profiles[2].contrast, MIN_CONTRAST);
    assert_eq!(d.settings.active, 2);

    let written = d
        .apply_row(None, ROW_NAME, &Value::String("A much too long name".into()))
        .unwrap();
    assert_eq!(written.profiles[2].name, "A much too l");

    let written = d.apply_row(None, ROW_PROFILE, &Value::Int(17)).unwrap();
    assert_eq!(written.active, 2);
    assert!(d.apply_row(None, ROW_RESOLUTION, &Value::Int(1)).is_none());
}

#[test]
fn each_profile_has_its_own_brightness_row() {
    let mut s = DisplaySettings::new();
    s.profiles[1].brightness = 20;
    s.active = 1;
    let mut d = Display::new(SCREEN, 436, METRICS, s, 640, 480, None);
    assert_eq!(d.rows.len(), ROW_COUNT);
    assert_eq!(d.rows[ROW_BRIGHTNESS].label, "settings-display-brightness");
    assert!(matches!(
        d.rows[ROW_BRIGHTNESS].control,
        Control::Percentage { value: 20, min: 0, max: 100 }
    ));
    let written = d.apply_row(None, ROW_BRIGHTNESS, &Value::Int(130)).unwrap();
    assert_eq!(written.profiles[1].brightness, 100);
    assert_eq!(written.profiles[0].brightness, 50);
    let written = d.apply_row(None, ROW_BRIGHTNESS, &Value::Int(-4)).unwrap();
    assert_eq!(written.profiles[1].brightness, 0);
}

#[test]
fn the_override_screen_opens_on_what_the_first_scope_sets() {
    let cfg = parse("video_dingux_ipu_keep_aspect = \"false\"\nfps_show = \"true\"\n");
    let remap = parse("");
    let v = OverrideSettings::open(
        SCREEN,
        436,
        METRICS,
        options(),
        overrides("/R/GBA/x.gba"),
        &cfg,
        &remap,
    );
    assert_eq!(v.scope, OverrideScope::Game);
    assert!(matches!(v.rows[1].control, Control::Select { selected: 2, .. }));
    assert!(matches!(v.rows[2].control, Control::Select { selected: 0, .. }));
    assert!(matches!(v.rows[5].control, Control::Select { selected: 1, .. }));
}
