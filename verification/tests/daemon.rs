use allium::daemon::{
    battery_alarm, foreground_repaints, leaves_charge_screen, wakes_from_suspend, AlliumD, AlliumDState,
    CrashLoopGuard, DaemonAction,
};
use allium::input::{Key, KeyEvent, KEY_COUNT};
use allium::power::{ChargingBootAction, PowerButtonAction, PowerSettings, VolumeOnStartup};

fn daemon() -> AlliumD {
    AlliumD::new(AlliumDState::new(0), PowerSettings::new(), vec![false; KEY_COUNT])
}

#[test]
fn a_fresh_state_is_half_bright_at_volume_twenty() {
    let s = AlliumDState::new(7);
    assert_eq!((s.time, s.volume, s.brightness), (7, 20, 50));
    assert_eq!(AlliumDState::load(None, 9).time, 9);
    assert!(s.clock_is_behind(3));
    assert!(!s.clock_is_behind(7));
}

#[test]
fn holding_volume_down_at_startup_mutes() {
    let mut keys = vec![false; KEY_COUNT];
    keys[Key::VolDown.index()] = true;
    let d = AlliumD::new(AlliumDState::new(0), PowerSettings::new(), keys);
    assert_eq!(d.state.volume, 0);

    let mut muted = PowerSettings::new();
    muted.volume_on_startup = VolumeOnStartup::Muted;
    let d = AlliumD::new(AlliumDState::new(0), muted, vec![false; KEY_COUNT]);
    assert_eq!(d.state.volume, 0);
    assert_eq!(daemon().state.volume, 20);
}

#[test]
fn holding_menu_or_b_at_startup_skips_the_resume() {
    let mut keys = vec![false; KEY_COUNT];
    keys[Key::B.index()] = true;
    let d = AlliumD::new(AlliumDState::new(0), PowerSettings::new(), keys);
    assert!(d.bypass_resume());
    assert!(!daemon().bypass_resume());
}

#[test]
fn volume_keys_step_and_clamp() {
    let mut d = daemon();
    assert_eq!(
        d.handle_key_event(KeyEvent::Pressed(Key::VolUp), false),
        DaemonAction::SetVolume(20)
    );
    assert_eq!(
        d.handle_key_event(KeyEvent::Autorepeat(Key::VolDown), false),
        DaemonAction::SetVolume(19)
    );
    assert_eq!(d.state.volume, 19);
}

#[test]
fn a_volume_key_works_at_any_stored_brightness() {
    let mut d = daemon();
    d.state.brightness = 127;
    d.state.volume = 5;
    assert_eq!(
        d.handle_key_event(KeyEvent::Pressed(Key::VolUp), false),
        DaemonAction::SetVolume(6)
    );
    assert_eq!(d.state.volume, 6);
    assert_eq!(d.state.brightness, 127);
}

#[test]
fn menu_hotkeys_change_brightness_and_rotate_profiles() {
    let mut d = daemon();
    assert_eq!(
        d.handle_key_event(KeyEvent::Pressed(Key::Menu), false),
        DaemonAction::Nothing
    );
    assert_eq!(
        d.handle_key_event(KeyEvent::Pressed(Key::Up), false),
        DaemonAction::SetBrightness(55)
    );
    assert_eq!(
        d.handle_key_event(KeyEvent::Pressed(Key::VolDown), false),
        DaemonAction::SetBrightness(50)
    );
    assert_eq!(
        d.handle_key_event(KeyEvent::Pressed(Key::Select), false),
        DaemonAction::RotateDisplayProfile
    );
    assert_eq!(
        d.handle_key_event(KeyEvent::Released(Key::Power), false),
        DaemonAction::Screenshot
    );
    assert_eq!(
        d.handle_key_event(KeyEvent::Pressed(Key::Left), false),
        DaemonAction::SetVolume(19)
    );
}

#[test]
fn brightness_is_clamped_to_the_scale() {
    let mut d = daemon();
    d.state.brightness = 98;
    assert_eq!(d.add_brightness(5), 100);
    d.state.brightness = 2;
    assert_eq!(d.add_brightness(-5), 0);
}

#[test]
fn the_power_button_does_what_the_settings_say() {
    let mut d = daemon();
    assert_eq!(
        d.handle_key_event(KeyEvent::Released(Key::Power), false),
        DaemonAction::Suspend
    );
    d.power_settings.power_button_action = PowerButtonAction::Nothing;
    assert_eq!(
        d.handle_key_event(KeyEvent::Released(Key::Power), false),
        DaemonAction::Nothing
    );
    assert_eq!(
        d.handle_key_event(KeyEvent::Autorepeat(Key::Power), false),
        DaemonAction::Quit
    );
    d.power_settings.lid_close_action = PowerButtonAction::Shutdown;
    assert_eq!(
        d.handle_key_event(KeyEvent::Pressed(Key::LidClose), false),
        DaemonAction::Quit
    );
}

#[test]
fn menu_alone_opens_the_game_menu() {
    let mut d = daemon();
    d.handle_key_event(KeyEvent::Pressed(Key::Menu), true);
    assert_eq!(
        d.handle_key_event(KeyEvent::Released(Key::Menu), true),
        DaemonAction::OpenMenu
    );
    assert!(!d.is_menu_pressed_alone);
    d.menu_opened();
    d.handle_key_event(KeyEvent::Pressed(Key::Menu), true);
    assert_eq!(
        d.handle_key_event(KeyEvent::Released(Key::Menu), true),
        DaemonAction::Nothing,
        "already open"
    );
    d.menu_closed();
    assert!(!d.menu_open);
}

#[test]
fn menu_with_another_key_is_not_alone() {
    let mut d = daemon();
    d.handle_key_event(KeyEvent::Pressed(Key::Menu), true);
    d.handle_key_event(KeyEvent::Pressed(Key::A), true);
    d.handle_key_event(KeyEvent::Released(Key::A), true);
    assert_eq!(
        d.handle_key_event(KeyEvent::Released(Key::Menu), true),
        DaemonAction::Nothing
    );
    // Out of a game there is no menu to open
    d.handle_key_event(KeyEvent::Pressed(Key::Menu), false);
    assert_eq!(
        d.handle_key_event(KeyEvent::Released(Key::Menu), false),
        DaemonAction::Nothing
    );
}

#[test]
fn a_board_that_cannot_power_off_charges_silently() {
    let mut settings = PowerSettings::new();
    settings.charging_boot_action = ChargingBootAction::PowerOff;
    let d = AlliumD::new(AlliumDState::new(0), settings, vec![false; KEY_COUNT]);
    assert_eq!(d.charging_boot_action(false), ChargingBootAction::ChargeSilently);
    assert_eq!(d.charging_boot_action(true), ChargingBootAction::PowerOff);
}

#[test]
fn sleep_and_shutdown_timers_follow_the_settings() {
    let mut d = daemon();
    assert_eq!(d.auto_sleep_seconds(), Some(300));
    d.power_settings.auto_sleep_duration_minutes = 0;
    assert_eq!(d.auto_sleep_seconds(), None);
    assert_eq!(d.suspend_shutdown_seconds(), Some(300));
    d.power_settings.suspend_shutdown_minutes = -3;
    assert_eq!(d.suspend_shutdown_seconds(), None);
    assert!(d.idle_timeout_quits(true, false));
    assert!(!d.idle_timeout_quits(false, true));
    d.power_settings.auto_sleep_when_charging = false;
    assert!(!d.idle_timeout_quits(true, false));
}

#[test]
fn waking_releases_power_and_the_lid() {
    let mut d = daemon();
    d.handle_key_event(KeyEvent::Pressed(Key::LidClose), false);
    assert!(d.is_pressed(Key::LidClose));
    d.woke_from_suspend();
    assert!(!d.is_pressed(Key::LidClose));
    assert!(wakes_from_suspend(KeyEvent::Released(Key::LidClose)));
    assert!(!wakes_from_suspend(KeyEvent::Pressed(Key::Power)));
    assert!(leaves_charge_screen(KeyEvent::Released(Key::Power)));
}

#[test]
fn the_battery_alarm_rings_only_off_the_charger() {
    assert_eq!(battery_alarm(15, false).warn, true);
    assert_eq!(battery_alarm(16, false).warn, false);
    assert_eq!(battery_alarm(5, false).shut_down, true);
    assert_eq!(battery_alarm(1, true).shut_down, false);
}

#[test]
fn three_quick_exits_pause_the_restart() {
    let mut g = CrashLoopGuard::new();
    assert!(!g.record_exit(1_000));
    assert!(!g.record_exit(2_000));
    assert!(g.record_exit(3_000));
    // The first two have aged out of the window by now
    assert!(!g.record_exit(12_500));
}

#[test]
fn a_day_long_session_is_the_most_recorded() {
    assert!(allium::daemon::records_play_time(86_400));
    assert!(!allium::daemon::records_play_time(86_401));
}

#[test]
fn only_the_launcher_leaves_the_screen_to_the_daemon() {
    let launcher = "/mnt/SDCARD/.allium/bin/allium-launcher";
    assert!(!foreground_repaints(Some(launcher), Some(launcher), true));
    assert!(foreground_repaints(Some("/mnt/SDCARD/RetroArch/retroarch"), Some(launcher), false));
    assert!(foreground_repaints(None, Some(launcher), true));
    assert!(!foreground_repaints(Some(launcher), None, false));
}

#[test]
fn rotating_the_display_profile_takes_its_brightness() {
    let mut d = daemon();
    d.state.volume = 7;
    let mut s = allium::display_settings::DisplaySettings::new();
    s.profiles[1].brightness = 15;
    s.profiles[2].brightness = 90;
    assert_eq!(d.rotate_display_profile(&mut s), 1);
    assert_eq!((s.active, d.state.brightness, d.state.volume), (1, 15, 7));
    assert_eq!(d.rotate_display_profile(&mut s), 2);
    assert_eq!(d.state.brightness, 90);
    assert_eq!(d.rotate_display_profile(&mut s), 0);
    assert_eq!(d.state.brightness, 50);
}
