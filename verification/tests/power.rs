use allium::power::{ChargingBootAction, PowerButtonAction, PowerSettings, VolumeOnStartup};

#[test]
fn a_fresh_install_sleeps_when_the_lid_shuts() {
    assert!(matches!(
        PowerSettings::default().lid_close_action,
        PowerButtonAction::Suspend
    ));
}

#[test]
fn the_defaults_keep_the_old_five_minutes() {
    let s = PowerSettings::new();
    assert_eq!(s.suspend_shutdown_minutes, 5);
    assert_eq!(s.auto_sleep_duration_minutes, 5);
    assert!(s.auto_sleep_when_charging);
    assert_eq!(s.charging_boot_action, ChargingBootAction::ChargeScreen);
    assert_eq!(s.volume_on_startup, VolumeOnStartup::Restore);
    assert_eq!(PowerSettings::default_suspend_shutdown_minutes(), 5);
}

#[test]
fn loading_nothing_gives_the_defaults() {
    assert_eq!(PowerSettings::load(None), PowerSettings::new());
    let mut stored = PowerSettings::new();
    stored.auto_sleep_duration_minutes = 15;
    assert_eq!(PowerSettings::load(Some(stored)), stored);
}

#[test]
fn the_choices_keep_their_order() {
    assert_eq!(ChargingBootAction::from_repr(2), Some(ChargingBootAction::PowerOff));
    assert_eq!(ChargingBootAction::from_repr(3), None);
    assert_eq!(PowerButtonAction::from_repr(1), Some(PowerButtonAction::Shutdown));
    assert_eq!(PowerButtonAction::nothing().repr(), 2);
    assert_eq!(VolumeOnStartup::from_repr(1), Some(VolumeOnStartup::Muted));
    assert_eq!(VolumeOnStartup::from_repr(2), None);
    assert_eq!(PowerButtonAction::suspend(), PowerButtonAction::Suspend);
    assert_eq!(PowerButtonAction::shutdown(), PowerButtonAction::Shutdown);
}
