use allium::performance::{apply, pick_governor, restore, PerformanceMode};

/// The list a stock kernel with the usual governors would report.
const TYPICAL: &str = "conservative ondemand userspace powersave performance schedutil\n";

#[test]
fn each_preset_picks_its_own_governor() {
    assert_eq!(pick_governor(PerformanceMode::Battery, TYPICAL), Some("powersave"));
    assert_eq!(pick_governor(PerformanceMode::Balanced, TYPICAL), Some("ondemand"));
    assert_eq!(
        pick_governor(PerformanceMode::Performance, TYPICAL),
        Some("performance")
    );
}

#[test]
fn system_never_writes_anything() {
    assert_eq!(pick_governor(PerformanceMode::System, TYPICAL), None);
}

#[test]
fn presets_degrade_to_what_the_driver_has() {
    let minimal = "powersave performance";
    assert_eq!(
        pick_governor(PerformanceMode::Balanced, minimal),
        Some("powersave")
    );
    assert_eq!(
        pick_governor(PerformanceMode::Performance, minimal),
        Some("performance")
    );

    let schedutil = "schedutil";
    assert_eq!(
        pick_governor(PerformanceMode::Battery, schedutil),
        Some("schedutil")
    );
    assert_eq!(
        pick_governor(PerformanceMode::Performance, schedutil),
        Some("schedutil")
    );
}

#[test]
fn nothing_recognisable_writes_nothing() {
    for mode in [
        PerformanceMode::Battery,
        PerformanceMode::Balanced,
        PerformanceMode::Performance,
    ] {
        assert_eq!(pick_governor(mode, ""), None);
        assert_eq!(pick_governor(mode, "interactive vendor_magic"), None);
    }
}

#[test]
fn repr_order_matches_the_settings_select() {
    assert_eq!(PerformanceMode::from_repr(0), Some(PerformanceMode::System));
    assert_eq!(
        PerformanceMode::from_repr(1),
        Some(PerformanceMode::Battery)
    );
    assert_eq!(
        PerformanceMode::from_repr(2),
        Some(PerformanceMode::Balanced)
    );
    assert_eq!(
        PerformanceMode::from_repr(3),
        Some(PerformanceMode::Performance)
    );
    assert_eq!(PerformanceMode::from_repr(4), None);
}

#[test]
fn a_name_inside_another_word_is_not_listed() {
    assert_eq!(pick_governor(PerformanceMode::Performance, "xperformance ondemandx"), None);
    assert_eq!(pick_governor(PerformanceMode::Performance, "\tperformance\t"), Some("performance"));
}

#[test]
fn system_hands_back_the_original_governor_trimmed() {
    assert_eq!(
        apply(PerformanceMode::System, Some(TYPICAL), Some("ondemand\n")),
        Some("ondemand".to_string())
    );
    assert_eq!(apply(PerformanceMode::System, Some(TYPICAL), None), None);
    assert_eq!(restore(Some("  schedutil \n")), Some("schedutil".to_string()));
}

#[test]
fn apply_writes_nothing_without_a_governor_interface() {
    assert_eq!(apply(PerformanceMode::Performance, None, Some("ondemand")), None);
    assert_eq!(
        apply(PerformanceMode::Performance, Some(TYPICAL), Some("ondemand")),
        Some("performance".to_string())
    );
}

#[test]
fn the_default_preset_is_system() {
    assert_eq!(PerformanceMode::default(), PerformanceMode::System);
    assert_eq!(PerformanceMode::Balanced.repr(), 2);
}
