use allium::display_settings::{
    truncate_name, DisplayProfile, DisplaySettings, RawDisplaySettings, MAX_PROFILE_NAME_LEN,
    MIN_CONTRAST, PROFILE_COUNT,
};

#[test]
fn rotate_wraps() {
    let mut settings = DisplaySettings::new();
    assert_eq!(settings.rotate(), 1);
    assert_eq!(settings.rotate(), 2);
    assert_eq!(settings.rotate(), 0);
    assert_eq!(settings.active().name, "Day");
}

#[test]
fn sanitized_enforces_the_invariants() {
    let settings = DisplaySettings {
        active: 99,
        profiles: vec![DisplayProfile {
            name: "a very long profile name".to_owned(),
            contrast: 0,
            ..DisplayProfile::default()
        }],
    }
    .sanitized();

    assert_eq!(settings.profiles.len(), PROFILE_COUNT, "slots filled");
    assert!(settings.active < PROFILE_COUNT, "active clamped");
    assert_eq!(
        settings.profiles[0].name.chars().count(),
        MAX_PROFILE_NAME_LEN
    );
    assert_eq!(
        settings.profiles[0].contrast, MIN_CONTRAST,
        "contrast raised to what the panel will accept"
    );

    // More profiles than slots are dropped, not kept
    let many = DisplaySettings {
        active: 0,
        profiles: vec![DisplayProfile::default(); PROFILE_COUNT + 2],
    }
    .sanitized();
    assert_eq!(many.profiles.len(), PROFILE_COUNT);
}

#[test]
fn the_defaults_are_day_night_and_custom() {
    let settings = DisplaySettings::new();
    assert_eq!(settings.profiles.len(), PROFILE_COUNT);
    assert_eq!(settings.active, 0);
    assert_eq!(settings.names(), vec!["Day", "Night", "Custom"]);
    let day = &settings.profiles[0];
    assert_eq!((day.warmth, day.dimness), (0, 0));
    let night = &settings.profiles[1];
    assert_eq!((night.warmth, night.dimness), (100, 100));
    assert!(settings.profiles.iter().all(|p| p.brightness == 50));
}

#[test]
fn an_empty_name_shows_the_position() {
    let mut settings = DisplaySettings::new();
    settings.profiles[1].name = String::new();
    assert_eq!(settings.name_of(1), "2");
    assert_eq!(settings.name_of(41), "42");
}

#[test]
fn three_rotations_come_back() {
    let mut settings = DisplaySettings::new();
    settings.active = 1;
    for _ in 0..PROFILE_COUNT {
        settings.rotate();
    }
    assert_eq!(settings.active, 1);
}

#[test]
fn a_sane_document_passes_through_sanitized_unchanged() {
    let mut settings = DisplaySettings::new();
    settings.active = 2;
    settings.active_mut().name = "Movies".to_owned();
    settings.active_mut().saturation = 70;
    let again = settings.clone().sanitized();
    assert_eq!(again.active, 2);
    assert_eq!(again.active().name, "Movies");
    assert_eq!(again.active().saturation, 70);
}

#[test]
fn names_are_cut_by_character() {
    assert_eq!(truncate_name("ÉÉÉÉÉÉÉÉÉÉÉÉÉÉ"), "ÉÉÉÉÉÉÉÉÉÉÉÉ");
    assert_eq!(truncate_name("short"), "short");
}

fn raw() -> RawDisplaySettings {
    RawDisplaySettings {
        active: None,
        profiles: None,
        luminance: None,
        hue: None,
        saturation: None,
        contrast: None,
        r: None,
        g: None,
        b: None,
    }
}

#[test]
fn a_flat_document_becomes_the_first_profile() {
    let mut flat = raw();
    flat.luminance = Some(40);
    flat.g = Some(30);
    flat.b = Some(20);
    flat.contrast = Some(3);
    let parsed = DisplaySettings::from_raw(flat);
    assert_eq!(parsed.active, 0);
    assert_eq!(parsed.profiles.len(), PROFILE_COUNT);
    assert_eq!(parsed.profiles[0].luminance, 40);
    assert_eq!((parsed.profiles[0].g, parsed.profiles[0].b), (30, 20));
    assert_eq!(parsed.profiles[0].hue, 50);
    assert_eq!(parsed.profiles[0].contrast, MIN_CONTRAST);
    assert_eq!(parsed.names(), vec!["Day", "Night", "Custom"]);
}

#[test]
fn a_profile_list_is_kept_and_sanitized() {
    let mut doc = raw();
    doc.active = Some(7);
    doc.profiles = Some(vec![DisplayProfile::neutral("Only")]);
    doc.luminance = Some(1);
    let parsed = DisplaySettings::from_raw(doc);
    assert_eq!(parsed.active, PROFILE_COUNT - 1);
    assert_eq!(parsed.names(), vec!["Only", "Night", "Custom"]);
    assert_eq!(parsed.profiles[0].luminance, 50);
}

#[test]
fn an_empty_profile_list_reads_as_flat() {
    let mut doc = raw();
    doc.profiles = Some(vec![]);
    doc.active = Some(2);
    let parsed = DisplaySettings::from_raw(doc);
    assert_eq!(parsed.active, 0);
    assert_eq!(parsed.names(), vec!["Day", "Night", "Custom"]);
}
