use allium::input::{
    decode_key_event, is_stale, lid_reading_is_open, parse_input_event, EvdevKeys, Key, KeyEvent,
    LidSwitchPoller, RawEvent,
    EV_KEY,
};

#[test]
fn codes_map_to_the_device_buttons() {
    assert_eq!(Key::from_code(103), Key::Up);
    assert_eq!(Key::from_code(57), Key::A);
    assert_eq!(Key::from_code(1), Key::Menu);
    assert_eq!(Key::from_code(116), Key::Power);
    assert_eq!(Key::from_code(115), Key::VolUp);
    assert_eq!(Key::from_code(999), Key::Unknown);
}

#[test]
fn stale_autorepeats_are_dropped_but_presses_are_not() {
    assert_eq!(decode_key_event(1, 2, true), None);
    assert_eq!(
        decode_key_event(1, 2, false),
        Some(KeyEvent::Autorepeat(Key::Menu))
    );
    assert_eq!(decode_key_event(1, 1, true), Some(KeyEvent::Pressed(Key::Menu)));
    assert_eq!(decode_key_event(1, 0, true), Some(KeyEvent::Released(Key::Menu)));
}

#[test]
fn the_lid_reports_changes_only() {
    let mut lid = LidSwitchPoller::new(None);
    assert!(lid.is_lid_open, "an unreadable sensor reads as open");
    assert_eq!(lid.poll(Some(true)), None);
    assert_eq!(lid.poll(Some(false)), Some(KeyEvent::Pressed(Key::LidClose)));
    assert_eq!(lid.poll(None), None);
    assert_eq!(lid.poll(Some(true)), Some(KeyEvent::Released(Key::LidClose)));
    assert!(lid_reading_is_open(b'1'));
    assert!(!lid_reading_is_open(b'0'));
}

#[test]
fn only_a_device_with_a_lid_polls_it() {
    let mut keys = EvdevKeys::new(false, Some(false));
    assert!(keys.lid_switch_poller.is_none());
    assert_eq!(keys.poll_lid(Some(false)), None);

    let mut keys = EvdevKeys::new(true, None);
    assert_eq!(keys.poll_lid(Some(true)), None);
    assert_eq!(keys.poll_lid(Some(false)), Some(KeyEvent::Pressed(Key::LidClose)));
    assert_eq!(keys.poll_lid(None), None);
    assert_eq!(keys.poll_lid(Some(true)), Some(KeyEvent::Released(Key::LidClose)));
}

#[test]
fn only_key_events_become_key_events() {
    let raw = |event_type, value, stale| RawEvent { event_type, code: 57, value, stale };
    assert_eq!(EvdevKeys::key_event(raw(EV_KEY, 1, false)), Some(KeyEvent::Pressed(Key::A)));
    assert_eq!(EvdevKeys::key_event(raw(EV_KEY, 0, true)), Some(KeyEvent::Released(Key::A)));
    assert_eq!(EvdevKeys::key_event(raw(EV_KEY, 2, true)), None);
    assert_eq!(EvdevKeys::key_event(raw(EV_KEY, 2, false)), Some(KeyEvent::Autorepeat(Key::A)));
    assert_eq!(EvdevKeys::key_event(raw(0, 1, false)), None);
}

#[test]
fn an_input_event_reads_little_endian() {
    let mut bytes = vec![0u8; 16];
    bytes[0] = 0x10;
    bytes[1] = 0x01;
    bytes[4] = 7;
    bytes[8] = 1;
    bytes[10] = 57;
    bytes[12] = 2;
    let e = parse_input_event(&bytes, 4).unwrap();
    assert_eq!((e.secs, e.micros, e.event_type, e.code, e.value), (0x110, 7, EV_KEY, 57, 2));
    bytes[12..16].copy_from_slice(&[0xff, 0xff, 0xff, 0xff]);
    assert_eq!(parse_input_event(&bytes, 4).unwrap().value, -1);
    assert!(parse_input_event(&bytes, 8).is_none());
    assert_eq!(parse_input_event(&vec![0u8; 24], 8).unwrap().code, 0);
}

#[test]
fn an_event_older_than_a_frame_is_stale() {
    assert!(!is_stale(1_000_000, 1_100_000));
    assert!(is_stale(1_000_000, 1_100_001));
    assert!(!is_stale(2_000_000, 1_000_000));
}
