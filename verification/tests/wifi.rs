use allium::wifi::{
    association_state, escape, ip_address, parse_wpa_supplicant_conf, passphrase_is_valid,
    ServiceScript, WiFiSettings,
};

#[test]
fn init_starts_what_is_enabled() {
    let mut s = WiFiSettings::new();
    assert!(s.init().is_empty());
    s.wifi = true;
    s.ntp = true;
    s.ssh = true;
    assert_eq!(
        s.init(),
        vec![
            ServiceScript::WifiOn,
            ServiceScript::TelnetOff,
            ServiceScript::SshOff,
            ServiceScript::NtpSync,
            ServiceScript::SshOn
        ]
    );
}

#[test]
fn switching_wifi_brings_remote_access_along() {
    let mut s = WiFiSettings::new();
    s.telnet = true;
    s.ftp = true;
    let on = s.set_wifi(true);
    assert!(s.wifi);
    assert_eq!(on.now, vec![ServiceScript::WifiOn]);
    assert_eq!(
        on.once_connected,
        vec![ServiceScript::TelnetOn, ServiceScript::FtpOn]
    );
    let off = s.set_wifi(false);
    assert_eq!(
        off.now,
        vec![ServiceScript::WifiOff, ServiceScript::TelnetOff, ServiceScript::FtpOff]
    );
    assert!(off.once_connected.is_empty());
}

#[test]
fn a_new_network_restarts_wifi_only_when_on() {
    let mut s = WiFiSettings::new();
    assert!(s.set_ssid("home".into()).now.is_empty());
    assert_eq!(s.ssid, "home");
    s.wifi = true;
    assert_eq!(s.set_password("hunter22".into()).now, vec![ServiceScript::WifiOn]);
    assert_eq!(s.password, "hunter22");
}

#[test]
fn toggles_start_and_stop_their_service() {
    let mut s = WiFiSettings::new();
    assert_eq!(s.toggle_ssh(true), ServiceScript::SshOn);
    assert_eq!(s.toggle_telnet(false), ServiceScript::TelnetOff);
    assert_eq!(s.toggle_ftp(true), ServiceScript::FtpOn);
    assert_eq!(s.toggle_scraper(true), ServiceScript::ScraperOn);
    assert_eq!(s.toggle_syncthing(false), ServiceScript::SyncthingOff);
    assert_eq!(s.toggle_web_file_browser(true), ServiceScript::WebFileBrowserOn);
    assert_eq!(s.toggle_ntp(true), Some(ServiceScript::NtpSync));
    assert_eq!(s.toggle_ntp(false), None);
    assert!(s.ssh && s.ftp && s.scraper && s.web_file_browser && !s.ntp);
}

#[test]
fn passphrases_outside_eight_to_sixty_three_are_flagged() {
    assert!(passphrase_is_valid(""));
    assert!(!passphrase_is_valid("short"));
    assert!(passphrase_is_valid("12345678"));
    assert!(!passphrase_is_valid(&"x".repeat(64)));
}

#[test]
fn quotes_and_backslashes_are_escaped() {
    assert_eq!(escape(r#"a"b\c"#), r#"a\"b\\c"#);
}

#[test]
fn the_conf_names_the_network_and_reads_back() {
    let mut s = WiFiSettings::new();
    s.ssid = "home".into();
    s.password = "secret123".into();
    let conf = s.wpa_supplicant_conf();
    assert_eq!(
        conf,
        "ctrl_interface=/var/run/wpa_supplicant\nupdate_config=1\n\nnetwork={\n\tssid=\"home\"\n\tscan_ssid=1\n\tpsk=\"secret123\"\n}\n"
    );
    assert_eq!(
        parse_wpa_supplicant_conf(&conf),
        Some(("home".to_string(), "secret123".to_string()))
    );
}

#[test]
fn a_name_ending_in_psk_is_misread() {
    let mut s = WiFiSettings::new();
    s.ssid = "hotel psk=".into();
    s.password = "secret123".into();
    let conf = s.wpa_supplicant_conf();
    let (ssid, psk) = parse_wpa_supplicant_conf(&conf).unwrap();
    assert_eq!(ssid, "hotel psk=");
    assert_eq!(psk, "\n\tscan_ssid=1\n\tpsk=");
}

#[test]
fn an_open_network_has_no_key() {
    let mut s = WiFiSettings::new();
    s.ssid = "cafe".into();
    let conf = s.wpa_supplicant_conf();
    assert!(conf.contains("\tkey_mgmt=NONE\n"));
    assert!(!conf.contains("psk"));
    assert_eq!(parse_wpa_supplicant_conf(&conf), None);
}

#[test]
fn loading_prefers_the_stored_settings() {
    let mut stored = WiFiSettings::new();
    stored.ssh = true;
    assert!(WiFiSettings::load(Some(stored), Some("")).ssh);
    let from_conf = WiFiSettings::load(None, Some("ssid=\"n\"\npsk=\"p\"\n"));
    assert_eq!((from_conf.ssid.as_str(), from_conf.password.as_str()), ("n", "p"));
    assert!(!from_conf.wifi);
    assert_eq!(WiFiSettings::load(None, None).ssid, "");
}

#[test]
fn the_association_state_is_read_from_its_line() {
    let out = "bssid=aa\r\nwpa_state=COMPLETED \r\nip_address=1.2.3.4\n";
    assert_eq!(association_state(out), Some("COMPLETED".to_string()));
    assert_eq!(association_state("wpa_state=SCANNING"), Some("SCANNING".to_string()));
    assert_eq!(association_state("x=1\n"), None);
    assert_eq!(association_state(""), None);
}

#[test]
fn the_address_is_the_last_word_when_it_is_one() {
    let out = "broadcast 255.255.255.255 dev wlan0 src 192.168.1.23 \n";
    assert_eq!(ip_address(out), Some("192.168.1.23".to_string()));
    assert_eq!(ip_address("dev wlan0 src 1.2.3.256"), None);
    assert_eq!(ip_address("x 1..2"), None);
    assert_eq!(ip_address("   "), None);
}
