//! Wi-Fi and network service settings: which service scripts each change runs, the
//! `wpa_supplicant.conf` written for the network, and what is read back from the network tools.
use vstd::prelude::*;

use crate::number::{parse_unsigned, parse_unsigned_spec};
use crate::text::{
    back_class, chars_of, find_char, find_from, find_str, index_of, lemma_index_of,
    lemma_index_of_unique, lemma_strip_end_range, lemma_strip_start_range, push_char, push_str, skip_class,
    string_of_range, strip_end, strip_start, trailing, trim, CharClass,
};

verus! {

/// A network service script.
#[derive(Clone, Copy, Debug, PartialEq, Eq, Structural)]
pub enum ServiceScript {
    WifiOn,
    WifiOff,
    TelnetOn,
    TelnetOff,
    SshOn,
    SshOff,
    FtpOn,
    FtpOff,
    NtpSync,
    WebFileBrowserOn,
    WebFileBrowserOff,
    ScraperOn,
    ScraperOff,
    SyncthingOn,
    SyncthingOff,
}

/// The Wi-Fi settings and which network services run.
#[derive(Clone, Debug)]
pub struct WiFiSettings {
    pub wifi: bool,
    pub ssid: String,
    pub password: String,
    pub ntp: bool,
    pub web_file_browser: bool,
    pub telnet: bool,
    pub ssh: bool,
    pub ftp: bool,
    pub syncthing: bool,
    pub scraper: bool,
}

/// Scripts to run for a change: some at once, and some once the network is up.
#[derive(Clone, Debug)]
pub struct WifiCommands {
    pub now: Vec<ServiceScript>,
    pub once_connected: Vec<ServiceScript>,
}

/// `x` when `b`, else nothing.
pub open spec fn when(b: bool, x: ServiceScript) -> Seq<ServiceScript> {
    if b {
        seq![x]
    } else {
        seq![]
    }
}

fn push_when(v: &mut Vec<ServiceScript>, b: bool, x: ServiceScript)
    ensures
        final(v)@ == old(v)@ + when(b, x),
{
    if b {
        v.push(x);
    }
    assert(final(v)@ =~= old(v)@ + when(b, x));
}

/// A script is in `a + b` exactly when it is in `a` or in `b`.
proof fn lemma_contains_concat(a: Seq<ServiceScript>, b: Seq<ServiceScript>, x: ServiceScript)
    ensures
        (a + b).contains(x) <==> (a.contains(x) || b.contains(x)),
{
    if (a + b).contains(x) {
        let i = choose|i: int| 0 <= i < (a + b).len() && (a + b)[i] == x;
        if i < a.len() {
            assert(a[i] == x);
        } else {
            assert(b[i - a.len()] == x);
        }
    }
    if a.contains(x) {
        let i = choose|i: int| 0 <= i < a.len() && a[i] == x;
        assert((a + b)[i] == x);
    }
    if b.contains(x) {
        let i = choose|i: int| 0 <= i < b.len() && b[i] == x;
        assert((a + b)[a.len() + i] == x);
    }
}

/// `when(b, x)` holds `y` exactly when `b` and `y` is `x`.
proof fn lemma_when_contains(b: bool, x: ServiceScript, y: ServiceScript)
    ensures
        (when(b, x)).contains(y) <==> (b && x == y),
{
    if b {
        assert(when(b, x)[0] == x);
    }
}

impl WiFiSettings {
    /// Everything off, no network configured.
    pub open spec fn is_blank(&self) -> bool {
        &&& !self.wifi
        &&& self.ssid@.len() == 0
        &&& self.password@.len() == 0
        &&& !self.ntp
        &&& !self.web_file_browser
        &&& !self.telnet
        &&& !self.ssh
        &&& !self.ftp
        &&& !self.syncthing
        &&& !self.scraper
    }

    pub fn new() -> (s: WiFiSettings)
        ensures
            s.is_blank(),
    {
        WiFiSettings {
            wifi: false,
            ssid: String::new(),
            password: String::new(),
            ntp: false,
            web_file_browser: false,
            telnet: false,
            ssh: false,
            ftp: false,
            syncthing: false,
            scraper: false,
        }
    }

    /// What bringing the services up at boot runs: nothing with Wi-Fi off; with it on, Wi-Fi,
    /// then telnet and SSH stopped, then each enabled service started, NTP first.
    pub open spec fn init_spec(&self) -> Seq<ServiceScript> {
        if self.wifi {
            seq![ServiceScript::WifiOn, ServiceScript::TelnetOff, ServiceScript::SshOff] + when(
                self.ntp,
                ServiceScript::NtpSync,
            ) + when(self.telnet, ServiceScript::TelnetOn) + when(self.ssh, ServiceScript::SshOn)
                + when(self.ftp, ServiceScript::FtpOn) + when(
                self.web_file_browser,
                ServiceScript::WebFileBrowserOn,
            ) + when(self.syncthing, ServiceScript::SyncthingOn) + when(
                self.scraper,
                ServiceScript::ScraperOn,
            )
        } else {
            seq![]
        }
    }

    /// Which scripts boot runs with Wi-Fi on: Wi-Fi started, telnet and SSH stopped, and the
    /// start script of each enabled service, NTP's sync among them.
    proof fn lemma_init_contains(&self, x: ServiceScript)
        requires
            self.wifi,
        ensures
            self.init_spec().contains(x) <==> (x == ServiceScript::WifiOn || x == ServiceScript::TelnetOff
                || x == ServiceScript::SshOff || (self.ntp && x == ServiceScript::NtpSync) || (
            self.telnet && x == ServiceScript::TelnetOn) || (self.ssh && x == ServiceScript::SshOn) || (
            self.ftp && x == ServiceScript::FtpOn) || (self.web_file_browser && x
                == ServiceScript::WebFileBrowserOn) || (self.syncthing && x == ServiceScript::SyncthingOn)
                || (self.scraper && x == ServiceScript::ScraperOn)),
    {
        let base = seq![ServiceScript::WifiOn, ServiceScript::TelnetOff, ServiceScript::SshOff];
        let s1 = base + when(self.ntp, ServiceScript::NtpSync);
        let s2 = s1 + when(self.telnet, ServiceScript::TelnetOn);
        let s3 = s2 + when(self.ssh, ServiceScript::SshOn);
        let s4 = s3 + when(self.ftp, ServiceScript::FtpOn);
        let s5 = s4 + when(self.web_file_browser, ServiceScript::WebFileBrowserOn);
        let s6 = s5 + when(self.syncthing, ServiceScript::SyncthingOn);
        assert(self.init_spec() == s6 + when(self.scraper, ServiceScript::ScraperOn));
        lemma_contains_concat(base, when(self.ntp, ServiceScript::NtpSync), x);
        lemma_contains_concat(s1, when(self.telnet, ServiceScript::TelnetOn), x);
        lemma_contains_concat(s2, when(self.ssh, ServiceScript::SshOn), x);
        lemma_contains_concat(s3, when(self.ftp, ServiceScript::FtpOn), x);
        lemma_contains_concat(s4, when(self.web_file_browser, ServiceScript::WebFileBrowserOn), x);
        lemma_contains_concat(s5, when(self.syncthing, ServiceScript::SyncthingOn), x);
        lemma_contains_concat(s6, when(self.scraper, ServiceScript::ScraperOn), x);
        lemma_when_contains(self.ntp, ServiceScript::NtpSync, x);
        lemma_when_contains(self.telnet, ServiceScript::TelnetOn, x);
        lemma_when_contains(self.ssh, ServiceScript::SshOn, x);
        lemma_when_contains(self.ftp, ServiceScript::FtpOn, x);
        lemma_when_contains(self.web_file_browser, ServiceScript::WebFileBrowserOn, x);
        lemma_when_contains(self.syncthing, ServiceScript::SyncthingOn, x);
        lemma_when_contains(self.scraper, ServiceScript::ScraperOn, x);
        if base.contains(x) {
            let i = choose|i: int| 0 <= i < base.len() && base[i] == x;
        }
        if x == ServiceScript::WifiOn {
            assert(base[0] == x);
        } else if x == ServiceScript::TelnetOff {
            assert(base[1] == x);
        } else if x == ServiceScript::SshOff {
            assert(base[2] == x);
        }
    }

    /// What boot runs, by script: with Wi-Fi off, nothing. With it on, Wi-Fi is started first,
    /// telnet and SSH are stopped, the NTP sync runs exactly when NTP is enabled, each service's
    /// start script runs exactly when that service is enabled, and nothing else is stopped.
    pub proof fn lemma_init_starts_what_is_enabled(&self)
        ensures
            !self.wifi ==> self.init_spec().len() == 0,
            self.wifi ==> self.init_spec()[0] == ServiceScript::WifiOn,
            self.wifi ==> self.init_spec().contains(ServiceScript::TelnetOff),
            self.wifi ==> self.init_spec().contains(ServiceScript::SshOff),
            self.wifi ==> (self.init_spec().contains(ServiceScript::NtpSync) <==> self.ntp),
            self.wifi ==> (self.init_spec().contains(ServiceScript::TelnetOn) <==> self.telnet),
            self.wifi ==> (self.init_spec().contains(ServiceScript::SshOn) <==> self.ssh),
            self.wifi ==> (self.init_spec().contains(ServiceScript::FtpOn) <==> self.ftp),
            self.wifi ==> (self.init_spec().contains(ServiceScript::WebFileBrowserOn)
                <==> self.web_file_browser),
            self.wifi ==> (self.init_spec().contains(ServiceScript::SyncthingOn) <==> self.syncthing),
            self.wifi ==> (self.init_spec().contains(ServiceScript::ScraperOn) <==> self.scraper),
            !self.init_spec().contains(ServiceScript::WifiOff),
            !self.init_spec().contains(ServiceScript::FtpOff),
            !self.init_spec().contains(ServiceScript::WebFileBrowserOff),
            !self.init_spec().contains(ServiceScript::SyncthingOff),
            !self.init_spec().contains(ServiceScript::ScraperOff),
    {
        if self.wifi {
            assert(self.init_spec()[0] == ServiceScript::WifiOn);
            self.lemma_init_contains(ServiceScript::TelnetOff);
            self.lemma_init_contains(ServiceScript::SshOff);
            self.lemma_init_contains(ServiceScript::NtpSync);
            self.lemma_init_contains(ServiceScript::TelnetOn);
            self.lemma_init_contains(ServiceScript::SshOn);
            self.lemma_init_contains(ServiceScript::FtpOn);
            self.lemma_init_contains(ServiceScript::WebFileBrowserOn);
            self.lemma_init_contains(ServiceScript::SyncthingOn);
            self.lemma_init_contains(ServiceScript::ScraperOn);
            self.lemma_init_contains(ServiceScript::WifiOff);
            self.lemma_init_contains(ServiceScript::FtpOff);
            self.lemma_init_contains(ServiceScript::WebFileBrowserOff);
            self.lemma_init_contains(ServiceScript::SyncthingOff);
            self.lemma_init_contains(ServiceScript::ScraperOff);
        } else {
            assert(self.init_spec() =~= Seq::<ServiceScript>::empty());
        }
    }

    /// The scripts that bring the services up at boot; see [`WiFiSettings::init_spec`].
    pub fn init(&self) -> (r: Vec<ServiceScript>)
        ensures
            r@ == self.init_spec(),
    {
        let mut r: Vec<ServiceScript> = Vec::new();
        if self.wifi {
            r.push(ServiceScript::WifiOn);
            r.push(ServiceScript::TelnetOff);
            r.push(ServiceScript::SshOff);
            push_when(&mut r, self.ntp, ServiceScript::NtpSync);
            push_when(&mut r, self.telnet, ServiceScript::TelnetOn);
            push_when(&mut r, self.ssh, ServiceScript::SshOn);
            push_when(&mut r, self.ftp, ServiceScript::FtpOn);
            push_when(&mut r, self.web_file_browser, ServiceScript::WebFileBrowserOn);
            push_when(&mut r, self.syncthing, ServiceScript::SyncthingOn);
            push_when(&mut r, self.scraper, ServiceScript::ScraperOn);
        }
        r
    }

    /// What switching Wi-Fi to `enabled` runs, given which remote-access services are enabled:
    /// turning it on starts Wi-Fi at once and telnet, SSH and FTP once connected; turning it off
    /// stops Wi-Fi and then those same services.
    pub open spec fn wifi_commands(&self, enabled: bool) -> (Seq<ServiceScript>, Seq<ServiceScript>) {
        if enabled {
            (
                seq![ServiceScript::WifiOn],
                when(self.telnet, ServiceScript::TelnetOn) + when(self.ssh, ServiceScript::SshOn)
                    + when(self.ftp, ServiceScript::FtpOn),
            )
        } else {
            (
                seq![ServiceScript::WifiOff] + when(self.telnet, ServiceScript::TelnetOff) + when(
                    self.ssh,
                    ServiceScript::SshOff,
                ) + when(self.ftp, ServiceScript::FtpOff),
                seq![],
            )
        }
    }

    fn commands_for(&self, enabled: bool) -> (r: WifiCommands)
        ensures
            (r.now@, r.once_connected@) == self.wifi_commands(enabled),
    {
        let mut now: Vec<ServiceScript> = Vec::new();
        let mut once_connected: Vec<ServiceScript> = Vec::new();
        if enabled {
            now.push(ServiceScript::WifiOn);
            push_when(&mut once_connected, self.telnet, ServiceScript::TelnetOn);
            push_when(&mut once_connected, self.ssh, ServiceScript::SshOn);
            push_when(&mut once_connected, self.ftp, ServiceScript::FtpOn);
        } else {
            now.push(ServiceScript::WifiOff);
            push_when(&mut now, self.telnet, ServiceScript::TelnetOff);
            push_when(&mut now, self.ssh, ServiceScript::SshOff);
            push_when(&mut now, self.ftp, ServiceScript::FtpOff);
        }
        assert(once_connected@ =~= self.wifi_commands(enabled).1);
        assert(now@ =~= self.wifi_commands(enabled).0);
        WifiCommands { now, once_connected }
    }

    /// Switches Wi-Fi on or off; see [`WiFiSettings::wifi_commands`].
    pub fn set_wifi(&mut self, enabled: bool) -> (r: WifiCommands)
        ensures
            *final(self) == (WiFiSettings { wifi: enabled, ..*old(self) }),
            (r.now@, r.once_connected@) == old(self).wifi_commands(enabled),
    {
        self.wifi = enabled;
        self.commands_for(enabled)
    }

    /// Sets the network name. With Wi-Fi on it is restarted, so the new network is joined.
    pub fn set_ssid(&mut self, ssid: String) -> (r: WifiCommands)
        ensures
            *final(self) == (WiFiSettings { ssid, ..*old(self) }),
            (r.now@, r.once_connected@) == if old(self).wifi {
                old(self).wifi_commands(true)
            } else {
                (seq![], seq![])
            },
    {
        self.ssid = ssid;
        if self.wifi {
            self.commands_for(true)
        } else {
            WifiCommands { now: Vec::new(), once_connected: Vec::new() }
        }
    }

    /// Sets the passphrase. With Wi-Fi on it is restarted, so the new passphrase is used.
    pub fn set_password(&mut self, password: String) -> (r: WifiCommands)
        ensures
            *final(self) == (WiFiSettings { password, ..*old(self) }),
            (r.now@, r.once_connected@) == if old(self).wifi {
                old(self).wifi_commands(true)
            } else {
                (seq![], seq![])
            },
    {
        self.password = password;
        if self.wifi {
            self.commands_for(true)
        } else {
            WifiCommands { now: Vec::new(), once_connected: Vec::new() }
        }
    }

    /// Switches time sync; turning it on syncs at once.
    pub fn toggle_ntp(&mut self, enabled: bool) -> (r: Option<ServiceScript>)
        ensures
            *final(self) == (WiFiSettings { ntp: enabled, ..*old(self) }),
            r == if enabled {
                Some(ServiceScript::NtpSync)
            } else {
                None
            },
    {
        self.ntp = enabled;
        if enabled {
            Some(ServiceScript::NtpSync)
        } else {
            None
        }
    }

    pub fn toggle_web_file_browser(&mut self, enabled: bool) -> (r: ServiceScript)
        ensures
            *final(self) == (WiFiSettings { web_file_browser: enabled, ..*old(self) }),
            r == if enabled {
                ServiceScript::WebFileBrowserOn
            } else {
                ServiceScript::WebFileBrowserOff
            },
    {
        self.web_file_browser = enabled;
        if enabled {
            ServiceScript::WebFileBrowserOn
        } else {
            ServiceScript::WebFileBrowserOff
        }
    }

    pub fn toggle_telnet(&mut self, enabled: bool) -> (r: ServiceScript)
        ensures
            *final(self) == (WiFiSettings { telnet: enabled, ..*old(self) }),
            r == if enabled {
                ServiceScript::TelnetOn
            } else {
                ServiceScript::TelnetOff
            },
    {
        self.telnet = enabled;
        if enabled {
            ServiceScript::TelnetOn
        } else {
            ServiceScript::TelnetOff
        }
    }

    pub fn toggle_ssh(&mut self, enabled: bool) -> (r: ServiceScript)
        ensures
            *final(self) == (WiFiSettings { ssh: enabled, ..*old(self) }),
            r == if enabled {
                ServiceScript::SshOn
            } else {
                ServiceScript::SshOff
            },
    {
        self.ssh = enabled;
        if enabled {
            ServiceScript::SshOn
        } else {
            ServiceScript::SshOff
        }
    }

    pub fn toggle_ftp(&mut self, enabled: bool) -> (r: ServiceScript)
        ensures
            *final(self) == (WiFiSettings { ftp: enabled, ..*old(self) }),
            r == if enabled {
                ServiceScript::FtpOn
            } else {
                ServiceScript::FtpOff
            },
    {
        self.ftp = enabled;
        if enabled {
            ServiceScript::FtpOn
        } else {
            ServiceScript::FtpOff
        }
    }

    pub fn toggle_scraper(&mut self, enabled: bool) -> (r: ServiceScript)
        ensures
            *final(self) == (WiFiSettings { scraper: enabled, ..*old(self) }),
            r == if enabled {
                ServiceScript::ScraperOn
            } else {
                ServiceScript::ScraperOff
            },
    {
        self.scraper = enabled;
        if enabled {
            ServiceScript::ScraperOn
        } else {
            ServiceScript::ScraperOff
        }
    }

    pub fn toggle_syncthing(&mut self, enabled: bool) -> (r: ServiceScript)
        ensures
            *final(self) == (WiFiSettings { syncthing: enabled, ..*old(self) }),
            r == if enabled {
                ServiceScript::SyncthingOn
            } else {
                ServiceScript::SyncthingOff
            },
    {
        self.syncthing = enabled;
        if enabled {
            ServiceScript::SyncthingOn
        } else {
            ServiceScript::SyncthingOff
        }
    }
}

impl Default for WiFiSettings {
    fn default() -> (s: Self)
        ensures
            s.is_blank(),
    {
        WiFiSettings::new()
    }
}

/// Whether a passphrase is one wpa_supplicant accepts: empty for an open network, or 8 to 63
/// characters. Nothing rejects another, but the log says why the network never comes up.
pub fn passphrase_is_valid(password: &str) -> (r: bool)
    ensures
        r == (password@.len() == 0 || (8 <= password@.len() <= 63)),
{
    let n = chars_of(password).len();
    n == 0 || (8 <= n && n <= 63)
}

/// One character as it stands inside a double-quoted wpa_supplicant string.
pub open spec fn escape_char(c: char) -> Seq<char> {
    if c == '\\' {
        seq!['\\', '\\']
    } else if c == '"' {
        seq!['\\', '"']
    } else {
        seq![c]
    }
}

/// A value quoted for a double-quoted wpa_supplicant string: each backslash doubled, then each
/// quote preceded by a backslash.
pub open spec fn escape_spec(s: Seq<char>) -> Seq<char>
    decreases s.len(),
{
    if s.len() == 0 {
        Seq::empty()
    } else {
        escape_spec(s.drop_last()) + escape_char(s.last())
    }
}

/// Appends `value`, escaped, to `out`.
fn push_escaped(out: &mut String, value: &str)
    ensures
        final(out)@ == old(out)@ + escape_spec(value@),
{
    let chars = chars_of(value);
    let ghost start = out@;
    let mut i: usize = 0;
    while i < chars.len()
        invariant
            i <= chars.len(),
            chars@ == value@,
            out@ == start + escape_spec(chars@.take(i as int)),
        decreases chars.len() - i,
    {
        let c = chars[i];
        if c == '\\' {
            push_char(out, '\\');
            push_char(out, '\\');
        } else if c == '"' {
            push_char(out, '\\');
            push_char(out, '"');
        } else {
            push_char(out, c);
        }
        assert(chars@.take(i + 1).drop_last() =~= chars@.take(i as int));
        assert(out@ =~= start + escape_spec(chars@.take(i + 1)));
        i += 1;
    }
    assert(chars@.take(chars.len() as int) =~= chars@);
}

/// `value` quoted for a double-quoted wpa_supplicant string.
pub fn escape(value: &str) -> (r: String)
    ensures
        r@ == escape_spec(value@),
{
    let mut r = String::new();
    push_escaped(&mut r, value);
    r
}

/// The `wpa_supplicant.conf` for a network: its name probed for even when hidden, and either
/// its passphrase or, for an empty one, no key at all (an empty `psk` is an invalid passphrase,
/// and wpa_supplicant rejects the whole file for it).
pub open spec fn wpa_conf_spec(ssid: Seq<char>, password: Seq<char>) -> Seq<char> {
    "ctrl_interface=/var/run/wpa_supplicant\nupdate_config=1\n\nnetwork={\n\tssid=\""@
        + escape_spec(ssid) + "\"\n\tscan_ssid=1\n"@ + if password.len() == 0 {
        "\tkey_mgmt=NONE\n"@
    } else {
        "\tpsk=\""@ + escape_spec(password) + "\"\n"@
    } + "}\n"@
}

impl WiFiSettings {
    /// The `wpa_supplicant.conf` for these settings; see [`wpa_conf_spec`].
    pub fn wpa_supplicant_conf(&self) -> (r: String)
        ensures
            r@ == wpa_conf_spec(self.ssid@, self.password@),
    {
        let mut r = String::new();
        push_str(&mut r, "ctrl_interface=/var/run/wpa_supplicant\nupdate_config=1\n\nnetwork={\n\tssid=\"");
        push_escaped(&mut r, self.ssid.as_str());
        push_str(&mut r, "\"\n\tscan_ssid=1\n");
        if self.password.as_str().is_empty() {
            push_str(&mut r, "\tkey_mgmt=NONE\n");
        } else {
            push_str(&mut r, "\tpsk=\"");
            push_escaped(&mut r, self.password.as_str());
            push_str(&mut r, "\"\n");
        }
        push_str(&mut r, "}\n");
        assert(r@ =~= wpa_conf_spec(self.ssid@, self.password@));
        r
    }
}

/// `ssid="`, which opens the network name in a `wpa_supplicant.conf`.
pub open spec fn ssid_key() -> Seq<char> {
    seq!['s', 's', 'i', 'd', '=', '"']
}

/// `psk="`, which opens the passphrase.
pub open spec fn psk_key() -> Seq<char> {
    seq!['p', 's', 'k', '=', '"']
}

/// The quoted value after the first `key` in `data`, up to the next quote.
pub open spec fn quoted_after(data: Seq<char>, key: Seq<char>) -> Option<Seq<char>> {
    let i = find_from(data, key, 0);
    let rest = data.skip(i + key.len());
    let e = index_of(rest, '"');
    if i < 0 || e < 0 {
        None
    } else {
        Some(rest.take(e))
    }
}

/// The network name and passphrase a `wpa_supplicant.conf` holds, or nothing when either is
/// missing.
pub open spec fn parse_wpa_conf_spec(data: Seq<char>) -> Option<(Seq<char>, Seq<char>)> {
    match (quoted_after(data, ssid_key()), quoted_after(data, psk_key())) {
        (Some(ssid), Some(psk)) => Some((ssid, psk)),
        _ => None,
    }
}

/// The quoted value after the first `key` in `data`.
fn find_quoted(data: &Vec<char>, key: &Vec<char>) -> (r: Option<String>)
    ensures
        match r {
            Some(v) => quoted_after(data@, key@) == Some(v@),
            None => quoted_after(data@, key@) is None,
        },
{
    let i = match find_str(data, key) {
        Some(i) => i,
        None => return None,
    };
    let start = i + key.len();
    assert(data@.skip(start as int) =~= data@.subrange(start as int, data.len() as int));
    match find_char(data, start, data.len(), '"') {
        Some(e) => {
            assert(data@.skip(start as int).take(e - start) =~= data@.subrange(
                start as int,
                e as int,
            ));
            Some(string_of_range(data, start, e))
        },
        None => None,
    }
}

/// Reads the network name and passphrase back out of a `wpa_supplicant.conf`.
pub fn parse_wpa_supplicant_conf(data: &str) -> (r: Option<(String, String)>)
    ensures
        match r {
            Some((ssid, psk)) => parse_wpa_conf_spec(data@) == Some((ssid@, psk@)),
            None => parse_wpa_conf_spec(data@) is None,
        },
{
    let d = chars_of(data);
    let ssid_k = vec!['s', 's', 'i', 'd', '=', '"'];
    let psk_k = vec!['p', 's', 'k', '=', '"'];
    assert(ssid_k@ =~= ssid_key());
    assert(psk_k@ =~= psk_key());
    let ssid = find_quoted(&d, &ssid_k);
    let psk = find_quoted(&d, &psk_k);
    match (ssid, psk) {
        (Some(s), Some(p)) => Some((s, p)),
        _ => None,
    }
}

/// No quote and no backslash: a value that escaping leaves as it is.
pub open spec fn is_plain(s: Seq<char>) -> bool {
    forall|i: int| 0 <= i < s.len() ==> #[trigger] s[i] != '"' && s[i] != '\\'
}

/// Whether a network name ends in `psk=`.
pub open spec fn ends_with_psk(s: Seq<char>) -> bool {
    s.len() >= 4 && s.subrange(s.len() - 4, s.len() as int) == seq!['p', 's', 'k', '=']
}

proof fn lemma_escape_plain(s: Seq<char>)
    requires
        is_plain(s),
    ensures
        escape_spec(s) == s,
    decreases s.len(),
{
    if s.len() > 0 {
        let init = s.drop_last();
        assert forall|i: int| 0 <= i < init.len() implies #[trigger] init[i] != '"' && init[i]
            != '\\' by {
            assert(init[i] == s[i]);
        }
        lemma_escape_plain(init);
        assert(s[s.len() - 1] != '"' && s[s.len() - 1] != '\\');
        assert(init + seq![s.last()] =~= s);
    }
}

/// `s` has no quote between `lo` and `hi`, given that its piece there has none.
proof fn lemma_no_quote_between(s: Seq<char>, lo: int, hi: int)
    requires
        0 <= lo <= hi <= s.len(),
        index_of(s.subrange(lo, hi), '"') == -1,
    ensures
        forall|i: int| lo <= i < hi ==> #[trigger] s[i] != '"',
{
    lemma_index_of(s.subrange(lo, hi), '"');
    assert forall|i: int| lo <= i < hi implies #[trigger] s[i] != '"' by {
        assert(s.subrange(lo, hi)[i - lo] == s[i]);
    }
}

/// `find_from` from `from` lands on `k` when `pat` occurs there and nowhere between.
proof fn lemma_find_first(s: Seq<char>, pat: Seq<char>, from: int, k: int)
    requires
        0 <= from <= k,
        k + pat.len() <= s.len(),
        s.subrange(k, k + pat.len()) == pat,
        forall|j: int| from <= j < k ==> #[trigger] s.subrange(j, j + pat.len()) != pat,
    ensures
        find_from(s, pat, from) == k,
    decreases k - from,
{
    if from < k {
        assert(s.subrange(from, from + pat.len()) != pat);
        lemma_find_first(s, pat, from + 1, k);
    }
}

/// The opening of a `wpa_supplicant.conf`, up to the quote that opens the network name.
spec fn conf_head() -> Seq<char> {
    "ctrl_interface=/var/run/wpa_supplicant\nupdate_config=1\n\nnetwork={\n\tssid=\""@
}

/// What follows the network name, up to the passphrase line.
spec fn conf_after_ssid() -> Seq<char> {
    "\"\n\tscan_ssid=1\n"@
}

/// The passphrase line up to the passphrase.
spec fn conf_psk_open() -> Seq<char> {
    "\tpsk=\""@
}

/// The line an open network has in place of a passphrase.
spec fn conf_open_key() -> Seq<char> {
    "\tkey_mgmt=NONE\n"@
}

/// Where the quotes stand in the fixed text of the file.
proof fn lemma_conf_text()
    ensures
        conf_head().len() == 73,
        forall|i: int| 0 <= i < 72 ==> #[trigger] conf_head()[i] != '"',
        conf_head()[72] == '"',
        conf_head()[68] == 's',
        conf_head().subrange(67, 73) == ssid_key(),
        conf_after_ssid().len() == 15,
        conf_after_ssid()[0] == '"',
        forall|i: int| 1 <= i < 15 ==> #[trigger] conf_after_ssid()[i] != '"',
        conf_psk_open().len() == 6,
        forall|i: int| 0 <= i < 5 ==> #[trigger] conf_psk_open()[i] != '"',
        conf_psk_open().subrange(1, 6) == psk_key(),
        "\"\n"@ == seq!['"', '\n'],
        "}\n"@ == seq!['}', '\n'],
        conf_open_key().len() == 15,
        forall|i: int| 0 <= i < 15 ==> #[trigger] conf_open_key()[i] != '"',
{
    reveal_strlit("ctrl_interface=/var/run/wpa_supplicant\nupdate_config=1\n\nnetwork={\n\tssid=\"");
    reveal_strlit("\"\n\tscan_ssid=1\n");
    reveal_strlit("\tpsk=\"");
    reveal_strlit("\"\n");
    reveal_strlit("}\n");
    reveal_strlit("\tkey_mgmt=NONE\n");
    let p = conf_head();
    let q = conf_after_ssid();
    let k = conf_psk_open();
    reveal_with_fuel(index_of, 21);
    assert(index_of(p.subrange(0, 20), '"') == -1);
    assert(index_of(p.subrange(20, 40), '"') == -1);
    assert(index_of(p.subrange(40, 60), '"') == -1);
    assert(index_of(p.subrange(60, 72), '"') == -1);
    assert(index_of(q.subrange(1, 15), '"') == -1);
    assert(index_of(k.subrange(0, 5), '"') == -1);
    lemma_no_quote_between(p, 0, 20);
    lemma_no_quote_between(p, 20, 40);
    lemma_no_quote_between(p, 40, 60);
    lemma_no_quote_between(p, 60, 72);
    lemma_no_quote_between(q, 1, 15);
    lemma_no_quote_between(k, 0, 5);
    assert(index_of(conf_open_key().subrange(0, 15), '"') == -1);
    lemma_no_quote_between(conf_open_key(), 0, 15);
    assert(p.subrange(67, 73) =~= ssid_key());
    assert(k.subrange(1, 6) =~= psk_key());
    assert("\"\n"@ =~= seq!['"', '\n']);
    assert("}\n"@ =~= seq!['}', '\n']);
}

/// Where the quotes of the file written for `ssid` and `password` fall, up to the end of the
/// passphrase: around the name, and around the passphrase.
proof fn lemma_conf_quotes(ssid: Seq<char>, password: Seq<char>)
    requires
        is_plain(ssid),
        is_plain(password),
        password.len() > 0,
    ensures
        ({
            let d = wpa_conf_spec(ssid, password);
            let n = ssid.len() as int;
            let m = password.len() as int;
            &&& d == conf_head() + ssid + conf_after_ssid() + (conf_psk_open() + password
                + "\"\n"@) + "}\n"@
            &&& d.len() == 98 + n + m
            &&& forall|i: int|
                0 <= i < 94 + n + m ==> ((#[trigger] d[i] == '"') <==> (i == 72 || i == 73 + n
                    || i == 93 + n))
            &&& d[94 + n + m] == '"'
            &&& forall|i: int| 73 <= i < 73 + n ==> #[trigger] d[i] == ssid[i - 73]
            &&& forall|i: int| 94 + n <= i < 94 + n + m ==> #[trigger] d[i] == password[i - 94 - n]
            &&& d.subrange(67, 73) == ssid_key()
            &&& d.subrange(89 + n, 94 + n) == psk_key()
            &&& d[68] == 's'
        }),
{
    lemma_escape_plain(ssid);
    lemma_escape_plain(password);
    lemma_conf_text();
    let p = conf_head();
    let q = conf_after_ssid();
    let k = conf_psk_open();
    let n = ssid.len() as int;
    let m = password.len() as int;
    let d = wpa_conf_spec(ssid, password);
    assert(d == p + ssid + q + (k + password + "\"\n"@) + "}\n"@);
    assert forall|i: int| 0 <= i < 94 + n + m implies ((#[trigger] d[i] == '"') <==> (i == 72 || i
        == 73 + n || i == 93 + n)) by {
        if i < 73 {
            assert(d[i] == p[i]);
        } else if i < 73 + n {
            assert(d[i] == ssid[i - 73]);
        } else if i < 88 + n {
            assert(d[i] == q[i - 73 - n]);
        } else if i < 94 + n {
            assert(d[i] == k[i - 88 - n]);
        } else {
            assert(d[i] == password[i - 94 - n]);
        }
    }
    assert(d.subrange(67, 73) =~= p.subrange(67, 73));
    assert(d.subrange(89 + n, 94 + n) =~= k.subrange(1, 6));
    assert(d.len() == 98 + n + m);
    assert(d[94 + n + m] == '"');
    assert(forall|i: int| 73 <= i < 73 + n ==> #[trigger] d[i] == ssid[i - 73]);
    assert(forall|i: int| 94 + n <= i < 94 + n + m ==> #[trigger] d[i] == password[i - 94 - n]);
    assert(d[68] == 's');
}

/// Where the quotes of the file written for an open network named `ssid` fall: only around the
/// name.
proof fn lemma_conf_quotes_open(ssid: Seq<char>)
    requires
        is_plain(ssid),
    ensures
        ({
            let d = wpa_conf_spec(ssid, Seq::empty());
            let n = ssid.len() as int;
            &&& d.len() == 105 + n
            &&& forall|i: int|
                0 <= i < 105 + n ==> ((#[trigger] d[i] == '"') <==> (i == 72 || i == 73 + n))
            &&& forall|i: int| 73 <= i < 73 + n ==> #[trigger] d[i] == ssid[i - 73]
            &&& d[68] == 's'
        }),
{
    lemma_escape_plain(ssid);
    lemma_conf_text();
    let p = conf_head();
    let q = conf_after_ssid();
    let o = conf_open_key();
    let n = ssid.len() as int;
    let d = wpa_conf_spec(ssid, Seq::empty());
    assert(d == p + ssid + q + o + "}\n"@);
    assert forall|i: int| 0 <= i < 105 + n implies ((#[trigger] d[i] == '"') <==> (i == 72 || i == 73
        + n)) by {
        if i < 73 {
            assert(d[i] == p[i]);
        } else if i < 73 + n {
            assert(d[i] == ssid[i - 73]);
        } else if i < 88 + n {
            assert(d[i] == q[i - 73 - n]);
        } else if i < 103 + n {
            assert(d[i] == o[i - 88 - n]);
        } else {
            assert(d[i] == "}\n"@[i - 103 - n]);
        }
    }
}

/// `find_from` from `from` finds nothing when `pat` occurs nowhere from there on.
proof fn lemma_find_absent(s: Seq<char>, pat: Seq<char>, from: int)
    requires
        0 <= from,
        forall|j: int| from <= j && j + pat.len() <= s.len() ==> #[trigger] s.subrange(j, j + pat.len())
            != pat,
    ensures
        find_from(s, pat, from) == -1,
    decreases s.len() + 1 - from,
{
    if from + pat.len() <= s.len() {
        assert(s.subrange(from, from + pat.len()) != pat);
        lemma_find_absent(s, pat, from + 1);
    }
}

/// The reader finds no passphrase in the file written for an open network, whose name does not
/// end in `psk=`.
proof fn lemma_conf_open(ssid: Seq<char>)
    requires
        is_plain(ssid),
        !ends_with_psk(ssid),
    ensures
        quoted_after(wpa_conf_spec(ssid, Seq::empty()), psk_key()) is None,
{
    lemma_conf_quotes_open(ssid);
    let n = ssid.len() as int;
    let d = wpa_conf_spec(ssid, Seq::empty());
    let pk = psk_key();
    assert forall|j: int| 0 <= j && j + pk.len() <= d.len() implies #[trigger] d.subrange(
        j,
        j + pk.len(),
    ) != pk by {
        let w = d.subrange(j, j + 5);
        assert(w[4] == d[j + 4]);
        if j + 4 == 72 {
            assert(w[0] == d[68]);
        } else if j + 4 == 73 + n {
            if n >= 4 {
                assert forall|t: int| 0 <= t < 4 implies w[t] == ssid.subrange(n - 4, n)[t] by {
                    assert(w[t] == d[j + t]);
                }
                assert(w.subrange(0, 4) =~= ssid.subrange(n - 4, n));
                assert(pk.subrange(0, 4) =~= seq!['p', 's', 'k', '=']);
            } else {
                assert(w[3 - n] == d[72]);
            }
        }
    }
    lemma_find_absent(d, pk, 0);
}

/// The reader finds the network name written for `ssid`.
proof fn lemma_conf_name(ssid: Seq<char>, password: Seq<char>)
    requires
        is_plain(ssid),
        is_plain(password),
        password.len() > 0,
    ensures
        quoted_after(wpa_conf_spec(ssid, password), ssid_key()) == Some(ssid),
{
    lemma_conf_quotes(ssid, password);
    let n = ssid.len() as int;
    let d = wpa_conf_spec(ssid, password);
    let sk = ssid_key();
    assert forall|j: int| 0 <= j < 67 implies #[trigger] d.subrange(j, j + sk.len()) != sk by {
        assert(d.subrange(j, j + 6)[5] == d[j + 5]);
    }
    lemma_find_first(d, sk, 0, 67);
    let rest = d.skip(73);
    assert forall|j: int| 0 <= j < n implies #[trigger] rest[j] != '"' by {
        assert(rest[j] == d[73 + j]);
    }
    assert(rest[n] == d[73 + n]);
    lemma_index_of_unique(rest, '"', n);
    assert(rest.take(n) =~= ssid);
}

/// The reader finds the passphrase written for `password`, when the name does not end in
/// `psk=`.
proof fn lemma_conf_passphrase(ssid: Seq<char>, password: Seq<char>)
    requires
        is_plain(ssid),
        is_plain(password),
        password.len() > 0,
        !ends_with_psk(ssid),
    ensures
        quoted_after(wpa_conf_spec(ssid, password), psk_key()) == Some(password),
{
    lemma_conf_quotes(ssid, password);
    let n = ssid.len() as int;
    let m = password.len() as int;
    let d = wpa_conf_spec(ssid, password);
    let pk = psk_key();
    assert forall|j: int| 0 <= j < 89 + n implies #[trigger] d.subrange(j, j + pk.len()) != pk by {
        let w = d.subrange(j, j + 5);
        assert(w[4] == d[j + 4]);
        if j + 4 == 72 {
            assert(w[0] == d[68]);
        } else if j + 4 == 73 + n {
            if n >= 4 {
                assert forall|t: int| 0 <= t < 4 implies w[t] == ssid.subrange(n - 4, n)[t] by {
                    assert(w[t] == d[j + t]);
                }
                assert(w.subrange(0, 4) =~= ssid.subrange(n - 4, n));
                assert(pk.subrange(0, 4) =~= seq!['p', 's', 'k', '=']);
            } else {
                assert(w[3 - n] == d[72]);
            }
        }
    }
    lemma_find_first(d, pk, 0, 89 + n);
    let rest = d.skip(94 + n);
    assert forall|j: int| 0 <= j < m implies #[trigger] rest[j] != '"' by {
        assert(rest[j] == d[94 + n + j]);
    }
    assert(rest[m] == d[94 + n + m]);
    lemma_index_of_unique(rest, '"', m);
    assert(rest.take(m) =~= password);
}

/// A network written to `wpa_supplicant.conf` reads back as itself: the name and passphrase
/// that [`parse_wpa_supplicant_conf`] finds in what [`WiFiSettings::wpa_supplicant_conf`] wrote
/// are the ones written, except for an open network, which is written with no `psk` line and so
/// reads back as nothing. This holds for a name and passphrase with no quote or backslash in
/// them; a name ending in `psk=` has its closing quote taken for the passphrase's opening one.
pub proof fn lemma_conf_reads_back(ssid: Seq<char>, password: Seq<char>)
    requires
        is_plain(ssid),
        is_plain(password),
        !ends_with_psk(ssid),
    ensures
        parse_wpa_conf_spec(wpa_conf_spec(ssid, password)) == if password.len() > 0 {
            Some((ssid, password))
        } else {
            None
        },
{
    if password.len() > 0 {
        lemma_conf_name(ssid, password);
        lemma_conf_passphrase(ssid, password);
    } else {
        assert(password =~= Seq::<char>::empty());
        lemma_conf_open(ssid);
    }
}

impl WiFiSettings {
    /// The settings to use given what was read: the stored settings; failing those, the network
    /// found in `wpa_supplicant.conf` with everything else off; failing that, everything off.
    pub fn load(stored: Option<WiFiSettings>, conf: Option<&str>) -> (s: WiFiSettings)
        ensures
            match stored {
                Some(st) => s == st,
                None => match conf {
                    Some(c) => match parse_wpa_conf_spec(c@) {
                        Some((ssid, psk)) => {
                            &&& s.ssid@ == ssid
                            &&& s.password@ == psk
                            &&& !s.wifi && !s.ntp && !s.web_file_browser && !s.telnet
                            &&& !s.ssh && !s.ftp && !s.syncthing && !s.scraper
                        },
                        None => s.is_blank(),
                    },
                    None => s.is_blank(),
                },
            },
    {
        if let Some(st) = stored {
            return st;
        }
        let parsed = match conf {
            Some(c) => parse_wpa_supplicant_conf(c),
            None => None,
        };
        match parsed {
            Some((ssid, password)) => {
                let mut s = WiFiSettings::new();
                s.ssid = ssid;
                s.password = password;
                s
            },
            None => WiFiSettings::new(),
        }
    }
}

/// A line without the carriage return of a `\r\n` ending.
pub open spec fn strip_cr(l: Seq<char>) -> Seq<char> {
    if l.len() > 0 && l.last() == '\r' {
        l.drop_last()
    } else {
        l
    }
}

/// `wpa_state=`, which starts the line of `wpa_cli status` that gives the association state.
pub open spec fn state_key() -> Seq<char> {
    seq!['w', 'p', 'a', '_', 's', 't', 'a', 't', 'e', '=']
}

/// The trimmed value of a `wpa_state=` line.
pub open spec fn state_of_line(l: Seq<char>) -> Option<Seq<char>> {
    if l.len() >= 10 && l.take(10) == state_key() {
        Some(trim(l.skip(10)))
    } else {
        None
    }
}

/// The association state in `wpa_cli status` output: the trimmed value of its first line that
/// starts with `wpa_state=`. Lines end at `\n`, which takes a `\r` before it along; the last line
/// needs no ending.
pub open spec fn association_state_spec(out: Seq<char>) -> Option<Seq<char>>
    decreases out.len(),
{
    if out.len() == 0 {
        None
    } else {
        let i = index_of(out, '\n');
        if i < 0 {
            state_of_line(out)
        } else {
            match state_of_line(strip_cr(out.take(i))) {
                Some(v) => Some(v),
                None => {
                    proof {
                        lemma_index_of(out, '\n');
                    }
                    association_state_spec(out.skip(i + 1))
                },
            }
        }
    }
}

/// The state of the line `s[lo..hi]`.
fn state_of_range(s: &Vec<char>, lo: usize, hi: usize) -> (r: Option<String>)
    requires
        lo <= hi <= s.len(),
    ensures
        match r {
            Some(v) => state_of_line(s@.subrange(lo as int, hi as int)) == Some(v@),
            None => state_of_line(s@.subrange(lo as int, hi as int)) is None,
        },
{
    let ghost l = s@.subrange(lo as int, hi as int);
    if hi - lo < 10 {
        return None;
    }
    let key = vec!['w', 'p', 'a', '_', 's', 't', 'a', 't', 'e', '='];
    assert(key@ =~= state_key());
    if !crate::text::matches_at(s, &key, lo) {
        assert(l.take(10) =~= s@.subrange(lo as int, lo + 10));
        return None;
    }
    assert(l.take(10) =~= s@.subrange(lo as int, lo + 10));
    let a = skip_class(s, lo + 10, hi, CharClass::Whitespace);
    let b = back_class(s, a, hi, CharClass::Whitespace);
    proof {
        assert(l.skip(10) =~= s@.subrange(lo + 10, hi as int));
        lemma_strip_start_range(s@, lo + 10, hi as int, CharClass::Whitespace);
        lemma_strip_end_range(s@, a as int, hi as int, CharClass::Whitespace);
    }
    Some(string_of_range(s, a, b))
}

/// The association state in `wpa_cli status` output; see [`association_state_spec`].
pub fn association_state(output: &str) -> (r: Option<String>)
    ensures
        match r {
            Some(v) => association_state_spec(output@) == Some(v@),
            None => association_state_spec(output@) is None,
        },
{
    let s = chars_of(output);
    let n = s.len();
    assert(s@.subrange(0, n as int) =~= s@);
    let mut lo: usize = 0;
    while lo < n
        invariant
            lo <= n == s.len(),
            s@ == output@,
            association_state_spec(output@) == association_state_spec(s@.subrange(
                lo as int,
                n as int,
            )),
        decreases n - lo,
    {
        let ghost rest = s@.subrange(lo as int, n as int);
        match find_char(&s, lo, n, '\n') {
            None => {
                let r = state_of_range(&s, lo, n);
                return r;
            },
            Some(e) => {
                let ghost i = (e - lo) as int;
                let line_end = if e > lo && s[e - 1] == '\r' {
                    e - 1
                } else {
                    e
                };
                assert(rest.take(i) =~= s@.subrange(lo as int, e as int));
                assert(strip_cr(rest.take(i)) =~= s@.subrange(lo as int, line_end as int));
                match state_of_range(&s, lo, line_end) {
                    Some(v) => {
                        return Some(v);
                    },
                    None => {
                        assert(rest.skip(i + 1) =~= s@.subrange(e + 1, n as int));
                    },
                }
                lo = e + 1;
            },
        }
    }
    None
}

/// The last whitespace-separated word of `s`, if it has one.
pub open spec fn last_word(s: Seq<char>) -> Option<Seq<char>> {
    let t = strip_end(s, CharClass::Whitespace);
    if t.len() == 0 {
        None
    } else {
        Some(t.skip(t.len() - trailing(t, CharClass::NotWhitespace)))
    }
}

/// Whether every `.`-separated part of `w` is a number `u8` parses.
pub open spec fn all_octets(w: Seq<char>) -> bool
    decreases w.len(),
{
    let i = index_of(w, '.');
    if i < 0 {
        parse_unsigned_spec(w, 255) is Some
    } else {
        proof {
            lemma_index_of(w, '.');
        }
        parse_unsigned_spec(w.take(i), 255) is Some && all_octets(w.skip(i + 1))
    }
}

/// The address in `ip route get` output: its last word, if every dot-separated part of it is a
/// byte.
pub open spec fn ip_address_spec(out: Seq<char>) -> Option<Seq<char>> {
    match last_word(out) {
        Some(w) if all_octets(w) => Some(w),
        _ => None,
    }
}

/// Whether every `.`-separated part of `s[lo..hi]` is a byte.
fn octets_range(s: &Vec<char>, lo: usize, hi: usize) -> (r: bool)
    requires
        lo <= hi <= s.len(),
    ensures
        r == all_octets(s@.subrange(lo as int, hi as int)),
{
    let mut a = lo;
    loop
        invariant
            lo <= a <= hi <= s.len(),
            all_octets(s@.subrange(lo as int, hi as int)) == all_octets(
                s@.subrange(a as int, hi as int),
            ),
        decreases hi - a,
    {
        let ghost w = s@.subrange(a as int, hi as int);
        match find_char(s, a, hi, '.') {
            None => {
                return parse_unsigned(s, a, hi, 255).is_some();
            },
            Some(e) => {
                assert(w.take(e - a) =~= s@.subrange(a as int, e as int));
                assert(w.skip(e - a + 1) =~= s@.subrange(e + 1, hi as int));
                if parse_unsigned(s, a, e, 255).is_none() {
                    return false;
                }
                a = e + 1;
            },
        }
    }
}

/// The address in `ip route get` output; see [`ip_address_spec`].
pub fn ip_address(output: &str) -> (r: Option<String>)
    ensures
        match r {
            Some(v) => ip_address_spec(output@) == Some(v@),
            None => ip_address_spec(output@) is None,
        },
{
    let s = chars_of(output);
    let n = s.len();
    let b = back_class(&s, 0, n, CharClass::Whitespace);
    let a = back_class(&s, 0, b, CharClass::NotWhitespace);
    proof {
        assert(s@.subrange(0, n as int) =~= s@);
        lemma_strip_end_range(s@, 0, n as int, CharClass::Whitespace);
        let t = s@.subrange(0, b as int);
        assert(t.skip(t.len() - trailing(t, CharClass::NotWhitespace)) =~= s@.subrange(
            a as int,
            b as int,
        ));
    }
    if b == 0 {
        return None;
    }
    if octets_range(&s, a, b) {
        Some(string_of_range(&s, a, b))
    } else {
        None
    }
}

} // verus!
