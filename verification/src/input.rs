//! The device's buttons, and how raw input events, as the kernel writes them, and the lid sensor
//! become key events.
use vstd::prelude::*;

verus! {

/// A button of the device, or the lid.
#[derive(Clone, Copy, Debug, PartialEq, Eq, Structural)]
pub enum Key {
    Up,
    Down,
    Left,
    Right,
    A,
    B,
    X,
    Y,
    Start,
    Select,
    L,
    R,
    Menu,
    L2,
    R2,
    Power,
    VolDown,
    VolUp,
    LidClose,
    Unknown,
}

/// How many keys there are, `Unknown` included.
pub const KEY_COUNT: usize = 20;

/// Each key's position in the declaration order.
pub open spec fn key_index(k: Key) -> usize {
    match k {
        Key::Up => 0,
        Key::Down => 1,
        Key::Left => 2,
        Key::Right => 3,
        Key::A => 4,
        Key::B => 5,
        Key::X => 6,
        Key::Y => 7,
        Key::Start => 8,
        Key::Select => 9,
        Key::L => 10,
        Key::R => 11,
        Key::Menu => 12,
        Key::L2 => 13,
        Key::R2 => 14,
        Key::Power => 15,
        Key::VolDown => 16,
        Key::VolUp => 17,
        Key::LidClose => 18,
        Key::Unknown => 19,
    }
}

/// Distinct keys sit at distinct positions, all below `KEY_COUNT`.
pub proof fn lemma_key_index(a: Key, b: Key)
    ensures
        key_index(a) < KEY_COUNT,
        key_index(a) == key_index(b) ==> a == b,
{
}

impl Key {
    /// This key's position in the declaration order.
    pub fn index(self) -> (i: usize)
        ensures
            i == key_index(self),
            i < KEY_COUNT,
    {
        match self {
            Key::Up => 0,
            Key::Down => 1,
            Key::Left => 2,
            Key::Right => 3,
            Key::A => 4,
            Key::B => 5,
            Key::X => 6,
            Key::Y => 7,
            Key::Start => 8,
            Key::Select => 9,
            Key::L => 10,
            Key::R => 11,
            Key::Menu => 12,
            Key::L2 => 13,
            Key::R2 => 14,
            Key::Power => 15,
            Key::VolDown => 16,
            Key::VolUp => 17,
            Key::LidClose => 18,
            Key::Unknown => 19,
        }
    }
}

/// Something that happened to a key.
#[derive(Clone, Copy, Debug, PartialEq, Eq, Structural)]
pub enum KeyEvent {
    Pressed(Key),
    Released(Key),
    Autorepeat(Key),
}

/// The key a Linux input event code stands for on this device: the d-pad on the arrow codes, the
/// face buttons on space, left control, left shift and left alt, Start on enter, Select on right
/// control, the shoulders on `E`, `T`, tab and backspace, Menu on escape, and power and volume on
/// their own codes. Any other code is `Unknown`.
pub open spec fn key_for_code(code: u16) -> Key {
    if code == 103 {
        Key::Up
    } else if code == 108 {
        Key::Down
    } else if code == 105 {
        Key::Left
    } else if code == 106 {
        Key::Right
    } else if code == 57 {
        Key::A
    } else if code == 29 {
        Key::B
    } else if code == 42 {
        Key::X
    } else if code == 56 {
        Key::Y
    } else if code == 28 {
        Key::Start
    } else if code == 97 {
        Key::Select
    } else if code == 18 {
        Key::L
    } else if code == 20 {
        Key::R
    } else if code == 1 {
        Key::Menu
    } else if code == 15 {
        Key::L2
    } else if code == 14 {
        Key::R2
    } else if code == 116 {
        Key::Power
    } else if code == 114 {
        Key::VolDown
    } else if code == 115 {
        Key::VolUp
    } else {
        Key::Unknown
    }
}

impl Key {
    /// The key for a Linux input event code; see [`key_for_code`].
    pub fn from_code(code: u16) -> (k: Key)
        ensures
            k == key_for_code(code),
    {
        match code {
            103 => Key::Up,
            108 => Key::Down,
            105 => Key::Left,
            106 => Key::Right,
            57 => Key::A,
            29 => Key::B,
            42 => Key::X,
            56 => Key::Y,
            28 => Key::Start,
            97 => Key::Select,
            18 => Key::L,
            20 => Key::R,
            1 => Key::Menu,
            15 => Key::L2,
            14 => Key::R2,
            116 => Key::Power,
            114 => Key::VolDown,
            115 => Key::VolUp,
            _ => Key::Unknown,
        }
    }
}

/// The key event a raw key event stands for: value 0 is a release, 1 a press and 2 an autorepeat.
/// An autorepeat that arrives stale, after a stall, is dropped so a held key does not fire a burst
/// once the reader catches up; presses and releases always pass, so the two stay paired.
pub fn decode_key_event(code: u16, value: i32, stale: bool) -> (r: Option<KeyEvent>)
    requires
        0 <= value <= 2,
    ensures
        r == if value == 2 && stale {
            None
        } else if value == 0 {
            Some(KeyEvent::Released(key_for_code(code)))
        } else if value == 1 {
            Some(KeyEvent::Pressed(key_for_code(code)))
        } else {
            Some(KeyEvent::Autorepeat(key_for_code(code)))
        },
{
    if value == 2 && stale {
        return None;
    }
    let key = Key::from_code(code);
    match value {
        0 => Some(KeyEvent::Released(key)),
        1 => Some(KeyEvent::Pressed(key)),
        _ => Some(KeyEvent::Autorepeat(key)),
    }
}

/// Turns readings of the lid's hall sensor into lid events: closing it is a press of
/// `LidClose`, opening it a release.
#[derive(Clone, Copy, Debug, PartialEq, Eq, Structural)]
pub struct LidSwitchPoller {
    pub is_lid_open: bool,
}

impl LidSwitchPoller {
    /// Starts from the first reading, or from open when the sensor could not be read: failing
    /// here would take the daemon down at startup, and the boot script answers that by rebooting.
    pub fn new(reading: Option<bool>) -> (p: LidSwitchPoller)
        ensures
            p.is_lid_open == match reading {
                Some(open) => open,
                None => true,
            },
    {
        LidSwitchPoller {
            is_lid_open: match reading {
                Some(open) => open,
                None => true,
            },
        }
    }

    /// The lid event a new reading stands for, if any. A failed reading is no change, so a real
    /// movement is picked up on the next pass instead.
    pub fn poll(&mut self, reading: Option<bool>) -> (r: Option<KeyEvent>)
        ensures
            match reading {
                Some(open) if open != old(self).is_lid_open => {
                    &&& final(self).is_lid_open == open
                    &&& r == Some(
                        if open {
                            KeyEvent::Released(Key::LidClose)
                        } else {
                            KeyEvent::Pressed(Key::LidClose)
                        },
                    )
                },
                _ => final(self).is_lid_open == old(self).is_lid_open && r is None,
            },
    {
        match reading {
            Some(open) => {
                if open != self.is_lid_open {
                    self.is_lid_open = open;
                    if open {
                        Some(KeyEvent::Released(Key::LidClose))
                    } else {
                        Some(KeyEvent::Pressed(Key::LidClose))
                    }
                } else {
                    None
                }
            },
            None => None,
        }
    }
}

/// The number little-endian bytes `b` stand for.
pub open spec fn le_value(b: Seq<u8>) -> nat
    decreases b.len(),
{
    if b.len() == 0 {
        0
    } else {
        (b[0] + 256 * le_value(b.drop_first())) as nat
    }
}

/// The signed 32-bit number an unsigned one's bits stand for.
pub open spec fn as_signed(u: nat) -> int {
    if u >= 0x8000_0000 {
        u - 0x1_0000_0000
    } else {
        u as int
    }
}

/// A kernel `input_event` as read from the device: when it happened, in seconds and
/// microseconds, and its type, code and value.
#[derive(Clone, Copy, Debug, PartialEq, Eq, Structural)]
pub struct InputEvent {
    pub secs: u64,
    pub micros: u64,
    pub event_type: u16,
    pub code: u16,
    pub value: i32,
}

/// The little-endian number in `bytes[lo..lo + n]`.
fn le_at(bytes: &[u8], lo: usize, n: usize) -> (r: u64)
    requires
        lo + n <= bytes@.len(),
        lo + n <= usize::MAX,
        n <= 8,
    ensures
        r == le_value(bytes@.subrange(lo as int, lo + n)),
    decreases n,
{
    if n == 0 {
        return 0;
    }
    let rest = le_at(bytes, lo + 1, n - 1);
    proof {
        let s = bytes@.subrange(lo as int, lo + n);
        assert(s.drop_first() =~= bytes@.subrange(lo + 1, lo + n));
        lemma_le_value_bound(s.drop_first());
        assert(rest < pow256((n - 1) as nat));
        lemma_pow256_step((n - 1) as nat);
    }
    bytes[lo] as u64 + 256 * rest
}

/// 256 to the `n`.
pub open spec fn pow256(n: nat) -> nat
    decreases n,
{
    if n == 0 {
        1
    } else {
        256 * pow256((n - 1) as nat)
    }
}

proof fn lemma_le_value_bound(b: Seq<u8>)
    ensures
        le_value(b) < pow256(b.len()),
    decreases b.len(),
{
    if b.len() > 0 {
        lemma_le_value_bound(b.drop_first());
    }
}

proof fn lemma_pow256_step(n: nat)
    requires
        n < 8,
    ensures
        256 * pow256(n) <= 0x1_0000_0000_0000_0000,
{
    reveal_with_fuel(pow256, 9);
    if n == 0 {
    } else if n == 1 {
    } else if n == 2 {
    } else if n == 3 {
    } else if n == 4 {
    } else if n == 5 {
    } else if n == 6 {
    } else {
    }
}

/// Reads a kernel `input_event`: a `timeval` of two C longs, `long` bytes each, then the type,
/// code and value, all little-endian. `None` when `bytes` is not exactly one event long.
pub fn parse_input_event(bytes: &[u8], long: usize) -> (r: Option<InputEvent>)
    requires
        long == 4 || long == 8,
    ensures
        (r is Some) == (bytes@.len() == 2 * long + 8),
        r matches Some(e) ==> {
            &&& e.secs == le_value(bytes@.subrange(0, long as int))
            &&& e.micros == le_value(bytes@.subrange(long as int, 2 * long))
            &&& e.event_type == le_value(bytes@.subrange(2 * long, 2 * long + 2))
            &&& e.code == le_value(bytes@.subrange(2 * long + 2, 2 * long + 4))
            &&& e.value == as_signed(le_value(bytes@.subrange(2 * long + 4, 2 * long + 8)))
        },
{
    if bytes.len() != 2 * long + 8 {
        return None;
    }
    let secs = le_at(bytes, 0, long);
    let micros = le_at(bytes, long, long);
    let event_type = le_at(bytes, 2 * long, 2);
    let code = le_at(bytes, 2 * long + 2, 2);
    let raw = le_at(bytes, 2 * long + 4, 4);
    proof {
        lemma_le_value_bound(bytes@.subrange(2 * long, 2 * long + 2));
        lemma_le_value_bound(bytes@.subrange(2 * long + 2, 2 * long + 4));
        lemma_le_value_bound(bytes@.subrange(2 * long + 4, 2 * long + 8));
        reveal_with_fuel(pow256, 5);
    }
    let value: i32 = if raw >= 0x8000_0000 {
        (raw as i64 - 0x1_0000_0000) as i32
    } else {
        raw as i32
    };
    Some(InputEvent { secs, micros, event_type: event_type as u16, code: code as u16, value })
}

/// How old, in microseconds, an autorepeat may be when it is read before it counts as stale.
pub const MAXIMUM_FRAME_TIME_US: u64 = 100_000;

/// Whether an event from time `event_us` is stale at `now_us`, both in microseconds: older than
/// a frame. An event stamped after `now_us` is not.
pub fn is_stale(event_us: u64, now_us: u64) -> (r: bool)
    ensures
        r == (now_us > event_us && now_us - event_us > MAXIMUM_FRAME_TIME_US),
{
    now_us > event_us && now_us - event_us > MAXIMUM_FRAME_TIME_US
}

/// The kernel's event type for keys.
pub const EV_KEY: u16 = 1;

/// An input event as the kernel reports it, and whether it is older than a frame by the time it
/// is read.
#[derive(Clone, Copy, Debug, PartialEq, Eq, Structural)]
pub struct RawEvent {
    pub event_type: u16,
    pub code: u16,
    pub value: i32,
    pub stale: bool,
}

/// The device's keys: the input device's events, and, on a device with a lid, its hall sensor.
pub struct EvdevKeys {
    pub lid_switch_poller: Option<LidSwitchPoller>,
}

impl EvdevKeys {
    /// The keys of a device, with a lid poller started from `lid_reading` only when it has a lid.
    pub fn new(has_lid: bool, lid_reading: Option<bool>) -> (k: EvdevKeys)
        ensures
            has_lid ==> k.lid_switch_poller == Some(
                LidSwitchPoller {
                    is_lid_open: match lid_reading {
                        Some(open) => open,
                        None => true,
                    },
                },
            ),
            !has_lid ==> k.lid_switch_poller is None,
    {
        EvdevKeys {
            lid_switch_poller: if has_lid {
                Some(LidSwitchPoller::new(lid_reading))
            } else {
                None
            },
        }
    }

    /// The lid event the sensor's `reading` stands for, checked before each wait for input; see
    /// [`LidSwitchPoller::poll`]. Without a lid there is none.
    pub fn poll_lid(&mut self, reading: Option<bool>) -> (r: Option<KeyEvent>)
        ensures
            match old(self).lid_switch_poller {
                None => r is None && final(self).lid_switch_poller is None,
                Some(p) => match reading {
                    Some(open) if open != p.is_lid_open => {
                        &&& final(self).lid_switch_poller == Some(LidSwitchPoller { is_lid_open: open })
                        &&& r == Some(
                            if open {
                                KeyEvent::Released(Key::LidClose)
                            } else {
                                KeyEvent::Pressed(Key::LidClose)
                            },
                        )
                    },
                    _ => final(self).lid_switch_poller == Some(p) && r is None,
                },
            },
    {
        match &mut self.lid_switch_poller {
            Some(p) => p.poll(reading),
            None => None,
        }
    }

    /// The key event an input event stands for: only key events count, and a stale autorepeat is
    /// dropped; see [`decode_key_event`]. `None` means waiting on.
    pub fn key_event(raw: RawEvent) -> (r: Option<KeyEvent>)
        requires
            raw.event_type == EV_KEY ==> 0 <= raw.value <= 2,
        ensures
            raw.event_type != EV_KEY ==> r is None,
            raw.event_type == EV_KEY ==> r == if raw.value == 2 && raw.stale {
                None
            } else if raw.value == 0 {
                Some(KeyEvent::Released(key_for_code(raw.code)))
            } else if raw.value == 1 {
                Some(KeyEvent::Pressed(key_for_code(raw.code)))
            } else {
                Some(KeyEvent::Autorepeat(key_for_code(raw.code)))
            },
    {
        if raw.event_type == EV_KEY {
            decode_key_event(raw.code, raw.value, raw.stale)
        } else {
            None
        }
    }
}

/// Whether a sensor reading says the lid is open: its first byte is the digit one.
pub fn lid_reading_is_open(first_byte: u8) -> (r: bool)
    ensures
        r == (first_byte == 49),
{
    first_byte == 49
}


/// Linux's `KEY_ESC` key code.
pub const KEY_ESC: u16 = 1;
/// Linux's `KEY_BACKSPACE` key code.
pub const KEY_BACKSPACE: u16 = 14;
/// Linux's `KEY_TAB` key code.
pub const KEY_TAB: u16 = 15;
/// Linux's `KEY_E` key code.
pub const KEY_E: u16 = 18;
/// Linux's `KEY_T` key code.
pub const KEY_T: u16 = 20;
/// Linux's `KEY_ENTER` key code.
pub const KEY_ENTER: u16 = 28;
/// Linux's `KEY_LEFTCTRL` key code.
pub const KEY_LEFTCTRL: u16 = 29;
/// Linux's `KEY_LEFTSHIFT` key code.
pub const KEY_LEFTSHIFT: u16 = 42;
/// Linux's `KEY_LEFTALT` key code.
pub const KEY_LEFTALT: u16 = 56;
/// Linux's `KEY_SPACE` key code.
pub const KEY_SPACE: u16 = 57;
/// Linux's `KEY_RIGHTCTRL` key code.
pub const KEY_RIGHTCTRL: u16 = 97;
/// Linux's `KEY_UP` key code.
pub const KEY_UP: u16 = 103;
/// Linux's `KEY_LEFT` key code.
pub const KEY_LEFT: u16 = 105;
/// Linux's `KEY_RIGHT` key code.
pub const KEY_RIGHT: u16 = 106;
/// Linux's `KEY_DOWN` key code.
pub const KEY_DOWN: u16 = 108;
/// Linux's `KEY_VOLUMEDOWN` key code.
pub const KEY_VOLUMEDOWN: u16 = 114;
/// Linux's `KEY_VOLUMEUP` key code.
pub const KEY_VOLUMEUP: u16 = 115;
/// Linux's `KEY_POWER` key code.
pub const KEY_POWER: u16 = 116;

/// The handheld's evdev layout, by the names Linux gives the codes: the d-pad on the arrow keys,
/// A on space, B on left control, X on left shift, Y on left alt, Start on enter, Select on right
/// control, L and R on `E` and `T`, L2 on tab, R2 on backspace, Menu on escape, and power and
/// volume on their own keys. Exactly these codes name a button, and the lid is never one.
pub proof fn lemma_evdev_layout(code: u16)
    ensures
        key_for_code(KEY_ESC) == Key::Menu,
        key_for_code(KEY_BACKSPACE) == Key::R2,
        key_for_code(KEY_TAB) == Key::L2,
        key_for_code(KEY_E) == Key::L,
        key_for_code(KEY_T) == Key::R,
        key_for_code(KEY_ENTER) == Key::Start,
        key_for_code(KEY_LEFTCTRL) == Key::B,
        key_for_code(KEY_LEFTSHIFT) == Key::X,
        key_for_code(KEY_LEFTALT) == Key::Y,
        key_for_code(KEY_SPACE) == Key::A,
        key_for_code(KEY_RIGHTCTRL) == Key::Select,
        key_for_code(KEY_UP) == Key::Up,
        key_for_code(KEY_LEFT) == Key::Left,
        key_for_code(KEY_RIGHT) == Key::Right,
        key_for_code(KEY_DOWN) == Key::Down,
        key_for_code(KEY_VOLUMEDOWN) == Key::VolDown,
        key_for_code(KEY_VOLUMEUP) == Key::VolUp,
        key_for_code(KEY_POWER) == Key::Power,
        key_for_code(code) != Key::Unknown <==> (code == KEY_ESC || code == KEY_BACKSPACE || code == KEY_TAB || code == KEY_E || code == KEY_T || code == KEY_ENTER || code == KEY_LEFTCTRL || code == KEY_LEFTSHIFT || code == KEY_LEFTALT || code == KEY_SPACE || code == KEY_RIGHTCTRL || code == KEY_UP || code == KEY_LEFT || code == KEY_RIGHT || code == KEY_DOWN || code == KEY_VOLUMEDOWN || code == KEY_VOLUMEUP || code == KEY_POWER),
        key_for_code(code) != Key::LidClose,
{
}

} // verus!
