//! The daemon's decisions: what each key does, volume and brightness steps, when to sleep, power
//! off or pause a crashing launcher. The daemon itself performs what these decide.
use vstd::prelude::*;

use crate::display_settings::DisplaySettings;
use crate::input::{key_index, Key, KeyEvent, KEY_COUNT};
use crate::power::{ChargingBootAction, PowerButtonAction, PowerSettings, VolumeOnStartup};
use crate::text::str_eq;

verus! {

/// The volume scale is `0..=MAX_VOLUME`.
pub const MAX_VOLUME: i32 = 20;

/// The brightness scale is `0..=MAX_BRIGHTNESS` percent.
pub const MAX_BRIGHTNESS: u8 = 100;

/// At or below this charge, and not charging, the battery light blinks.
pub const BATTERY_WARNING_THRESHOLD: i32 = 15;

/// At or below this charge, and not charging, the device shuts down.
pub const BATTERY_SHUTDOWN_THRESHOLD: i32 = 5;

/// Child exits within this many milliseconds count toward the crash-loop guard...
pub const CRASH_LOOP_WINDOW_MS: u64 = 10_000;

/// ...and this many of them mean the launcher is not coming up: pause before the next attempt.
pub const CRASH_LOOP_EXITS: usize = 3;

/// What the daemon keeps across reboots: when it last shut down, in seconds since the epoch, and
/// the volume and brightness it left.
#[derive(Clone, Copy, Debug, PartialEq, Eq, Structural)]
pub struct AlliumDState {
    pub time: i64,
    pub volume: i32,
    pub brightness: u8,
}

impl AlliumDState {
    /// A fresh state at time `now`: volume 20, brightness 50.
    pub fn new(now: i64) -> (s: AlliumDState)
        ensures
            s == (AlliumDState { time: now, volume: 20, brightness: 50 }),
    {
        AlliumDState { time: now, volume: 20, brightness: 50 }
    }

    /// The state to start from given what was read from disk at time `now`.
    pub fn load(stored: Option<AlliumDState>, now: i64) -> (s: AlliumDState)
        ensures
            s == match stored {
                Some(st) => st,
                None => AlliumDState { time: now, volume: 20, brightness: 50 },
            },
    {
        match stored {
            Some(st) => st,
            None => AlliumDState::new(now),
        }
    }

    /// Whether the clock is behind the time last saved: the real-time clock did not keep time,
    /// so the system clock is set forward to the saved time.
    pub fn clock_is_behind(&self, now: i64) -> (r: bool)
        ensures
            r == (now < self.time),
    {
        now < self.time
    }
}

/// `v` brought into `lo..=hi`.
pub open spec fn clamp(v: int, lo: int, hi: int) -> int {
    if v < lo {
        lo
    } else if v > hi {
        hi
    } else {
        v
    }
}

/// The volume after a step of `add` from `volume`.
pub open spec fn stepped_volume(volume: i32, add: i32) -> i32 {
    clamp(volume + add, 0, MAX_VOLUME as int) as i32
}

/// The brightness after a step of `add` from `brightness`: the sum is taken in the signed byte
/// the stored brightness is read back as.
pub open spec fn stepped_brightness(brightness: u8, add: i8) -> u8 {
    clamp((brightness as i8) + add, 0, MAX_BRIGHTNESS as int) as u8
}

/// What the daemon is to do about a key event.
#[derive(Clone, Copy, Debug, PartialEq, Eq, Structural)]
pub enum DaemonAction {
    Nothing,
    /// Show and apply this brightness.
    SetBrightness(u8),
    /// Show and apply this volume.
    SetVolume(i32),
    /// Move on to the next display profile.
    RotateDisplayProfile,
    /// Save a screenshot.
    Screenshot,
    /// Save state and power off.
    Quit,
    /// Suspend until woken.
    Suspend,
    /// Open the in-game menu, if the running game has one.
    OpenMenu,
}

/// What the power button or the lid does, as an action.
pub open spec fn button_action(a: PowerButtonAction) -> DaemonAction {
    match a {
        PowerButtonAction::Suspend => DaemonAction::Suspend,
        PowerButtonAction::Shutdown => DaemonAction::Quit,
        PowerButtonAction::Nothing => DaemonAction::Nothing,
    }
}

/// Whether `e` is a press or an autorepeat of `k`.
pub open spec fn pressed_or_repeated(e: KeyEvent, k: Key) -> bool {
    e == KeyEvent::Pressed(k) || e == KeyEvent::Autorepeat(k)
}

/// Which keys are down after `e`: a press puts its key down and a release lifts it; an
/// autorepeat changes nothing.
pub open spec fn keys_after(keys: Seq<bool>, e: KeyEvent) -> Seq<bool> {
    match e {
        KeyEvent::Pressed(k) => keys.update(key_index(k) as int, true),
        KeyEvent::Released(k) => keys.update(key_index(k) as int, false),
        KeyEvent::Autorepeat(_) => keys,
    }
}

/// Whether Menu is down with nothing else held.
pub open spec fn only_menu_held(keys: Seq<bool>) -> bool {
    forall|i: int| 0 <= i < KEY_COUNT && i != key_index(Key::Menu) ==> !#[trigger] keys[i]
}

/// What an event does with Menu held: the global hotkeys. Up or volume up brightens, down or
/// volume down dims, left and right step the volume, Select rotates the display profile, and
/// releasing Power takes a screenshot.
pub open spec fn hotkey_action(e: KeyEvent, volume: i32, brightness: u8) -> DaemonAction {
    if pressed_or_repeated(e, Key::Up) || pressed_or_repeated(e, Key::VolUp) {
        DaemonAction::SetBrightness(stepped_brightness(brightness, 5i8))
    } else if pressed_or_repeated(e, Key::Down) || pressed_or_repeated(e, Key::VolDown) {
        DaemonAction::SetBrightness(stepped_brightness(brightness, -5i8))
    } else if pressed_or_repeated(e, Key::Left) {
        DaemonAction::SetVolume(stepped_volume(volume, -1i32))
    } else if pressed_or_repeated(e, Key::Right) {
        DaemonAction::SetVolume(stepped_volume(volume, 1i32))
    } else if e == KeyEvent::Pressed(Key::Select) {
        DaemonAction::RotateDisplayProfile
    } else if e == KeyEvent::Released(Key::Power) {
        DaemonAction::Screenshot
    } else {
        DaemonAction::Nothing
    }
}

/// What an event does without Menu held: the volume keys step the volume, holding Power powers
/// off, releasing it and closing the lid do what the settings say, and Menu released on its own
/// opens the in-game menu when a game is running, the menu is not already open and no other key
/// is held.
pub open spec fn plain_action(
    e: KeyEvent,
    keys: Seq<bool>,
    alone: bool,
    menu_open: bool,
    ingame: bool,
    settings: PowerSettings,
    volume: i32,
) -> DaemonAction {
    if pressed_or_repeated(e, Key::VolDown) {
        DaemonAction::SetVolume(stepped_volume(volume, -1i32))
    } else if pressed_or_repeated(e, Key::VolUp) {
        DaemonAction::SetVolume(stepped_volume(volume, 1i32))
    } else if e == KeyEvent::Autorepeat(Key::Power) {
        DaemonAction::Quit
    } else if e == KeyEvent::Released(Key::Power) {
        button_action(settings.power_button_action)
    } else if e == KeyEvent::Pressed(Key::LidClose) {
        button_action(settings.lid_close_action)
    } else if e == KeyEvent::Released(Key::Menu) && alone && !menu_open && ingame
        && only_menu_held(keys) {
        DaemonAction::OpenMenu
    } else {
        DaemonAction::Nothing
    }
}

/// The hotkeys step the levels by what they promise: with Menu held, Right raises the volume by
/// one and Left lowers it by one, Up or volume up brightens by five and Down or volume down dims
/// by five; without Menu the volume keys raise and lower the volume by one. Each stops at the end
/// of its scale, and a press and an autorepeat do the same.
pub proof fn lemma_hotkeys_step_levels(
    e: KeyEvent,
    keys: Seq<bool>,
    alone: bool,
    menu_open: bool,
    ingame: bool,
    settings: PowerSettings,
    volume: i32,
    brightness: u8,
)
    requires
        0 <= volume <= MAX_VOLUME,
        brightness <= MAX_BRIGHTNESS,
    ensures
        (e == KeyEvent::Pressed(Key::Right) || e == KeyEvent::Autorepeat(Key::Right)) ==> hotkey_action(
            e,
            volume,
            brightness,
        ) == DaemonAction::SetVolume(if volume < 20 { (volume + 1) as i32 } else { 20i32 }),
        (e == KeyEvent::Pressed(Key::Left) || e == KeyEvent::Autorepeat(Key::Left)) ==> hotkey_action(
            e,
            volume,
            brightness,
        ) == DaemonAction::SetVolume(if volume > 0 { (volume - 1) as i32 } else { 0i32 }),
        (e == KeyEvent::Pressed(Key::Up) || e == KeyEvent::Autorepeat(Key::Up) || e == KeyEvent::Pressed(
            Key::VolUp,
        ) || e == KeyEvent::Autorepeat(Key::VolUp)) ==> hotkey_action(e, volume, brightness)
            == DaemonAction::SetBrightness(if brightness <= 95 { (brightness + 5) as u8 } else { 100 }),
        (e == KeyEvent::Pressed(Key::Down) || e == KeyEvent::Autorepeat(Key::Down)
            || e == KeyEvent::Pressed(Key::VolDown) || e == KeyEvent::Autorepeat(Key::VolDown))
            ==> hotkey_action(e, volume, brightness) == DaemonAction::SetBrightness(
            if brightness >= 5 { (brightness - 5) as u8 } else { 0 },
        ),
        (e == KeyEvent::Pressed(Key::VolUp) || e == KeyEvent::Autorepeat(Key::VolUp)) ==> plain_action(
            e,
            keys,
            alone,
            menu_open,
            ingame,
            settings,
            volume,
        ) == DaemonAction::SetVolume(if volume < 20 { (volume + 1) as i32 } else { 20i32 }),
        (e == KeyEvent::Pressed(Key::VolDown) || e == KeyEvent::Autorepeat(Key::VolDown)) ==> plain_action(
            e,
            keys,
            alone,
            menu_open,
            ingame,
            settings,
            volume,
        ) == DaemonAction::SetVolume(if volume > 0 { (volume - 1) as i32 } else { 0i32 }),
{
    assert((brightness as i8) == brightness as int);
}

/// The volume and brightness a key event sets stay on their scales: whatever the event, a step
/// from a level within `0..=MAX_VOLUME` or `0..=MAX_BRIGHTNESS` lands within it again.
pub proof fn lemma_levels_stay_on_scale(
    e: KeyEvent,
    keys: Seq<bool>,
    alone: bool,
    menu_open: bool,
    ingame: bool,
    settings: PowerSettings,
    volume: i32,
    brightness: u8,
)
    requires
        0 <= volume <= MAX_VOLUME,
        brightness <= MAX_BRIGHTNESS,
    ensures
        match hotkey_action(e, volume, brightness) {
            DaemonAction::SetVolume(v) => 0 <= v <= MAX_VOLUME,
            DaemonAction::SetBrightness(b) => b <= MAX_BRIGHTNESS,
            _ => true,
        },
        match plain_action(e, keys, alone, menu_open, ingame, settings, volume) {
            DaemonAction::SetVolume(v) => 0 <= v <= MAX_VOLUME,
            DaemonAction::SetBrightness(b) => b <= MAX_BRIGHTNESS,
            _ => true,
        },
{
    assert((brightness as i8) == brightness as int);
}

/// Whether the step an event takes stays within the integers it is taken in: a brightness step
/// (Menu held, with up or down) within the signed byte the stored brightness is read back as, and
/// a volume step (Menu held with left or right, or the volume keys alone) within `i32`. An event
/// that takes no step asks nothing of either.
pub open spec fn steps_in_range(keys: Seq<bool>, e: KeyEvent, volume: i32, brightness: u8) -> bool {
    if keys[key_index(Key::Menu) as int] {
        &&& (pressed_or_repeated(e, Key::Up) || pressed_or_repeated(e, Key::VolUp)) ==> (brightness as i8)
            <= 122
        &&& (pressed_or_repeated(e, Key::Down) || pressed_or_repeated(e, Key::VolDown)) ==> (
        brightness as i8) >= -123
        &&& pressed_or_repeated(e, Key::Left) ==> volume >= i32::MIN + 1
        &&& pressed_or_repeated(e, Key::Right) ==> volume <= i32::MAX - 1
    } else {
        &&& pressed_or_repeated(e, Key::VolDown) ==> volume >= i32::MIN + 1
        &&& pressed_or_repeated(e, Key::VolUp) ==> volume <= i32::MAX - 1
    }
}

/// The daemon's own state: which keys are down, whether Menu has been pressed with nothing
/// after it, whether the in-game menu is open, the volume and brightness, and the power settings.
pub struct AlliumD {
    pub keys: Vec<bool>,
    pub is_menu_pressed_alone: bool,
    pub menu_open: bool,
    pub state: AlliumDState,
    pub power_settings: PowerSettings,
}

impl AlliumD {
    /// Which keys are down, by `key_index`.
    pub open spec fn keys(&self) -> Seq<bool> {
        self.keys@
    }

    pub open spec fn wf(&self) -> bool {
        self.keys@.len() == KEY_COUNT
    }

    /// Starts with the keys found down at startup. Holding volume down mutes; otherwise the
    /// volume is restored or muted as the settings say.
    pub fn new(state: AlliumDState, power_settings: PowerSettings, keys: Vec<bool>) -> (d: AlliumD)
        requires
            keys@.len() == KEY_COUNT,
        ensures
            d.wf(),
            d.keys() == keys@,
            !d.is_menu_pressed_alone,
            !d.menu_open,
            d.power_settings == power_settings,
            d.state.time == state.time,
            d.state.brightness == state.brightness,
            d.state.volume == if keys@[key_index(Key::VolDown) as int] {
                0
            } else {
                match power_settings.volume_on_startup {
                    VolumeOnStartup::Muted => 0,
                    VolumeOnStartup::Restore => state.volume,
                }
            },
    {
        let mut state = state;
        state.volume = if keys[Key::VolDown.index()] {
            0
        } else {
            match power_settings.volume_on_startup {
                VolumeOnStartup::Muted => 0,
                VolumeOnStartup::Restore => state.volume,
            }
        };
        AlliumD { keys, is_menu_pressed_alone: false, menu_open: false, state, power_settings }
    }

    /// Whether a key is down.
    pub fn is_pressed(&self, k: Key) -> (r: bool)
        requires
            self.wf(),
        ensures
            r == self.keys()[key_index(k) as int],
    {
        self.keys[k.index()]
    }

    /// Whether resuming the last game is skipped: Menu or B held at startup.
    pub fn bypass_resume(&self) -> (r: bool)
        requires
            self.wf(),
        ensures
            r == (self.keys()[key_index(Key::Menu) as int] || self.keys()[key_index(Key::B) as int]),
    {
        self.keys[Key::Menu.index()] || self.keys[Key::B.index()]
    }

    fn set_key(&mut self, k: Key, down: bool)
        requires
            old(self).wf(),
        ensures
            final(self).wf(),
            final(self).keys() == old(self).keys().update(key_index(k) as int, down),
            final(self).is_menu_pressed_alone == old(self).is_menu_pressed_alone,
            final(self).menu_open == old(self).menu_open,
            final(self).state == old(self).state,
            final(self).power_settings == old(self).power_settings,
    {
        let i = k.index();
        self.keys.set(i, down);
    }

    /// Steps the volume by `add`, within `0..=MAX_VOLUME`, and returns it.
    pub fn add_volume(&mut self, add: i32) -> (v: i32)
        requires
            i32::MIN <= old(self).state.volume + add <= i32::MAX,
        ensures
            v == stepped_volume(old(self).state.volume, add),
            0 <= v <= MAX_VOLUME,
            final(self).state == (AlliumDState { volume: v, ..old(self).state }),
            final(self).keys() == old(self).keys(),
            final(self).is_menu_pressed_alone == old(self).is_menu_pressed_alone,
            final(self).menu_open == old(self).menu_open,
            final(self).power_settings == old(self).power_settings,
    {
        let sum = self.state.volume + add;
        let v = if sum < 0 {
            0
        } else if sum > MAX_VOLUME {
            MAX_VOLUME
        } else {
            sum
        };
        self.state.volume = v;
        v
    }

    /// Steps the brightness by `add`, within `0..=MAX_BRIGHTNESS`, and returns it.
    pub fn add_brightness(&mut self, add: i8) -> (b: u8)
        requires
            i8::MIN <= (old(self).state.brightness as i8) + add <= i8::MAX,
        ensures
            b == stepped_brightness(old(self).state.brightness, add),
            b <= MAX_BRIGHTNESS,
            final(self).state == (AlliumDState { brightness: b, ..old(self).state }),
            final(self).keys() == old(self).keys(),
            final(self).is_menu_pressed_alone == old(self).is_menu_pressed_alone,
            final(self).menu_open == old(self).menu_open,
            final(self).power_settings == old(self).power_settings,
    {
        let sum: i8 = (self.state.brightness as i8) + add;
        let b: u8 = if sum < 0 {
            0
        } else if sum > 100 {
            MAX_BRIGHTNESS
        } else {
            sum as u8
        };
        self.state.brightness = b;
        b
    }

    /// Takes in a key event, with `ingame` saying whether a game is running, and says what to do.
    ///
    /// Pressing Menu starts a press "alone", which any other press ends. The pressed keys are
    /// updated before anything is decided, so Menu counts as held for the event that presses
    /// it. With Menu held the global hotkeys apply; without it, see [`plain_action`]. Releasing
    /// Menu on its own always ends the press alone.
    pub fn handle_key_event(&mut self, event: KeyEvent, ingame: bool) -> (a: DaemonAction)
        requires
            old(self).wf(),
            steps_in_range(
                keys_after(old(self).keys(), event),
                event,
                old(self).state.volume,
                old(self).state.brightness,
            ),
        ensures
            final(self).wf(),
            final(self).keys() == keys_after(old(self).keys(), event),
            final(self).menu_open == old(self).menu_open,
            final(self).power_settings == old(self).power_settings,
            a == if final(self).keys()[key_index(Key::Menu) as int] {
                hotkey_action(event, old(self).state.volume, old(self).state.brightness)
            } else {
                plain_action(
                    event,
                    final(self).keys(),
                    match event {
                        KeyEvent::Pressed(k) => k == Key::Menu,
                        _ => old(self).is_menu_pressed_alone,
                    },
                    old(self).menu_open,
                    ingame,
                    old(self).power_settings,
                    old(self).state.volume,
                )
            },
            final(self).is_menu_pressed_alone == match event {
                KeyEvent::Pressed(k) => k == Key::Menu,
                KeyEvent::Released(Key::Menu) => false,
                _ => old(self).is_menu_pressed_alone,
            },
            final(self).state == match a {
                DaemonAction::SetVolume(v) => AlliumDState { volume: v, ..old(self).state },
                DaemonAction::SetBrightness(b) => AlliumDState {
                    brightness: b,
                    ..old(self).state
                },
                _ => old(self).state,
            },
    {
        match event {
            KeyEvent::Pressed(k) => {
                self.is_menu_pressed_alone = k == Key::Menu;
                self.set_key(k, true);
            },
            KeyEvent::Released(k) => {
                self.set_key(k, false);
            },
            KeyEvent::Autorepeat(_) => {},
        }
        if self.keys[Key::Menu.index()] {
            if event == KeyEvent::Pressed(Key::Up) || event == KeyEvent::Autorepeat(Key::Up)
                || event == KeyEvent::Pressed(Key::VolUp) || event == KeyEvent::Autorepeat(
                Key::VolUp,
            ) {
                DaemonAction::SetBrightness(self.add_brightness(5))
            } else if event == KeyEvent::Pressed(Key::Down) || event == KeyEvent::Autorepeat(
                Key::Down,
            ) || event == KeyEvent::Pressed(Key::VolDown) || event == KeyEvent::Autorepeat(
                Key::VolDown,
            ) {
                DaemonAction::SetBrightness(self.add_brightness(-5))
            } else if event == KeyEvent::Pressed(Key::Left) || event == KeyEvent::Autorepeat(
                Key::Left,
            ) {
                DaemonAction::SetVolume(self.add_volume(-1))
            } else if event == KeyEvent::Pressed(Key::Right) || event == KeyEvent::Autorepeat(
                Key::Right,
            ) {
                DaemonAction::SetVolume(self.add_volume(1))
            } else if event == KeyEvent::Pressed(Key::Select) {
                DaemonAction::RotateDisplayProfile
            } else if event == KeyEvent::Released(Key::Power) {
                DaemonAction::Screenshot
            } else {
                DaemonAction::Nothing
            }
        } else {
            if event == KeyEvent::Pressed(Key::VolDown) || event == KeyEvent::Autorepeat(
                Key::VolDown,
            ) {
                DaemonAction::SetVolume(self.add_volume(-1))
            } else if event == KeyEvent::Pressed(Key::VolUp) || event == KeyEvent::Autorepeat(
                Key::VolUp,
            ) {
                DaemonAction::SetVolume(self.add_volume(1))
            } else if event == KeyEvent::Autorepeat(Key::Power) {
                DaemonAction::Quit
            } else if event == KeyEvent::Released(Key::Power) {
                action_for_button(self.power_settings.power_button_action)
            } else if event == KeyEvent::Pressed(Key::LidClose) {
                action_for_button(self.power_settings.lid_close_action)
            } else if event == KeyEvent::Released(Key::Menu) && self.is_menu_pressed_alone {
                let open = !self.menu_open && ingame && self.only_menu_held();
                self.is_menu_pressed_alone = false;
                if open {
                    DaemonAction::OpenMenu
                } else {
                    DaemonAction::Nothing
                }
            } else {
                if event == KeyEvent::Released(Key::Menu) {
                    self.is_menu_pressed_alone = false;
                }
                DaemonAction::Nothing
            }
        }
    }

    /// Whether Menu is down with nothing else held.
    fn only_menu_held(&self) -> (r: bool)
        requires
            self.wf(),
        ensures
            r == only_menu_held(self.keys()),
    {
        let menu = Key::Menu.index();
        let mut i: usize = 0;
        while i < KEY_COUNT
            invariant
                self.wf(),
                menu == key_index(Key::Menu),
                i <= KEY_COUNT,
                forall|j: int| 0 <= j < i && j != menu ==> !#[trigger] self.keys()[j],
            decreases KEY_COUNT - i,
        {
            if i != menu && self.keys[i] {
                return false;
            }
            i += 1;
        }
        true
    }

    /// The in-game menu has been opened.
    pub fn menu_opened(&mut self)
        ensures
            final(self).menu_open,
            final(self).keys() == old(self).keys(),
            final(self).is_menu_pressed_alone == old(self).is_menu_pressed_alone,
            final(self).state == old(self).state,
            final(self).power_settings == old(self).power_settings,
    {
        self.menu_open = true;
    }

    /// The in-game menu has closed: the game resumes, and the Menu press that opened it is over.
    pub fn menu_closed(&mut self)
        ensures
            !final(self).menu_open,
            !final(self).is_menu_pressed_alone,
            final(self).keys() == old(self).keys(),
            final(self).state == old(self).state,
            final(self).power_settings == old(self).power_settings,
    {
        self.menu_open = false;
        self.is_menu_pressed_alone = false;
    }

    /// Moves the panel on to the next display profile, wrapping, and the backlight to that
    /// profile's own brightness. Returns the new profile's index; `settings` is what to save and
    /// apply.
    pub fn rotate_display_profile(&mut self, settings: &mut DisplaySettings) -> (r: usize)
        requires
            old(settings).wf(),
        ensures
            final(settings).wf(),
            r == final(settings).active,
            r == (old(settings).active + 1) % (old(settings).profiles.len() as int),
            final(settings).profiles == old(settings).profiles,
            final(self).state.brightness == final(settings).profiles[r as int].brightness,
            final(self).state.volume == old(self).state.volume,
            final(self).state.time == old(self).state.time,
            final(self).keys() == old(self).keys(),
            final(self).is_menu_pressed_alone == old(self).is_menu_pressed_alone,
            final(self).menu_open == old(self).menu_open,
            final(self).power_settings == old(self).power_settings,
    {
        let active = settings.rotate();
        self.state.brightness = settings.profiles[active].brightness;
        active
    }

    /// Back from suspend: the power button or lid that woke the device counts as released.
    pub fn woke_from_suspend(&mut self)
        requires
            old(self).wf(),
        ensures
            final(self).wf(),
            final(self).keys() == old(self).keys().update(key_index(Key::Power) as int, false).update(
                key_index(Key::LidClose) as int,
                false,
            ),
            final(self).menu_open == old(self).menu_open,
            final(self).is_menu_pressed_alone == old(self).is_menu_pressed_alone,
            final(self).state == old(self).state,
            final(self).power_settings == old(self).power_settings,
    {
        self.set_key(Key::Power, false);
        self.set_key(Key::LidClose, false);
    }

    /// The configured charging boot action, falling back to charging silently where the board
    /// cannot power off: there, shutting down would reboot straight back into charging.
    pub fn charging_boot_action(&self, can_power_off: bool) -> (a: ChargingBootAction)
        ensures
            a == if self.power_settings.charging_boot_action == ChargingBootAction::PowerOff
                && !can_power_off {
                ChargingBootAction::ChargeSilently
            } else {
                self.power_settings.charging_boot_action
            },
    {
        let action = self.power_settings.charging_boot_action;
        if action == ChargingBootAction::PowerOff && !can_power_off {
            ChargingBootAction::ChargeSilently
        } else {
            action
        }
    }

    /// How many idle seconds before the device sleeps, or `None` when auto-sleep is off.
    pub fn auto_sleep_seconds(&self) -> (r: Option<u64>)
        requires
            self.power_settings.auto_sleep_duration_minutes >= 0,
        ensures
            r == if self.power_settings.auto_sleep_duration_minutes == 0 {
                None
            } else {
                Some((self.power_settings.auto_sleep_duration_minutes * 60) as u64)
            },
    {
        let minutes = self.power_settings.auto_sleep_duration_minutes;
        if minutes == 0 {
            None
        } else {
            Some(minutes as u64 * 60)
        }
    }

    /// Whether an idle timeout powers the device off: not while charging if the settings say so,
    /// and never while the stay-awake marker exists.
    pub fn idle_timeout_quits(&self, charging: bool, stay_awake: bool) -> (r: bool)
        ensures
            r == !((!self.power_settings.auto_sleep_when_charging && charging) || stay_awake),
    {
        if !self.power_settings.auto_sleep_when_charging && charging {
            false
        } else if stay_awake {
            false
        } else {
            true
        }
    }

    /// How many seconds a suspended device waits before powering off, or `None` for never. Any
    /// value at or below zero means never, so a hand-edited negative does not power off at once.
    pub fn suspend_shutdown_seconds(&self) -> (r: Option<u64>)
        ensures
            r == if self.power_settings.suspend_shutdown_minutes <= 0 {
                None
            } else {
                Some((self.power_settings.suspend_shutdown_minutes * 60) as u64)
            },
    {
        let minutes = self.power_settings.suspend_shutdown_minutes;
        if minutes <= 0 {
            None
        } else {
            Some(minutes as u64 * 60)
        }
    }
}

fn action_for_button(a: PowerButtonAction) -> (r: DaemonAction)
    ensures
        r == button_action(a),
{
    match a {
        PowerButtonAction::Suspend => DaemonAction::Suspend,
        PowerButtonAction::Shutdown => DaemonAction::Quit,
        PowerButtonAction::Nothing => DaemonAction::Nothing,
    }
}

/// Whether a key event wakes a suspended device: releasing Power, or opening the lid.
pub fn wakes_from_suspend(e: KeyEvent) -> (r: bool)
    ensures
        r == (e == KeyEvent::Released(Key::Power) || e == KeyEvent::Released(Key::LidClose)),
{
    e == KeyEvent::Released(Key::Power) || e == KeyEvent::Released(Key::LidClose)
}

/// Whether a key event ends the charge screen: releasing Power.
pub fn leaves_charge_screen(e: KeyEvent) -> (r: bool)
    ensures
        r == (e == KeyEvent::Released(Key::Power)),
{
    e == KeyEvent::Released(Key::Power)
}

/// Whether the app in front repaints the whole screen itself, which decides how the indicator is
/// kept up: it does unless it is the launcher, as their canonical executable paths tell; when
/// either path cannot be read, it does whenever a game is running.
pub fn foreground_repaints(exe: Option<&str>, launcher: Option<&str>, ingame: bool) -> (r: bool)
    ensures
        r == match (exe, launcher) {
            (Some(e), Some(l)) => e@ != l@,
            _ => ingame,
        },
{
    match (exe, launcher) {
        (Some(e), Some(l)) => !str_eq(e, l),
        _ => ingame,
    }
}

/// What a battery reading calls for.
#[derive(Clone, Copy, Debug, PartialEq, Eq, Structural)]
pub struct BatteryAlarm {
    /// Blink the battery light.
    pub warn: bool,
    /// Shut down now.
    pub shut_down: bool,
}

/// What a battery at `percentage`, charging or not, calls for: nothing while charging; below
/// the warning threshold a blinking light, below the shutdown threshold a shutdown.
pub fn battery_alarm(percentage: i32, charging: bool) -> (r: BatteryAlarm)
    ensures
        r.warn == (percentage <= BATTERY_WARNING_THRESHOLD && !charging),
        r.shut_down == (percentage <= BATTERY_SHUTDOWN_THRESHOLD && !charging),
{
    BatteryAlarm {
        warn: percentage <= BATTERY_WARNING_THRESHOLD && !charging,
        shut_down: percentage <= BATTERY_SHUTDOWN_THRESHOLD && !charging,
    }
}

/// Remembers when the launcher last exited, so one that keeps failing on startup is restarted
/// after a pause rather than in a tight loop.
pub struct CrashLoopGuard {
    exits: Vec<u64>,
}

impl CrashLoopGuard {
    /// The remembered exit times, in milliseconds, oldest first.
    pub closed spec fn exits(&self) -> Seq<u64> {
        self.exits@
    }

    pub fn new() -> (g: CrashLoopGuard)
        ensures
            g.exits() == Seq::<u64>::empty(),
    {
        CrashLoopGuard { exits: Vec::new() }
    }

    /// Records an exit at `now_ms`, forgetting those older than the window, and says whether to
    /// pause before the next start: `CRASH_LOOP_EXITS` or more exits within the window.
    pub fn record_exit(&mut self, now_ms: u64) -> (pause: bool)
        requires
            forall|i: int| 0 <= i < old(self).exits().len() ==> #[trigger] old(self).exits()[i] <= now_ms,
        ensures
            final(self).exits() == old(self).exits().filter(
                |at: u64| now_ms - at < CRASH_LOOP_WINDOW_MS,
            ).push(now_ms),
            pause == (final(self).exits().len() >= CRASH_LOOP_EXITS),
            forall|i: int|
                0 <= i < final(self).exits().len() ==> now_ms - #[trigger] final(self).exits()[i]
                    < CRASH_LOOP_WINDOW_MS && final(self).exits()[i] <= now_ms,
    {
        let ghost before = self.exits@;
        assert forall|j: int| 0 <= j < before.len() implies #[trigger] before[j] <= now_ms by {
            assert(before[j] == old(self).exits()[j]);
        }
        let mut kept: Vec<u64> = Vec::new();
        let mut i: usize = 0;
        while i < self.exits.len()
            invariant
                before == self.exits@,
                i <= self.exits.len(),
                forall|j: int| 0 <= j < before.len() ==> #[trigger] before[j] <= now_ms,
                kept@ == before.take(i as int).filter(|at: u64| now_ms - at < CRASH_LOOP_WINDOW_MS),
            decreases self.exits.len() - i,
        {
            let at = self.exits[i];
            proof {
                reveal(Seq::filter);
                assert(before.take(i + 1).drop_last() =~= before.take(i as int));
                assert(before.take(i + 1).last() == at);
            }
            if now_ms - at < CRASH_LOOP_WINDOW_MS {
                kept.push(at);
            }
            i += 1;
        }
        assert(before.take(i as int) == before);
        proof {
            let f = |at: u64| now_ms - at < CRASH_LOOP_WINDOW_MS;
            assert forall|j: int| 0 <= j < kept@.len() implies now_ms - #[trigger] kept@[j]
                < CRASH_LOOP_WINDOW_MS && kept@[j] <= now_ms by {
                before.lemma_filter_pred(f, j);
                assert(kept@.contains(kept@[j]));
                before.lemma_filter_contains_rev(f, kept@[j]);
            }
        }
        kept.push(now_ms);
        self.exits = kept;
        self.exits.len() >= CRASH_LOOP_EXITS
    }
}

/// Whether a play session this many seconds long is recorded: anything over a day is taken for
/// a clock that jumped rather than a session.
pub fn records_play_time(seconds: i64) -> (r: bool)
    ensures
        r == (seconds <= 24 * 60 * 60),
{
    seconds <= 24 * 60 * 60
}

} // verus!
