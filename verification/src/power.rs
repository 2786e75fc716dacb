//! Power settings: what the power button and the lid do, when the device sleeps and powers off,
//! and how it starts.
use vstd::prelude::*;

verus! {

/// What happens when the device powers on only because a charger was plugged in.
#[derive(Clone, Copy, Debug, PartialEq, Eq, Structural)]
pub enum ChargingBootAction {
    /// Announce charging, hold the lit screen briefly, then park in the charge screen.
    ChargeScreen,
    /// Park in the charge screen without ever lighting the display.
    ChargeSilently,
    /// Shut back down, so the charger never wakes the device at all.
    PowerOff,
}

/// What the power button, or closing the lid, does.
#[derive(Clone, Copy, Debug, PartialEq, Eq, Structural)]
pub enum PowerButtonAction {
    Suspend,
    Shutdown,
    Nothing,
}

/// What the volume is set to when the device powers on.
#[derive(Clone, Copy, Debug, PartialEq, Eq, Structural)]
pub enum VolumeOnStartup {
    /// Restore the volume the device was turned off at.
    Restore,
    Muted,
}

impl Default for ChargingBootAction {
    fn default() -> (r: Self)
        ensures
            r == ChargingBootAction::ChargeScreen,
    {
        ChargingBootAction::ChargeScreen
    }
}

impl Default for PowerButtonAction {
    fn default() -> (r: Self)
        ensures
            r == PowerButtonAction::Suspend,
    {
        PowerButtonAction::Suspend
    }
}

impl Default for VolumeOnStartup {
    fn default() -> (r: Self)
        ensures
            r == VolumeOnStartup::Restore,
    {
        VolumeOnStartup::Restore
    }
}

pub open spec fn charging_boot_index(a: ChargingBootAction) -> usize {
    match a {
        ChargingBootAction::ChargeScreen => 0,
        ChargingBootAction::ChargeSilently => 1,
        ChargingBootAction::PowerOff => 2,
    }
}

pub open spec fn power_button_index(a: PowerButtonAction) -> usize {
    match a {
        PowerButtonAction::Suspend => 0,
        PowerButtonAction::Shutdown => 1,
        PowerButtonAction::Nothing => 2,
    }
}

pub open spec fn volume_index(v: VolumeOnStartup) -> usize {
    match v {
        VolumeOnStartup::Restore => 0,
        VolumeOnStartup::Muted => 1,
    }
}

impl ChargingBootAction {
    /// The action at position `n` of the declaration order.
    pub fn from_repr(n: usize) -> (r: Option<Self>)
        ensures
            match r {
                Some(a) => charging_boot_index(a) == n,
                None => n > 2,
            },
    {
        match n {
            0 => Some(ChargingBootAction::ChargeScreen),
            1 => Some(ChargingBootAction::ChargeSilently),
            2 => Some(ChargingBootAction::PowerOff),
            _ => None,
        }
    }

    /// This action's position in the declaration order.
    pub fn repr(self) -> (n: usize)
        ensures
            n == charging_boot_index(self),
    {
        match self {
            ChargingBootAction::ChargeScreen => 0,
            ChargingBootAction::ChargeSilently => 1,
            ChargingBootAction::PowerOff => 2,
        }
    }
}

impl PowerButtonAction {
    pub fn suspend() -> (r: Self)
        ensures
            r == PowerButtonAction::Suspend,
    {
        PowerButtonAction::Suspend
    }

    pub fn shutdown() -> (r: Self)
        ensures
            r == PowerButtonAction::Shutdown,
    {
        PowerButtonAction::Shutdown
    }

    pub fn nothing() -> (r: Self)
        ensures
            r == PowerButtonAction::Nothing,
    {
        PowerButtonAction::Nothing
    }

    /// The action at position `n` of the declaration order.
    pub fn from_repr(n: usize) -> (r: Option<Self>)
        ensures
            match r {
                Some(a) => power_button_index(a) == n,
                None => n > 2,
            },
    {
        match n {
            0 => Some(PowerButtonAction::Suspend),
            1 => Some(PowerButtonAction::Shutdown),
            2 => Some(PowerButtonAction::Nothing),
            _ => None,
        }
    }

    /// This action's position in the declaration order.
    pub fn repr(self) -> (n: usize)
        ensures
            n == power_button_index(self),
    {
        match self {
            PowerButtonAction::Suspend => 0,
            PowerButtonAction::Shutdown => 1,
            PowerButtonAction::Nothing => 2,
        }
    }
}

impl VolumeOnStartup {
    /// The choice at position `n` of the declaration order.
    pub fn from_repr(n: usize) -> (r: Option<Self>)
        ensures
            match r {
                Some(v) => volume_index(v) == n,
                None => n > 1,
            },
    {
        match n {
            0 => Some(VolumeOnStartup::Restore),
            1 => Some(VolumeOnStartup::Muted),
            _ => None,
        }
    }

    /// This choice's position in the declaration order.
    pub fn repr(self) -> (n: usize)
        ensures
            n == volume_index(self),
    {
        match self {
            VolumeOnStartup::Restore => 0,
            VolumeOnStartup::Muted => 1,
        }
    }
}

/// The power settings.
#[derive(Clone, Copy, Debug, PartialEq, Eq, Structural)]
pub struct PowerSettings {
    pub power_button_action: PowerButtonAction,
    pub lid_close_action: PowerButtonAction,
    pub auto_sleep_when_charging: bool,
    pub auto_sleep_duration_minutes: i32,
    pub volume_on_startup: VolumeOnStartup,
    pub charging_boot_action: ChargingBootAction,
    /// How long the device stays suspended before powering off. Zero never powers off.
    pub suspend_shutdown_minutes: i32,
}

/// The settings of a fresh install: both the button and the lid suspend, the device sleeps after
/// five minutes even while charging, and a suspended device powers off after five more.
pub open spec fn default_power_settings() -> PowerSettings {
    PowerSettings {
        power_button_action: PowerButtonAction::Suspend,
        lid_close_action: PowerButtonAction::Suspend,
        auto_sleep_when_charging: true,
        auto_sleep_duration_minutes: 5,
        volume_on_startup: VolumeOnStartup::Restore,
        charging_boot_action: ChargingBootAction::ChargeScreen,
        suspend_shutdown_minutes: 5,
    }
}

impl Default for PowerSettings {
    fn default() -> (s: Self)
        ensures
            s == default_power_settings(),
    {
        PowerSettings {
            lid_close_action: PowerButtonAction::Suspend,
            power_button_action: PowerButtonAction::Suspend,
            auto_sleep_when_charging: true,
            auto_sleep_duration_minutes: 5,
            volume_on_startup: VolumeOnStartup::Restore,
            charging_boot_action: ChargingBootAction::ChargeScreen,
            suspend_shutdown_minutes: PowerSettings::default_suspend_shutdown_minutes(),
        }
    }
}

impl PowerSettings {
    pub fn new() -> (s: Self)
        ensures
            s == default_power_settings(),
    {
        PowerSettings::default()
    }

    /// What the suspend timeout was before it was a setting, so a stored file without it keeps
    /// powering off after the same delay rather than never.
    pub fn default_suspend_shutdown_minutes() -> (m: i32)
        ensures
            m == 5,
    {
        5
    }

    /// The settings to use given what was read from disk: those, or the defaults when nothing
    /// usable was there.
    pub fn load(stored: Option<PowerSettings>) -> (s: Self)
        ensures
            s == match stored {
                Some(p) => p,
                None => default_power_settings(),
            },
    {
        match stored {
            Some(p) => p,
            None => PowerSettings::new(),
        }
    }
}

} // verus!
