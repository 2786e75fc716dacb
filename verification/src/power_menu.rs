//! The power settings screen: its rows, how an edit changes the settings, and the description of
//! the highlighted row.
use vstd::prelude::*;

use crate::menu::{
    described_layout, described_list_layout, is_select, keys_view, layout_fits, ChildState,
    Control, ListLayout, ListMetrics, Rect, Row, Value,
};
use crate::power::{
    charging_boot_index, power_button_index, volume_index, ChargingBootAction, PowerButtonAction,
    PowerSettings, VolumeOnStartup,
};
use crate::text::push_str;

verus! {

pub const ROW_AUTO_SLEEP_CHARGING: usize = 0;
pub const ROW_AUTO_SLEEP_MINUTES: usize = 1;
pub const ROW_SUSPEND_SHUTDOWN: usize = 2;
pub const ROW_CHARGING_BOOT: usize = 3;
pub const ROW_VOLUME_ON_STARTUP: usize = 4;
pub const ROW_POWER_BUTTON: usize = 5;
/// Last, because it is the one row not every device has.
pub const ROW_LID_CLOSE: usize = 6;

/// The charging boot actions offered, in order: powering off only where the board can really
/// power off, since elsewhere plugging in a charger would loop the device through boot.
pub open spec fn charging_boot_actions_spec(can_power_off: bool) -> Seq<ChargingBootAction> {
    if can_power_off {
        seq![
            ChargingBootAction::ChargeScreen,
            ChargingBootAction::ChargeSilently,
            ChargingBootAction::PowerOff,
        ]
    } else {
        seq![ChargingBootAction::ChargeScreen, ChargingBootAction::ChargeSilently]
    }
}

/// The charging boot actions offered; see [`charging_boot_actions_spec`].
pub fn charging_boot_actions(can_power_off: bool) -> (r: Vec<ChargingBootAction>)
    ensures
        r@ == charging_boot_actions_spec(can_power_off),
{
    let mut actions = vec![ChargingBootAction::ChargeScreen, ChargingBootAction::ChargeSilently];
    if can_power_off {
        actions.push(ChargingBootAction::PowerOff);
    }
    assert(actions@ =~= charging_boot_actions_spec(can_power_off));
    actions
}

pub open spec fn charging_boot_action_key_spec(a: ChargingBootAction) -> Seq<char> {
    match a {
        ChargingBootAction::ChargeScreen => "settings-power-charging-boot-action-charge-screen"@,
        ChargingBootAction::ChargeSilently => "settings-power-charging-boot-action-charge-silently"@,
        ChargingBootAction::PowerOff => "settings-power-charging-boot-action-power-off"@,
    }
}

/// The locale key naming a charging boot action.
pub fn charging_boot_action_key(action: ChargingBootAction) -> (k: &'static str)
    ensures
        k@ == charging_boot_action_key_spec(action),
{
    match action {
        ChargingBootAction::ChargeScreen => "settings-power-charging-boot-action-charge-screen",
        ChargingBootAction::ChargeSilently => "settings-power-charging-boot-action-charge-silently",
        ChargingBootAction::PowerOff => "settings-power-charging-boot-action-power-off",
    }
}

/// The action a power row edits: the lid's on the lid row, the button's on any other.
pub open spec fn power_action_spec(row: usize, s: PowerSettings) -> PowerButtonAction {
    if row == ROW_LID_CLOSE {
        s.lid_close_action
    } else {
        s.power_button_action
    }
}

pub fn power_action(row: usize, settings: &PowerSettings) -> (a: PowerButtonAction)
    ensures
        a == power_action_spec(row, *settings),
{
    if row == ROW_LID_CLOSE {
        settings.lid_close_action
    } else {
        settings.power_button_action
    }
}

/// The locale key describing the option chosen on `row`, for rows whose description is a fixed
/// text; `None` for the rows whose label says everything, and for a suspending power row, whose
/// description names the shutdown delay.
pub open spec fn description_key_spec(row: usize, s: PowerSettings) -> Option<Seq<char>> {
    if row == ROW_AUTO_SLEEP_CHARGING {
        Some(
            if s.auto_sleep_when_charging {
                "settings-power-desc-auto-sleep-when-charging-on"@
            } else {
                "settings-power-desc-auto-sleep-when-charging-off"@
            },
        )
    } else if row == ROW_AUTO_SLEEP_MINUTES {
        Some(
            if s.auto_sleep_duration_minutes == 0 {
                "settings-power-desc-auto-sleep-duration-disabled"@
            } else {
                "settings-power-desc-auto-sleep-duration"@
            },
        )
    } else if row == ROW_CHARGING_BOOT {
        Some(
            match s.charging_boot_action {
                ChargingBootAction::ChargeScreen => "settings-power-desc-charging-boot-charge-screen"@,
                ChargingBootAction::ChargeSilently => "settings-power-desc-charging-boot-charge-silently"@,
                ChargingBootAction::PowerOff => "settings-power-desc-charging-boot-power-off"@,
            },
        )
    } else if row == ROW_VOLUME_ON_STARTUP {
        Some(
            match s.volume_on_startup {
                VolumeOnStartup::Restore => "settings-power-desc-volume-on-startup-restore"@,
                VolumeOnStartup::Muted => "settings-power-desc-volume-on-startup-muted"@,
            },
        )
    } else if row == ROW_POWER_BUTTON || row == ROW_LID_CLOSE {
        match power_action_spec(row, s) {
            PowerButtonAction::Suspend => None,
            PowerButtonAction::Shutdown => Some("settings-power-desc-action-shutdown"@),
            PowerButtonAction::Nothing => Some("settings-power-desc-action-nothing"@),
        }
    } else {
        None
    }
}

pub fn description_key(row: usize, settings: &PowerSettings) -> (r: Option<&'static str>)
    ensures
        match r {
            Some(k) => description_key_spec(row, *settings) == Some(k@),
            None => description_key_spec(row, *settings) is None,
        },
{
    if row == ROW_AUTO_SLEEP_CHARGING {
        Some(
            if settings.auto_sleep_when_charging {
                "settings-power-desc-auto-sleep-when-charging-on"
            } else {
                "settings-power-desc-auto-sleep-when-charging-off"
            },
        )
    } else if row == ROW_AUTO_SLEEP_MINUTES {
        Some(
            if settings.auto_sleep_duration_minutes == 0 {
                "settings-power-desc-auto-sleep-duration-disabled"
            } else {
                "settings-power-desc-auto-sleep-duration"
            },
        )
    } else if row == ROW_CHARGING_BOOT {
        Some(
            match settings.charging_boot_action {
                ChargingBootAction::ChargeScreen => "settings-power-desc-charging-boot-charge-screen",
                ChargingBootAction::ChargeSilently => "settings-power-desc-charging-boot-charge-silently",
                ChargingBootAction::PowerOff => "settings-power-desc-charging-boot-power-off",
            },
        )
    } else if row == ROW_VOLUME_ON_STARTUP {
        Some(
            match settings.volume_on_startup {
                VolumeOnStartup::Restore => "settings-power-desc-volume-on-startup-restore",
                VolumeOnStartup::Muted => "settings-power-desc-volume-on-startup-muted",
            },
        )
    } else if row == ROW_POWER_BUTTON || row == ROW_LID_CLOSE {
        match power_action(row, settings) {
            PowerButtonAction::Suspend => None,
            PowerButtonAction::Shutdown => Some("settings-power-desc-action-shutdown"),
            PowerButtonAction::Nothing => Some("settings-power-desc-action-nothing"),
        }
    } else {
        None
    }
}

/// What to show under the list for the highlighted row.
#[derive(Clone, Debug)]
pub enum Description {
    /// This locale key's text.
    Text(String),
    /// This locale key's text, with its `minutes` placeholder filled in.
    Minutes(String, i32),
    /// Nothing.
    Empty,
}

/// A description naming a minute count, or the key's `-never` wording at zero or below, where
/// the placeholder would otherwise be shown as it is.
pub open spec fn minutes_description_spec(key: Seq<char>, minutes: i32) -> (Seq<char>, Option<i32>) {
    if minutes <= 0 {
        (key + "-never"@, None)
    } else {
        (key, Some(minutes))
    }
}

/// The description of `row`: the shutdown row and a suspending power row name the shutdown
/// delay; any other row has its fixed text, if it has one.
pub open spec fn description_spec(row: usize, s: PowerSettings) -> Option<(Seq<char>, Option<i32>)> {
    if row == ROW_SUSPEND_SHUTDOWN {
        Some(minutes_description_spec("settings-power-desc-shutdown-after"@, s.suspend_shutdown_minutes))
    } else if (row == ROW_POWER_BUTTON || row == ROW_LID_CLOSE) && power_action_spec(row, s)
        == PowerButtonAction::Suspend {
        Some(minutes_description_spec("settings-power-desc-action-suspend"@, s.suspend_shutdown_minutes))
    } else {
        match description_key_spec(row, s) {
            Some(k) => Some((k, None)),
            None => None,
        }
    }
}

pub open spec fn description_view(d: Description) -> Option<(Seq<char>, Option<i32>)> {
    match d {
        Description::Text(k) => Some((k@, None)),
        Description::Minutes(k, m) => Some((k@, Some(m))),
        Description::Empty => None,
    }
}

fn minutes_description(key: &str, minutes: i32) -> (d: Description)
    ensures
        description_view(d) == Some(minutes_description_spec(key@, minutes)),
{
    let mut k = String::new();
    push_str(&mut k, key);
    if minutes <= 0 {
        push_str(&mut k, "-never");
        Description::Text(k)
    } else {
        Description::Minutes(k, minutes)
    }
}

/// The description of `row`; see [`description_spec`].
pub fn description_text(row: usize, settings: &PowerSettings) -> (d: Description)
    ensures
        description_view(d) == description_spec(row, *settings),
{
    if row == ROW_SUSPEND_SHUTDOWN {
        return minutes_description(
            "settings-power-desc-shutdown-after",
            settings.suspend_shutdown_minutes,
        );
    }
    if (row == ROW_POWER_BUTTON || row == ROW_LID_CLOSE) && power_action(row, settings)
        == PowerButtonAction::Suspend {
        return minutes_description(
            "settings-power-desc-action-suspend",
            settings.suspend_shutdown_minutes,
        );
    }
    match description_key(row, settings) {
        Some(k) => {
            let mut s = String::new();
            push_str(&mut s, k);
            Description::Text(s)
        },
        None => Description::Empty,
    }
}

/// The position of `a` among `actions`, or 0 when it is not offered.
pub open spec fn position_or_first(actions: Seq<ChargingBootAction>, a: ChargingBootAction) -> usize {
    if actions.contains(a) {
        choose|i: usize| i < actions.len() && actions[i as int] == a && forall|j: int|
            0 <= j < i ==> actions[j] != a
    } else {
        0
    }
}

fn position_of(actions: &Vec<ChargingBootAction>, a: ChargingBootAction) -> (r: usize)
    ensures
        r == position_or_first(actions@, a),
{
    let mut i: usize = 0;
    while i < actions.len()
        invariant
            i <= actions.len(),
            forall|j: int| 0 <= j < i ==> actions@[j] != a,
        decreases actions.len() - i,
    {
        if actions[i] == a {
            assert(actions@.contains(a));
            let ghost c = choose|k: usize| k < actions.len() && actions@[k as int] == a && forall|j: int|
                0 <= j < k ==> actions@[j] != a;
            assert(c == i) by {
                if c < i {
                    assert(actions@[c as int] != a);
                } else if c > i {
                    assert(actions@[i as int] == a);
                }
            }
            return i;
        }
        i += 1;
    }
    assert(!actions@.contains(a));
    0
}

/// The three power button choices, in order.
pub open spec fn button_options() -> Seq<Seq<char>> {
    seq![
        "settings-power-power-button-action-suspend"@,
        "settings-power-power-button-action-shutdown"@,
        "settings-power-power-button-action-nothing"@,
    ]
}

fn button_options_exec() -> (r: Vec<&'static str>)
    ensures
        keys_view(r@) == button_options(),
{
    let r = vec![
        "settings-power-power-button-action-suspend",
        "settings-power-power-button-action-shutdown",
        "settings-power-power-button-action-nothing",
    ];
    assert(keys_view(r@) =~= button_options());
    r
}

/// The power settings screen.
pub struct Power {
    pub power_settings: PowerSettings,
    /// The charging boot actions offered, in the order of their row's choices.
    pub charging_boot_actions: Vec<ChargingBootAction>,
    pub rows: Vec<Row>,
    pub layout: ListLayout,
    pub selected: usize,
}

impl Power {
    /// The screen for `settings` in `rect`, with the button hints starting at `hints_y`: the
    /// auto-sleep toggle, the auto-sleep delay (0 to 60 in fives, 0 reading as disabled), the
    /// shutdown delay (0 to 120 in fives, 0 reading as never), the charging boot action among
    /// those offered, the startup volume, the power button action and, on a device with a lid,
    /// the lid action. The highlight starts where `state` left it.
    pub fn new(
        rect: Rect,
        hints_y: i32,
        metrics: ListMetrics,
        settings: PowerSettings,
        can_power_off: bool,
        has_lid: bool,
        state: Option<ChildState>,
    ) -> (p: Power)
        requires
            layout_fits(rect, hints_y, metrics),
            i32::MIN <= rect.y + (described_layout(rect, hints_y, metrics).list.h as i32) <= i32::MAX,
        ensures
            p.power_settings == settings,
            p.charging_boot_actions@ == charging_boot_actions_spec(can_power_off),
            p.layout == described_layout(rect, hints_y, metrics),
            p.selected == match state {
                Some(s) => s.selected,
                None => 0,
            },
            p.rows.len() == if has_lid {
                7usize
            } else {
                6usize
            },
            p.rows[0].label@ == "settings-power-auto-sleep-when-charging"@,
            p.rows[0].control == Control::Toggle(settings.auto_sleep_when_charging),
            p.rows[1].label@ == "settings-power-auto-sleep-duration-minutes"@,
            p.rows[1].control matches Control::Number { value, min, max, step, zero_label } && value
                == settings.auto_sleep_duration_minutes && min == 0 && max == 60 && step == 5
                && zero_label@ == "settings-power-auto-sleep-duration-disabled"@,
            p.rows[2].label@ == "settings-power-shutdown-after"@,
            p.rows[2].control matches Control::Number { value, min, max, step, zero_label } && value
                == settings.suspend_shutdown_minutes && min == 0 && max == 120 && step == 5
                && zero_label@ == "settings-power-shutdown-after-never"@,
            p.rows[3].label@ == "settings-power-charging-boot-action"@,
            is_select(
                p.rows[3].control,
                position_or_first(charging_boot_actions_spec(can_power_off), settings.charging_boot_action),
                charging_boot_actions_spec(can_power_off).map_values(
                    |a: ChargingBootAction| charging_boot_action_key_spec(a),
                ),
            ),
            p.rows[4].label@ == "settings-power-volume-on-startup"@,
            is_select(
                p.rows[4].control,
                volume_index(settings.volume_on_startup),
                seq![
                    "settings-power-volume-on-startup-restore"@,
                    "settings-power-volume-on-startup-muted"@,
                ],
            ),
            p.rows[5].label@ == "settings-power-power-button-action"@,
            is_select(p.rows[5].control, power_button_index(settings.power_button_action), button_options()),
            has_lid ==> p.rows[6].label@ == "settings-power-lid-close-action"@ && is_select(
                p.rows[6].control,
                power_button_index(settings.lid_close_action),
                button_options(),
            ),
    {
        let layout = described_list_layout(rect, hints_y, metrics);
        let actions = charging_boot_actions(can_power_off);
        let mut action_options: Vec<&'static str> = Vec::new();
        let mut i: usize = 0;
        while i < actions.len()
            invariant
                i <= actions.len(),
                action_options.len() == i,
                actions@ == charging_boot_actions_spec(can_power_off),
                keys_view(action_options@) == actions@.take(i as int).map_values(
                    |a: ChargingBootAction| charging_boot_action_key_spec(a),
                ),
            decreases actions.len() - i,
        {
            let k = charging_boot_action_key(actions[i]);
            let ghost before = action_options@;
            action_options.push(k);
            assert(action_options@ == before.push(k));
            assert(keys_view(action_options@).len() == i + 1);
            let ghost f = |a: ChargingBootAction| charging_boot_action_key_spec(a);
            assert forall|j: int| 0 <= j <= i implies keys_view(action_options@)[j]
                == actions@.take(i + 1).map_values(f)[j] by {
                if j < i {
                    assert(keys_view(action_options@)[j] == action_options@[j]@);
                    assert(action_options@[j] == before[j]);
                    assert(keys_view(before)[j] == before[j]@);
                    assert(keys_view(before)[j] == actions@.take(i as int).map_values(f)[j]);
                    assert(actions@.take(i as int).map_values(f)[j] == f(actions@.take(i as int)[j]));
                    assert(actions@.take(i + 1).map_values(f)[j] == f(actions@.take(i + 1)[j]));
                } else {
                    assert(keys_view(action_options@)[j] == action_options@[j]@);
                    assert(actions@.take(i + 1).map_values(f)[j] == f(actions@.take(i + 1)[j]));
                }
            }
            assert(keys_view(action_options@) =~= actions@.take(i + 1).map_values(f));
            i += 1;
        }
        assert(actions@.take(actions.len() as int) =~= actions@);
        let volume_options = vec![
            "settings-power-volume-on-startup-restore",
            "settings-power-volume-on-startup-muted",
        ];
        assert(keys_view(volume_options@) =~= seq![
            "settings-power-volume-on-startup-restore"@,
            "settings-power-volume-on-startup-muted"@,
        ]);
        let mut rows = vec![
            Row {
                label: "settings-power-auto-sleep-when-charging",
                control: Control::Toggle(settings.auto_sleep_when_charging),
            },
            Row {
                label: "settings-power-auto-sleep-duration-minutes",
                control: Control::Number {
                    value: settings.auto_sleep_duration_minutes,
                    min: 0,
                    max: 60,
                    step: 5,
                    zero_label: "settings-power-auto-sleep-duration-disabled",
                },
            },
            Row {
                label: "settings-power-shutdown-after",
                control: Control::Number {
                    value: settings.suspend_shutdown_minutes,
                    min: 0,
                    max: 120,
                    step: 5,
                    zero_label: "settings-power-shutdown-after-never",
                },
            },
            Row {
                label: "settings-power-charging-boot-action",
                control: Control::Select {
                    selected: position_of(&actions, settings.charging_boot_action),
                    options: action_options,
                },
            },
            Row {
                label: "settings-power-volume-on-startup",
                control: Control::Select {
                    selected: settings.volume_on_startup.repr(),
                    options: volume_options,
                },
            },
            Row {
                label: "settings-power-power-button-action",
                control: Control::Select {
                    selected: settings.power_button_action.repr(),
                    options: button_options_exec(),
                },
            },
        ];
        if has_lid {
            rows.push(
                Row {
                    label: "settings-power-lid-close-action",
                    control: Control::Select {
                        selected: settings.lid_close_action.repr(),
                        options: button_options_exec(),
                    },
                },
            );
        }
        let selected = match state {
            Some(s) => s.selected,
            None => 0,
        };
        Power { power_settings: settings, charging_boot_actions: actions, rows, layout, selected }
    }
}

/// What an edit of `row` to `val` makes of the settings, with `actions` the charging boot
/// actions offered. A value of the wrong kind reads as the row's fallback: on for the toggle,
/// five minutes for the delays, the first choice for a select. A choice past the end reads as
/// the default.
pub open spec fn applied(
    s: PowerSettings,
    actions: Seq<ChargingBootAction>,
    row: usize,
    val: Value,
) -> PowerSettings {
    let int_or = |d: i32|
        match val {
            Value::Int(i) => i,
            _ => d,
        };
    let index = int_or(0) as usize;
    if row == ROW_AUTO_SLEEP_CHARGING {
        PowerSettings {
            auto_sleep_when_charging: match val {
                Value::Bool(b) => b,
                _ => true,
            },
            ..s
        }
    } else if row == ROW_AUTO_SLEEP_MINUTES {
        PowerSettings { auto_sleep_duration_minutes: int_or(5), ..s }
    } else if row == ROW_SUSPEND_SHUTDOWN {
        PowerSettings { suspend_shutdown_minutes: int_or(5), ..s }
    } else if row == ROW_CHARGING_BOOT {
        PowerSettings {
            charging_boot_action: if index < actions.len() {
                actions[index as int]
            } else {
                ChargingBootAction::ChargeScreen
            },
            ..s
        }
    } else if row == ROW_VOLUME_ON_STARTUP {
        PowerSettings {
            volume_on_startup: if index == 1 {
                VolumeOnStartup::Muted
            } else {
                VolumeOnStartup::Restore
            },
            ..s
        }
    } else if row == ROW_POWER_BUTTON || row == ROW_LID_CLOSE {
        let a = if index == 1 {
            PowerButtonAction::Shutdown
        } else if index == 2 {
            PowerButtonAction::Nothing
        } else {
            PowerButtonAction::Suspend
        };
        if row == ROW_POWER_BUTTON {
            PowerSettings { power_button_action: a, ..s }
        } else {
            PowerSettings { lid_close_action: a, ..s }
        }
    } else {
        s
    }
}

impl Power {
    /// Applies an edit of `row`; see [`applied`].
    pub fn apply_value(&mut self, row: usize, val: &Value)
        ensures
            final(self).power_settings == applied(
                old(self).power_settings,
                old(self).charging_boot_actions@,
                row,
                *val,
            ),
            final(self).charging_boot_actions == old(self).charging_boot_actions,
            final(self).rows == old(self).rows,
            final(self).layout == old(self).layout,
            final(self).selected == old(self).selected,
    {
        let index = match val.as_int() {
            Some(i) => i,
            None => 0,
        } as usize;
        if row == ROW_AUTO_SLEEP_CHARGING {
            self.power_settings.auto_sleep_when_charging = match val.as_bool() {
                Some(b) => b,
                None => true,
            };
        } else if row == ROW_AUTO_SLEEP_MINUTES {
            self.power_settings.auto_sleep_duration_minutes = match val.as_int() {
                Some(i) => i,
                None => 5,
            };
        } else if row == ROW_SUSPEND_SHUTDOWN {
            self.power_settings.suspend_shutdown_minutes = match val.as_int() {
                Some(i) => i,
                None => 5,
            };
        } else if row == ROW_CHARGING_BOOT {
            self.power_settings.charging_boot_action = if index < self.charging_boot_actions.len() {
                self.charging_boot_actions[index]
            } else {
                ChargingBootAction::ChargeScreen
            };
        } else if row == ROW_VOLUME_ON_STARTUP {
            self.power_settings.volume_on_startup = match VolumeOnStartup::from_repr(index) {
                Some(v) => v,
                None => VolumeOnStartup::Restore,
            };
        } else if row == ROW_POWER_BUTTON || row == ROW_LID_CLOSE {
            let a = match PowerButtonAction::from_repr(index) {
                Some(a) => a,
                None => PowerButtonAction::Suspend,
            };
            if row == ROW_POWER_BUTTON {
                self.power_settings.power_button_action = a;
            } else {
                self.power_settings.lid_close_action = a;
            }
        }
    }

    /// The description of the highlighted row.
    pub fn description(&self) -> (d: Description)
        ensures
            description_view(d) == description_spec(self.selected, self.power_settings),
    {
        description_text(self.selected, &self.power_settings)
    }
}

/// Picking a row's choice and reading the row back agree: the select of each power row shows
/// the choice the edit stored.
pub proof fn lemma_button_choice_reads_back(
    s: PowerSettings,
    actions: Seq<ChargingBootAction>,
    row: usize,
    choice: i32,
)
    requires
        row == ROW_POWER_BUTTON || row == ROW_LID_CLOSE,
        0 <= choice <= 2,
    ensures
        power_button_index(power_action_spec(row, applied(s, actions, row, Value::Int(choice))))
            == choice,
{
}

} // verus!
