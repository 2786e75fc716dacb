//! The display settings screen: the profile picker, the profile's name and its panel values, and
//! how an edit lands on the stored document.
use vstd::prelude::*;

use crate::display_settings::{
    name_of_spec, truncate_name, truncated, DisplaySettings, ProfileView, MIN_BRIGHTNESS, MIN_CONTRAST,
};
use crate::menu::{
    keys_view, layout_fits, plain_layout, plain_list_layout, ChildState, Control, ListLayout,
    ListMetrics, Rect, Row, Value,
};
use crate::number::{decimal, push_decimal};
use crate::text::push_char;

verus! {

pub const ROW_PROFILE: usize = 0;
pub const ROW_NAME: usize = 1;
pub const ROW_RESOLUTION: usize = 2;
pub const ROW_LUMINANCE: usize = 3;
pub const ROW_HUE: usize = 4;
pub const ROW_SATURATION: usize = 5;
pub const ROW_CONTRAST: usize = 6;
pub const ROW_RED: usize = 7;
pub const ROW_GREEN: usize = 8;
pub const ROW_BLUE: usize = 9;
pub const ROW_WARMTH: usize = 10;
pub const ROW_BRIGHTNESS: usize = 11;
/// How many rows the screen has.
pub const ROW_COUNT: usize = 12;

/// A percentage row: the value, never shown below `min`, within `min..=100`.
pub open spec fn is_percentage(c: Control, value: u8, min: u8) -> bool {
    c == Control::Percentage {
        value: if value < min {
            min as i32
        } else {
            value as i32
        },
        min: min as i32,
        max: 100,
    }
}

fn percentage(value: u8, min: u8) -> (c: Control)
    ensures
        is_percentage(c, value, min),
{
    Control::Percentage {
        value: if value < min {
            min as i32
        } else {
            value as i32
        },
        min: min as i32,
        max: 100,
    }
}

/// The rows showing a profile's values are those of `p`.
pub open spec fn shows_profile(rows: Seq<Row>, p: ProfileView) -> bool {
    &&& is_percentage(rows[ROW_LUMINANCE as int].control, p.1, 0)
    &&& is_percentage(rows[ROW_HUE as int].control, p.2, 0)
    &&& is_percentage(rows[ROW_SATURATION as int].control, p.3, 0)
    &&& is_percentage(rows[ROW_CONTRAST as int].control, p.4, MIN_CONTRAST)
    &&& is_percentage(rows[ROW_RED as int].control, p.5, 0)
    &&& is_percentage(rows[ROW_GREEN as int].control, p.6, 0)
    &&& is_percentage(rows[ROW_BLUE as int].control, p.7, 0)
    &&& is_percentage(rows[ROW_WARMTH as int].control, p.8, 0)
    &&& is_percentage(rows[ROW_BRIGHTNESS as int].control, p.10, MIN_BRIGHTNESS)
}

/// The rows naming the profiles are those of `s`: the picker on the active one among every
/// profile's on-screen name, and the active one's name to edit.
pub open spec fn shows_names(rows: Seq<Row>, s: DisplaySettings) -> bool {
    &&& rows[ROW_PROFILE as int].control matches Control::SelectText { selected, choices } && selected
        == s.active && choices@.len() == s.profiles.len() && forall|i: int|
        0 <= i < choices@.len() ==> #[trigger] choices@[i]@ == name_of_spec(s.profile_views(), i)
    &&& rows[ROW_NAME as int].control matches Control::Text(t) && t@ == name_of_spec(
        s.profile_views(),
        s.active as int,
    )
}

/// `"{w}x{h}"`.
pub open spec fn resolution_text(w: u32, h: u32) -> Seq<char> {
    decimal(w as nat).push('x') + decimal(h as nat)
}

/// The display settings screen.
pub struct Display {
    pub settings: DisplaySettings,
    pub rows: Vec<Row>,
    pub layout: ListLayout,
    pub selected: usize,
}

impl Display {
    /// The screen for `settings` in `rect`, with the button hints starting at `hints_y` and the
    /// panel `width` by `height`: the profile picker, the profile's name, the resolution, then
    /// the active profile's luminance, hue, saturation, contrast, red, green, blue and warmth, and its backlight brightness.
    pub fn new(
        rect: Rect,
        hints_y: i32,
        metrics: ListMetrics,
        settings: DisplaySettings,
        width: u32,
        height: u32,
        state: Option<ChildState>,
    ) -> (d: Display)
        requires
            layout_fits(rect, hints_y, metrics),
            settings.wf(),
        ensures
            d.settings == settings,
            d.layout == plain_layout(rect, hints_y, metrics),
            d.selected == match state {
                Some(s) => s.selected,
                None => 0,
            },
            d.rows.len() == ROW_COUNT,
            d.rows[ROW_PROFILE as int].label@ == "settings-display-profile"@,
            d.rows[ROW_NAME as int].label@ == "settings-display-profile-name"@,
            d.rows[ROW_RESOLUTION as int].label@ == "settings-display-screen-resolution"@,
            d.rows[ROW_RESOLUTION as int].control matches Control::Label(t) && t@ == resolution_text(
                width,
                height,
            ),
            shows_names(d.rows@, settings),
            shows_profile(d.rows@, settings.profile_views()[settings.active as int]),
    {
        let layout = plain_list_layout(rect, hints_y, metrics);
        let mut resolution = String::new();
        push_decimal(&mut resolution, width as u64);
        push_char(&mut resolution, 'x');
        push_decimal(&mut resolution, height as u64);
        assert(resolution@ =~= resolution_text(width, height));
        let mut rows = vec![
            Row { label: "settings-display-profile", control: Control::Toggle(false) },
            Row { label: "settings-display-profile-name", control: Control::Toggle(false) },
            Row { label: "settings-display-screen-resolution", control: Control::Label(resolution) },
            Row { label: "settings-display-luminance", control: Control::Toggle(false) },
            Row { label: "settings-display-hue", control: Control::Toggle(false) },
            Row { label: "settings-display-saturation", control: Control::Toggle(false) },
            Row { label: "settings-display-contrast", control: Control::Toggle(false) },
            Row { label: "settings-display-red", control: Control::Toggle(false) },
            Row { label: "settings-display-green", control: Control::Toggle(false) },
            Row { label: "settings-display-blue", control: Control::Toggle(false) },
            Row { label: "settings-display-warmth", control: Control::Toggle(false) },
            Row { label: "settings-display-brightness", control: Control::Toggle(false) },
        ];
        let selected = match state {
            Some(s) => s.selected,
            None => 0,
        };
        let mut d = Display { settings, rows, layout, selected };
        d.reload_rows();
        d
    }

    /// Points every value row, the picker and the name at the active profile, after switching or
    /// renaming one.
    pub fn reload_rows(&mut self)
        requires
            old(self).settings.wf(),
            old(self).rows.len() == ROW_COUNT,
        ensures
            final(self).settings == old(self).settings,
            final(self).layout == old(self).layout,
            final(self).selected == old(self).selected,
            final(self).rows.len() == ROW_COUNT,
            forall|i: int| 0 <= i < ROW_COUNT ==> (#[trigger] final(self).rows[i]).label == old(self).rows[i].label,
            final(self).rows[ROW_RESOLUTION as int] == old(self).rows[ROW_RESOLUTION as int],
            shows_names(final(self).rows@, old(self).settings),
            shows_profile(final(self).rows@, old(self).settings.profile_views()[old(self).settings.active as int]),
    {
        let p = self.settings.active();
        assert(p@ == self.settings.profile_views()[self.settings.active as int]);
        let c_lum = percentage(p.luminance, 0);
        let c_hue = percentage(p.hue, 0);
        let c_sat = percentage(p.saturation, 0);
        let c_con = percentage(p.contrast, MIN_CONTRAST);
        let c_r = percentage(p.r, 0);
        let c_g = percentage(p.g, 0);
        let c_b = percentage(p.b, 0);
        let c_warm = percentage(p.warmth, 0);
        let c_bright = percentage(p.brightness, MIN_BRIGHTNESS);
        let names = self.settings.names();
        let name = self.settings.name_of(self.settings.active);
        let active = self.settings.active;
        self.set_control(ROW_PROFILE, Control::SelectText { selected: active, choices: names });
        self.set_control(ROW_NAME, Control::Text(name));
        self.set_control(ROW_LUMINANCE, c_lum);
        self.set_control(ROW_HUE, c_hue);
        self.set_control(ROW_SATURATION, c_sat);
        self.set_control(ROW_CONTRAST, c_con);
        self.set_control(ROW_RED, c_r);
        self.set_control(ROW_GREEN, c_g);
        self.set_control(ROW_BLUE, c_b);
        self.set_control(ROW_WARMTH, c_warm);
        self.set_control(ROW_BRIGHTNESS, c_bright);
    }

    fn set_control(&mut self, row: usize, c: Control)
        requires
            row < old(self).rows.len(),
        ensures
            final(self).settings == old(self).settings,
            final(self).layout == old(self).layout,
            final(self).selected == old(self).selected,
            final(self).rows@ == old(self).rows@.update(
                row as int,
                Row { label: old(self).rows[row as int].label, control: c },
            ),
    {
        let label = self.rows[row].label;
        self.rows.set(row, Row { label, control: c });
    }
}

/// The number an edit hands back, 0 for a value of another kind.
pub open spec fn int_or_zero(val: Value) -> i32 {
    match val {
        Value::Int(i) => i,
        _ => 0,
    }
}

/// The percentage an edit hands back, clamped to `0..=100`.
pub open spec fn percent_of(val: Value) -> u8 {
    let i = int_or_zero(val);
    if i < 0 {
        0
    } else if i > 100 {
        100
    } else {
        i as u8
    }
}

/// What editing `row` to `val` makes of a document whose active profile is `active`: the picker
/// moves the active profile, clamped to the last; the name row renames it, cut to what can be
/// shown; a value row sets that value of it, contrast never below the panel's floor and the
/// backlight brightness never below [`MIN_BRIGHTNESS`]. The
/// resolution row and any row past the last edit nothing.
pub open spec fn edited(active: usize, views: Seq<ProfileView>, row: usize, val: Value) -> Option<
    (usize, Seq<ProfileView>),
> {
    let p = views[active as int];
    let pct = percent_of(val);
    let set = |q: ProfileView| Some((active, views.update(active as int, q)));
    if row == ROW_PROFILE {
        let i = int_or_zero(val);
        let index: usize = if i < 0 {
            0
        } else {
            i as usize
        };
        Some(
            (
                if index < (views.len() - 1) as usize {
                    index
                } else {
                    (views.len() - 1) as usize
                },
                views,
            ),
        )
    } else if row == ROW_NAME {
        let name = match val {
            Value::String(t) => t@,
            _ => Seq::<char>::empty(),
        };
        set((truncated(name), p.1, p.2, p.3, p.4, p.5, p.6, p.7, p.8, p.9, p.10))
    } else if row == ROW_LUMINANCE {
        set((p.0, pct, p.2, p.3, p.4, p.5, p.6, p.7, p.8, p.9, p.10))
    } else if row == ROW_HUE {
        set((p.0, p.1, pct, p.3, p.4, p.5, p.6, p.7, p.8, p.9, p.10))
    } else if row == ROW_SATURATION {
        set((p.0, p.1, p.2, pct, p.4, p.5, p.6, p.7, p.8, p.9, p.10))
    } else if row == ROW_CONTRAST {
        set(
            (
                p.0,
                p.1,
                p.2,
                p.3,
                if pct < MIN_CONTRAST {
                    MIN_CONTRAST
                } else {
                    pct
                },
                p.5,
                p.6,
                p.7,
                p.8,
                p.9,
                p.10,
            ),
        )
    } else if row == ROW_RED {
        set((p.0, p.1, p.2, p.3, p.4, pct, p.6, p.7, p.8, p.9, p.10))
    } else if row == ROW_GREEN {
        set((p.0, p.1, p.2, p.3, p.4, p.5, pct, p.7, p.8, p.9, p.10))
    } else if row == ROW_BLUE {
        set((p.0, p.1, p.2, p.3, p.4, p.5, p.6, pct, p.8, p.9, p.10))
    } else if row == ROW_WARMTH {
        set((p.0, p.1, p.2, p.3, p.4, p.5, p.6, p.7, pct, p.9, p.10))
    } else if row == ROW_BRIGHTNESS {
        set(
            (
                p.0,
                p.1,
                p.2,
                p.3,
                p.4,
                p.5,
                p.6,
                p.7,
                p.8,
                p.9,
                if pct < MIN_BRIGHTNESS {
                    MIN_BRIGHTNESS
                } else {
                    pct
                },
            ),
        )
    } else {
        None
    }
}

fn percent_value(val: &Value) -> (r: u8)
    ensures
        r == percent_of(*val),
{
    let i = match val.as_int() {
        Some(i) => i,
        None => 0,
    };
    if i < 0 {
        0
    } else if i > 100 {
        100
    } else {
        i as u8
    }
}

impl Display {
    /// Applies one edited row on top of `stored`, the document as it now is on disk (the daemon
    /// rotates profiles from a hotkey while this screen is open), or on top of this screen's own
    /// copy when it could not be read; see [`edited`]. Returns the document to write, and keeps it
    /// as this screen's copy; `None` when the row edits nothing.
    pub fn apply_row(&mut self, stored: Option<DisplaySettings>, row: usize, val: &Value) -> (r:
        Option<DisplaySettings>)
        requires
            old(self).settings.wf(),
            stored matches Some(s) ==> s.wf(),
        ensures
            ({
                let base = match stored {
                    Some(s) => s,
                    None => old(self).settings,
                };
                match edited(base.active, base.profile_views(), row, *val) {
                    Some((a, v)) => r matches Some(s) && s.active == a && s.profile_views() == v
                        && final(self).settings.active == a && final(self).settings.profile_views() == v,
                    None => r is None && final(self).settings.active == base.active
                        && final(self).settings.profile_views() == base.profile_views(),
                }
            }),
            final(self).settings.wf(),
            final(self).rows == old(self).rows,
            final(self).layout == old(self).layout,
            final(self).selected == old(self).selected,
    {
        let mut settings = match stored {
            Some(s) => s,
            None => self.settings.copied(),
        };
        let ghost views = settings.profile_views();
        proof {
            crate::display_settings::lemma_wf_views(settings);
        }
        let ghost p = views[settings.active as int];
        assert(settings.profiles[settings.active as int]@ == p);
        let pct = percent_value(val);
        if row == ROW_PROFILE {
            let i = match val.as_int() {
                Some(i) => i,
                None => 0,
            };
            let index: usize = if i < 0 {
                0
            } else {
                i as usize
            };
            let last = settings.profiles.len() - 1;
            settings.active = if index < last {
                index
            } else {
                last
            };
        } else if row == ROW_NAME {
            let name = match val.as_string() {
                Some(t) => truncate_name(t.as_str()),
                None => String::new(),
            };
            settings.active_mut().name = name;
        } else if row == ROW_LUMINANCE {
            settings.active_mut().luminance = pct;
        } else if row == ROW_HUE {
            settings.active_mut().hue = pct;
        } else if row == ROW_SATURATION {
            settings.active_mut().saturation = pct;
        } else if row == ROW_CONTRAST {
            settings.active_mut().contrast = if pct < MIN_CONTRAST {
                MIN_CONTRAST
            } else {
                pct
            };
        } else if row == ROW_RED {
            settings.active_mut().r = pct;
        } else if row == ROW_GREEN {
            settings.active_mut().g = pct;
        } else if row == ROW_BLUE {
            settings.active_mut().b = pct;
        } else if row == ROW_WARMTH {
            settings.active_mut().warmth = pct;
        } else if row == ROW_BRIGHTNESS {
            settings.active_mut().brightness = if pct < MIN_BRIGHTNESS {
                MIN_BRIGHTNESS
            } else {
                pct
            };
        } else {
            self.settings = settings;
            return None;
        }
        proof {
            crate::display_settings::lemma_wf_views(settings);
        }
        proof {
            if row != ROW_PROFILE {
                assert(settings.profile_views() =~= views.update(
                    settings.active as int,
                    settings.profiles[settings.active as int]@,
                ));
            }
        }
        let copy = settings.copied();
        proof {
            crate::display_settings::lemma_wf_views(copy);
        }
        self.settings = copy;
        Some(settings)
    }
}

} // verus!
