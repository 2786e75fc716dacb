//! The stored display configuration: a handful of named profiles of panel values, one of them
//! live.
use vstd::prelude::*;

use crate::daemon::MAX_BRIGHTNESS;
use crate::number::{decimal, push_decimal};
use crate::text::{chars_of, string_of_range};

verus! {

/// How many profiles are kept. The rotate hotkey cycles all of them, so the count stays small
/// enough to get back to where you started without thinking about it.
pub const PROFILE_COUNT: usize = 3;

/// Names are shown in a list cell and in the on-screen indicator, neither of which scrolls.
pub const MAX_PROFILE_NAME_LEN: usize = 12;

/// The platform raises any lower contrast, so no lower value is ever stored.
pub const MIN_CONTRAST: u8 = 10;

/// The lowest backlight brightness a profile is set to from the display screen: the bottom of
/// the scale, where the backlight is still lit.
pub const MIN_BRIGHTNESS: u8 = 0;

/// The backlight brightness a profile starts with: the one a fresh daemon starts at.
pub const DEFAULT_BRIGHTNESS: u8 = 50;

/// One full set of panel values, under a name the user chooses.
#[derive(Clone, Debug)]
pub struct DisplayProfile {
    pub name: String,
    pub luminance: u8,
    pub hue: u8,
    pub saturation: u8,
    pub contrast: u8,
    pub r: u8,
    pub g: u8,
    pub b: u8,
    /// How far to cut green and blue, 0 (untouched) to 100 (the full warm shift).
    pub warmth: u8,
    /// How far to dim, 0 (untouched) to 100 (the full dim).
    pub dimness: u8,
    /// The backlight brightness that comes with this profile, 0 to [`MAX_BRIGHTNESS`].
    pub brightness: u8,
}

/// A profile's values: its name's characters, then luminance, hue, saturation, contrast, red,
/// green, blue, warmth, dimness and backlight brightness.
pub type ProfileView = (Seq<char>, u8, u8, u8, u8, u8, u8, u8, u8, u8, u8);

impl View for DisplayProfile {
    type V = ProfileView;

    open spec fn view(&self) -> ProfileView {
        (
            self.name@,
            self.luminance,
            self.hue,
            self.saturation,
            self.contrast,
            self.r,
            self.g,
            self.b,
            self.warmth,
            self.dimness,
            self.brightness,
        )
    }
}

/// Every panel value at its midpoint, no warmth, no dimming, the default backlight brightness.
pub open spec fn neutral_view(name: Seq<char>) -> ProfileView {
    (name, 50, 50, 50, 50, 50, 50, 50, 0, 0, DEFAULT_BRIGHTNESS)
}

/// What slot `index` holds on a fresh install: Day, the warm and dim Night, then Custom.
pub open spec fn default_profile_view(index: int) -> ProfileView {
    if index == 0 {
        neutral_view(seq!['D', 'a', 'y'])
    } else if index == 1 {
        (seq!['N', 'i', 'g', 'h', 't'], 50, 50, 50, 50, 50, 50, 50, 100, 100, DEFAULT_BRIGHTNESS)
    } else {
        neutral_view(seq!['C', 'u', 's', 't', 'o', 'm'])
    }
}

/// A name cut to what can be displayed.
pub open spec fn truncated(name: Seq<char>) -> Seq<char> {
    if name.len() <= MAX_PROFILE_NAME_LEN {
        name
    } else {
        name.take(MAX_PROFILE_NAME_LEN as int)
    }
}

/// A profile brought within what can be shown and stored: its name cut short, its contrast
/// raised to the floor.
pub open spec fn sanitized_profile(p: ProfileView) -> ProfileView {
    (
        truncated(p.0),
        p.1,
        p.2,
        p.3,
        if p.4 < MIN_CONTRAST {
            MIN_CONTRAST
        } else {
            p.4
        },
        p.5,
        p.6,
        p.7,
        p.8,
        p.9,
        p.10,
    )
}

/// A profile that needs no sanitizing.
pub open spec fn profile_ok(p: ProfileView) -> bool {
    p.0.len() <= MAX_PROFILE_NAME_LEN && p.4 >= MIN_CONTRAST
}

impl DisplayProfile {
    /// Every value at its midpoint, under `name`.
    pub fn neutral(name: &str) -> (p: DisplayProfile)
        ensures
            p@ == neutral_view(name@),
    {
        DisplayProfile {
            name: name.to_owned(),
            luminance: 50,
            hue: 50,
            saturation: 50,
            contrast: 50,
            r: 50,
            g: 50,
            b: 50,
            warmth: 0,
            dimness: 0,
            brightness: DEFAULT_BRIGHTNESS,
        }
    }
}

impl Default for DisplayProfile {
    fn default() -> (p: Self)
        ensures
            p@ == neutral_view(Seq::empty()),
    {
        let p = DisplayProfile::neutral("");
        proof {
            reveal_strlit("");
        }
        p
    }
}

/// The stored display configuration: the profiles, and which one drives the panel.
#[derive(Clone, Debug)]
pub struct DisplaySettings {
    pub active: usize,
    pub profiles: Vec<DisplayProfile>,
}

impl DisplaySettings {
    /// The values of every profile, in order.
    pub open spec fn profile_views(&self) -> Seq<ProfileView> {
        self.profiles@.map_values(|p: DisplayProfile| p@)
    }

    /// What everything downstream relies on: exactly `PROFILE_COUNT` profiles, `active` among
    /// them, every name short enough to show and every contrast above the panel's floor.
    pub open spec fn wf(&self) -> bool {
        &&& self.profiles.len() == PROFILE_COUNT
        &&& self.active < PROFILE_COUNT
        &&& forall|i: int| 0 <= i < PROFILE_COUNT ==> profile_ok(#[trigger] self.profiles[i]@)
    }
}

/// The invariants, read off the profiles' values alone.
pub open spec fn views_wf(active: usize, views: Seq<ProfileView>) -> bool {
    &&& views.len() == PROFILE_COUNT
    &&& active < PROFILE_COUNT
    &&& forall|i: int| 0 <= i < PROFILE_COUNT ==> profile_ok(#[trigger] views[i])
}

/// Whether settings hold the invariants depends on their values alone.
pub proof fn lemma_wf_views(s: DisplaySettings)
    ensures
        s.wf() <==> views_wf(s.active, s.profile_views()),
        s.profile_views().len() == s.profiles.len(),
{
    assert forall|i: int| 0 <= i < s.profiles.len() implies #[trigger] s.profile_views()[i] == s.profiles[i]@ by {}
    if views_wf(s.active, s.profile_views()) {
        assert forall|i: int| 0 <= i < PROFILE_COUNT implies profile_ok(#[trigger] s.profiles[i]@) by {
            assert(s.profile_views()[i] == s.profiles[i]@);
        }
    }
    if s.wf() {
        assert forall|i: int| 0 <= i < PROFILE_COUNT implies profile_ok(#[trigger] s.profile_views()[i]) by {
            assert(s.profile_views()[i] == s.profiles[i]@);
        }
    }
}

/// What sanitizing makes of `active` and `profiles`: the first `PROFILE_COUNT` profiles, each
/// sanitized, then the defaults for any empty slot, and `active` clamped to the last slot.
pub open spec fn sanitized_views(profiles: Seq<ProfileView>) -> Seq<ProfileView> {
    Seq::new(
        PROFILE_COUNT as nat,
        |i: int|
            if i < profiles.len() {
                sanitized_profile(profiles[i])
            } else {
                default_profile_view(i)
            },
    )
}

pub open spec fn clamped_active(active: usize) -> usize {
    if active < PROFILE_COUNT {
        active
    } else {
        (PROFILE_COUNT - 1) as usize
    }
}

/// `name` cut to `MAX_PROFILE_NAME_LEN` characters, by character so a multi-byte name is never
/// cut inside one.
pub fn truncate_name(name: &str) -> (r: String)
    ensures
        r@ == truncated(name@),
{
    let chars = chars_of(name);
    let n = if chars.len() <= MAX_PROFILE_NAME_LEN {
        chars.len()
    } else {
        MAX_PROFILE_NAME_LEN
    };
    let r = string_of_range(&chars, 0, n);
    assert(chars@.subrange(0, chars.len() as int) =~= chars@);
    r
}

impl DisplaySettings {
    /// The defaults: the three named profiles, the first live.
    pub fn new() -> (s: DisplaySettings)
        ensures
            s.wf(),
            s.active == 0,
            s.profile_views() == Seq::new(PROFILE_COUNT as nat, |i: int| default_profile_view(i)),
    {
        let mut profiles: Vec<DisplayProfile> = Vec::new();
        let mut i: usize = 0;
        while i < PROFILE_COUNT
            invariant
                i <= PROFILE_COUNT,
                profiles.len() == i,
                forall|j: int| 0 <= j < i ==> #[trigger] profiles[j]@ == default_profile_view(j),
            decreases PROFILE_COUNT - i,
        {
            profiles.push(Self::default_profile(i));
            i += 1;
        }
        let s = DisplaySettings { active: 0, profiles };
        assert(s.profile_views() =~= Seq::new(
            PROFILE_COUNT as nat,
            |i: int| default_profile_view(i),
        ));
        s
    }

    /// What slot `index` holds on a fresh install.
    pub fn default_profile(index: usize) -> (p: DisplayProfile)
        ensures
            p@ == default_profile_view(index as int),
            profile_ok(p@),
    {
        proof {
            reveal_strlit("Day");
            reveal_strlit("Night");
            reveal_strlit("Custom");
        }
        match index {
            0 => DisplayProfile::neutral("Day"),
            1 => {
                let mut p = DisplayProfile::neutral("Night");
                p.warmth = 100;
                p.dimness = 100;
                p
            },
            _ => DisplayProfile::neutral("Custom"),
        }
    }

    /// Brings any document within the invariants, so no caller has to bounds-check.
    pub fn sanitized(self) -> (r: DisplaySettings)
        ensures
            r.wf(),
            r.active == clamped_active(self.active),
            r.profile_views() == sanitized_views(self.profile_views()),
    {
        let ghost old_views = self.profile_views();
        let mut profiles: Vec<DisplayProfile> = Vec::new();
        let mut i: usize = 0;
        while i < PROFILE_COUNT
            invariant
                i <= PROFILE_COUNT,
                profiles.len() == i,
                old_views == self.profile_views(),
                forall|j: int|
                    0 <= j < i ==> #[trigger] profiles[j]@ == sanitized_views(old_views)[j],
            decreases PROFILE_COUNT - i,
        {
            if i < self.profiles.len() {
                let p = &self.profiles[i];
                assert(p@ == old_views[i as int]);
                let contrast = if p.contrast < MIN_CONTRAST {
                    MIN_CONTRAST
                } else {
                    p.contrast
                };
                profiles.push(
                    DisplayProfile {
                        name: truncate_name(p.name.as_str()),
                        luminance: p.luminance,
                        hue: p.hue,
                        saturation: p.saturation,
                        contrast,
                        r: p.r,
                        g: p.g,
                        b: p.b,
                        warmth: p.warmth,
                        dimness: p.dimness,
                        brightness: p.brightness,
                    },
                );
            } else {
                profiles.push(Self::default_profile(i));
            }
            i += 1;
        }
        let active = if self.active < PROFILE_COUNT {
            self.active
        } else {
            PROFILE_COUNT - 1
        };
        let r = DisplaySettings { active, profiles };
        assert(r.profile_views() =~= sanitized_views(old_views));
        r
    }

    /// The profile currently driving the panel.
    pub fn active(&self) -> (p: &DisplayProfile)
        requires
            self.active < self.profiles.len(),
        ensures
            *p == self.profiles[self.active as int],
    {
        &self.profiles[self.active]
    }

    /// The profile currently driving the panel, to edit.
    pub fn active_mut(&mut self) -> (p: &mut DisplayProfile)
        requires
            old(self).active < old(self).profiles.len(),
        ensures
            *p == old(self).profiles[old(self).active as int],
            final(self).active == old(self).active,
            final(self).profiles@ == old(self).profiles@.update(old(self).active as int, *final(p)),
    {
        let i = self.active;
        &mut self.profiles[i]
    }

    /// Advances to the next profile, wrapping, and returns its index.
    pub fn rotate(&mut self) -> (r: usize)
        requires
            old(self).profiles.len() > 0,
            old(self).active < usize::MAX,
        ensures
            r == final(self).active,
            r == (old(self).active + 1) % (old(self).profiles.len() as int),
            final(self).profiles == old(self).profiles,
            old(self).wf() ==> final(self).wf(),
    {
        self.active = (self.active + 1) % self.profiles.len();
        self.active
    }
}

/// What to call profile `index` on screen: its name, or its position counted from one, in decimal
/// digits (see [`crate::number::lemma_decimal_spells`]), when it has none (or there is no such
/// profile), so an emptied name still leaves something selectable.
pub open spec fn name_of_spec(profiles: Seq<ProfileView>, index: int) -> Seq<char> {
    if 0 <= index < profiles.len() && profiles[index].0.len() > 0 {
        profiles[index].0
    } else {
        decimal((index + 1) as nat)
    }
}

impl DisplayProfile {
    /// A copy of this profile.
    pub fn copied(&self) -> (p: DisplayProfile)
        ensures
            p@ == self@,
    {
        DisplayProfile {
            name: self.name.clone(),
            luminance: self.luminance,
            hue: self.hue,
            saturation: self.saturation,
            contrast: self.contrast,
            r: self.r,
            g: self.g,
            b: self.b,
            warmth: self.warmth,
            dimness: self.dimness,
            brightness: self.brightness,
        }
    }
}

impl DisplaySettings {
    /// A copy of these settings.
    pub fn copied(&self) -> (s: DisplaySettings)
        ensures
            s.active == self.active,
            s.profile_views() == self.profile_views(),
            s.profiles.len() == self.profiles.len(),
    {
        let mut profiles: Vec<DisplayProfile> = Vec::new();
        let mut i: usize = 0;
        while i < self.profiles.len()
            invariant
                i <= self.profiles.len(),
                profiles.len() == i,
                forall|j: int| 0 <= j < i ==> #[trigger] profiles[j]@ == self.profiles[j]@,
            decreases self.profiles.len() - i,
        {
            profiles.push(self.profiles[i].copied());
            i += 1;
        }
        let s = DisplaySettings { active: self.active, profiles };
        assert(s.profile_views() =~= self.profile_views());
        s
    }

    /// What to call profile `index` on screen; see [`name_of_spec`].
    pub fn name_of(&self, index: usize) -> (r: String)
        requires
            index < usize::MAX,
        ensures
            r@ == name_of_spec(self.profile_views(), index as int),
    {
        if index < self.profiles.len() && !self.profiles[index].name.as_str().is_empty() {
            assert(self.profile_views()[index as int] == self.profiles[index as int]@);
            return self.profiles[index].name.clone();
        }
        if index < self.profiles.len() {
            assert(self.profile_views()[index as int] == self.profiles[index as int]@);
        }
        let mut s = String::new();
        push_decimal(&mut s, (index + 1) as u64);
        assert(s@ =~= decimal((index + 1) as nat));
        s
    }

    /// Every profile's on-screen name, in order.
    pub fn names(&self) -> (r: Vec<String>)
        requires
            self.profiles.len() < usize::MAX,
        ensures
            r.len() == self.profiles.len(),
            forall|i: int|
                0 <= i < r.len() ==> #[trigger] r[i]@ == name_of_spec(self.profile_views(), i),
    {
        let mut r: Vec<String> = Vec::new();
        let mut i: usize = 0;
        while i < self.profiles.len()
            invariant
                i <= self.profiles.len() < usize::MAX,
                r.len() == i,
                forall|j: int|
                    0 <= j < i ==> #[trigger] r[j]@ == name_of_spec(self.profile_views(), j),
            decreases self.profiles.len() - i,
        {
            r.push(self.name_of(i));
            i += 1;
        }
        r
    }
}

impl Default for DisplaySettings {
    fn default() -> (s: Self)
        ensures
            s.wf(),
            s.active == 0,
            s.profile_views() == Seq::new(PROFILE_COUNT as nat, |i: int| default_profile_view(i)),
    {
        DisplaySettings::new()
    }
}

/// Where `k` rotations starting from profile `a` of `n` land.
pub open spec fn rotated(a: int, n: int, k: nat) -> int
    decreases k,
{
    if k == 0 {
        a
    } else {
        (rotated(a, n, (k - 1) as nat) + 1) % n
    }
}

proof fn lemma_rotated(a: int, n: int, k: nat)
    requires
        0 <= a < n,
    ensures
        rotated(a, n, k) == (a + k) % n,
    decreases k,
{
    if k > 0 {
        let j = (k - 1) as nat;
        lemma_rotated(a, n, j);
        assert(rotated(a, n, j) == (a + j) % n);
        assert(rotated(a, n, k) == (rotated(a, n, j) + 1) % n);
        vstd::arithmetic::div_mod::lemma_add_mod_noop_right(1, a + j, n);
        assert(a + j + 1 == a + k);
    } else {
        vstd::arithmetic::div_mod::lemma_small_mod(a as nat, n as nat);
    }
}

/// Rotating through every profile comes back to the one you started on.
pub proof fn lemma_rotation_cycles(a: int, n: int)
    requires
        0 <= a < n,
    ensures
        rotated(a, n, n as nat) == a,
{
    lemma_rotated(a, n, n as nat);
    vstd::arithmetic::div_mod::lemma_mod_add_multiples_vanish(a, n);
    vstd::arithmetic::div_mod::lemma_small_mod(a as nat, n as nat);
}

/// A document that already satisfies the invariants passes through sanitizing unchanged, so
/// loading what was saved gives back exactly what was saved.
pub proof fn lemma_sanitized_keeps_sane(active: usize, profiles: Seq<ProfileView>)
    requires
        active < PROFILE_COUNT,
        profiles.len() == PROFILE_COUNT,
        forall|i: int| 0 <= i < PROFILE_COUNT ==> profile_ok(#[trigger] profiles[i]),
    ensures
        clamped_active(active) == active,
        sanitized_views(profiles) == profiles,
{
    assert forall|i: int| 0 <= i < PROFILE_COUNT implies #[trigger] sanitized_views(profiles)[i]
        == profiles[i] by {
        let p = profiles[i];
        assert(profile_ok(p));
        assert(truncated(p.0) == p.0);
    }
    assert(sanitized_views(profiles) =~= profiles);
}

/// Every shape the stored display file has had: the profile list, or the flat single-profile
/// values that came before it. Any key may be missing.
pub struct RawDisplaySettings {
    pub active: Option<usize>,
    pub profiles: Option<Vec<DisplayProfile>>,
    pub luminance: Option<u8>,
    pub hue: Option<u8>,
    pub saturation: Option<u8>,
    pub contrast: Option<u8>,
    pub r: Option<u8>,
    pub g: Option<u8>,
    pub b: Option<u8>,
}

pub open spec fn or_neutral(v: Option<u8>) -> u8 {
    match v {
        Some(x) => x,
        None => 50,
    }
}

/// The profiles a flat file stands for: its values carried into the first slot, under the first
/// slot's name, with no warmth or dimming and the default backlight brightness, and the other
/// slots at their defaults.
pub open spec fn flat_views(raw: RawDisplaySettings) -> Seq<ProfileView> {
    seq![
        (
            default_profile_view(0).0,
            or_neutral(raw.luminance),
            or_neutral(raw.hue),
            or_neutral(raw.saturation),
            or_neutral(raw.contrast),
            or_neutral(raw.r),
            or_neutral(raw.g),
            or_neutral(raw.b),
            0,
            0,
            DEFAULT_BRIGHTNESS,
        ),
        default_profile_view(1),
        default_profile_view(2),
    ]
}

fn neutral_or(v: Option<u8>) -> (r: u8)
    ensures
        r == or_neutral(v),
{
    match v {
        Some(x) => x,
        None => 50,
    }
}

impl DisplaySettings {
    /// The settings a stored file stands for. A non-empty profile list is taken as it is, with
    /// `active` defaulting to the first; a file from before profiles existed has its values
    /// carried into the first profile, so upgrading does not reset the panel. Either way the
    /// result is sanitized.
    pub fn from_raw(raw: RawDisplaySettings) -> (s: DisplaySettings)
        ensures
            s.wf(),
            match raw.profiles {
                Some(ps) if ps.len() > 0 => {
                    &&& s.active == clamped_active(
                        match raw.active {
                            Some(a) => a,
                            None => 0,
                        },
                    )
                    &&& s.profile_views() == sanitized_views(
                        ps@.map_values(|p: DisplayProfile| p@),
                    )
                },
                _ => s.active == 0 && s.profile_views() == sanitized_views(flat_views(raw)),
            },
    {
        let ghost raw_copy = raw;
        match raw.profiles {
            Some(profiles) if profiles.len() > 0 => {
                let active = match raw.active {
                    Some(a) => a,
                    None => 0,
                };
                return DisplaySettings { active, profiles }.sanitized();
            },
            _ => {},
        }
        let mut settings = DisplaySettings::new();
        let ghost defaults = settings.profile_views();
        assert(defaults[0] == default_profile_view(0));
        assert(settings.profiles[0]@ == defaults[0]);
        assert(settings.profiles[1]@ == defaults[1]);
        assert(settings.profiles[2]@ == defaults[2]);
        let first = settings.active_mut();
        first.luminance = neutral_or(raw.luminance);
        first.hue = neutral_or(raw.hue);
        first.saturation = neutral_or(raw.saturation);
        first.contrast = neutral_or(raw.contrast);
        first.r = neutral_or(raw.r);
        first.g = neutral_or(raw.g);
        first.b = neutral_or(raw.b);
        assert(settings.profiles[1]@ == default_profile_view(1));
        assert(settings.profiles[2]@ == default_profile_view(2));
        assert(settings.profiles[0]@ == flat_views(raw_copy)[0]);
        assert(settings.profile_views() =~= flat_views(raw_copy));
        settings.sanitized()
    }
}

} // verus!
