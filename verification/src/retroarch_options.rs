//! The RetroArch settings Allium exposes, as data rather than code.
//!
//! Each entry names the keys it owns, the choices offered for it, and which file the choice is
//! written to. One screen renders any of these tables, so adding a setting is a table entry rather
//! than a new view.
//!
//! Button numbers are SDL joystick indices for this hardware, and RetroPad ids for remaps.
use vstd::prelude::*;

use crate::config_map::ConfigMap;
use crate::retroarch_config::{
    action_for, apply, apply_changes, change_view, clean_changes, config_dir_spec, core_name,
    opt_view, override_path, parse, parse_text, reads_back, remap_dir_spec, remap_path,
    scoped_path_spec, FileAction, OverrideScope,
};
use crate::text::{copy_string, str_eq};

verus! {

/// Which file a choice is written to. Pad remaps live in their own directory with their own
/// extension, and their key syntax is the inverse of a `.cfg`'s.
#[derive(Debug, Clone, Copy, PartialEq, Eq, Structural)]
pub enum Target {
    Cfg,
    Remap,
}

/// One option offered for a setting.
pub struct Choice {
    /// Locale key for what the user sees.
    pub label: &'static str,
    /// Keys and values this choice writes. Empty means "Default": every key the setting owns is
    /// removed, so whatever the tier below says applies instead.
    pub sets: Vec<(&'static str, &'static str)>,
}

/// One row on an override screen.
pub struct Setting {
    /// Locale key for the row label.
    pub label: &'static str,
    /// Locale key describing what the row does, shown under the list.
    pub description: &'static str,
    /// Every key this setting owns, so Default can clear all of them even when no single choice
    /// mentions them all.
    pub keys: Vec<&'static str>,
    pub target: Target,
    /// Index 0 is Default by convention: the one with no keys set.
    pub choices: Vec<Choice>,
}

/// The key/value pairs a choice writes.
pub open spec fn sets_view(c: Choice) -> Seq<(Seq<char>, Seq<char>)> {
    c.sets@.map_values(|p: (&'static str, &'static str)| (p.0@, p.1@))
}

/// The pairs choice `i` of `s` writes; nothing for an index past the end.
pub open spec fn choice_sets(s: Setting, i: int) -> Seq<(Seq<char>, Seq<char>)> {
    if 0 <= i < s.choices@.len() {
        sets_view(s.choices@[i])
    } else {
        Seq::empty()
    }
}

/// The value of the first pair for `key`.
pub open spec fn first_value(sets: Seq<(Seq<char>, Seq<char>)>, key: Seq<char>) -> Option<
    Seq<char>,
>
    decreases sets.len(),
{
    if sets.len() == 0 {
        None
    } else if sets[0].0 == key {
        Some(sets[0].1)
    } else {
        first_value(sets.drop_first(), key)
    }
}

/// Every pair is present in `m` with that value.
pub open spec fn matches(sets: Seq<(Seq<char>, Seq<char>)>, m: Map<Seq<char>, Seq<char>>) -> bool {
    forall|i: int| 0 <= i < sets.len() ==> #[trigger] m.contains_key(sets[i].0) && m[sets[i].0] == sets[i].1
}

/// The pair is present in `m` with that value.
pub open spec fn pair_holds(m: Map<Seq<char>, Seq<char>>, p: (Seq<char>, Seq<char>)) -> bool {
    m.contains_key(p.0) && m[p.0] == p.1
}

/// The first choice from `from` on that `m` matches, or 0 (Default) when none does.
pub open spec fn first_match(s: Setting, m: Map<Seq<char>, Seq<char>>, from: int) -> int
    decreases s.choices@.len() - from,
{
    if from >= s.choices@.len() || from < 1 {
        0
    } else if matches(choice_sets(s, from), m) {
        from
    } else {
        first_match(s, m, from + 1)
    }
}

/// Which choice the file contents `m` read as: the first after Default that matches.
pub open spec fn current_spec(s: Setting, m: Map<Seq<char>, Seq<char>>) -> int {
    first_match(s, m, 1)
}

/// What picking `choice` writes: every owned key, set to the choice's value or removed.
pub open spec fn changes_spec(s: Setting, choice: int) -> Seq<(Seq<char>, Option<Seq<char>>)> {
    Seq::new(
        s.keys@.len(),
        |i: int| (s.keys@[i]@, first_value(choice_sets(s, choice), s.keys@[i]@)),
    )
}

/// Which first pair holds `key`, when one does.
pub proof fn lemma_first_value(sets: Seq<(Seq<char>, Seq<char>)>, key: Seq<char>)
    ensures
        first_value(sets, key) is None <==> forall|i: int| 0 <= i < sets.len() ==> #[trigger] sets[i].0 != key,
        forall|i: int|
            0 <= i < sets.len() && #[trigger] sets[i].0 == key && (forall|j: int| 0 <= j < i ==> sets[j].0 != key)
                ==> first_value(sets, key) == Some(sets[i].1),
    decreases sets.len(),
{
    if sets.len() > 0 {
        let rest = sets.drop_first();
        lemma_first_value(rest, key);
        assert forall|i: int| 0 < i < sets.len() implies #[trigger] sets[i] == rest[i - 1] by {}
        if sets[0].0 != key {
            assert forall|i: int|
                0 <= i < sets.len() && #[trigger] sets[i].0 == key && (forall|j: int| 0 <= j < i ==> sets[j].0 != key)
                    implies first_value(sets, key) == Some(sets[i].1) by {
                assert(i > 0);
                assert forall|j: int| 0 <= j < i - 1 implies rest[j].0 != key by {
                    assert(rest[j] == sets[j + 1]);
                }
            }
        }
    }
}

fn first_value_exec(sets: &Vec<(&'static str, &'static str)>, key: &str) -> (r: Option<&'static str>)
    ensures
        match r {
            Some(v) => first_value(sets@.map_values(|p: (&'static str, &'static str)| (p.0@, p.1@)), key@) == Some(v@),
            None => first_value(sets@.map_values(|p: (&'static str, &'static str)| (p.0@, p.1@)), key@) is None,
        },
{
    let ghost view = sets@.map_values(|p: (&'static str, &'static str)| (p.0@, p.1@));
    proof {
        lemma_first_value(view, key@);
    }
    let mut i: usize = 0;
    while i < sets.len()
        invariant
            i <= sets@.len(),
            view == sets@.map_values(|p: (&'static str, &'static str)| (p.0@, p.1@)),
            forall|j: int| 0 <= j < i ==> view[j].0 != key@,
        decreases sets.len() - i,
    {
        if str_eq(sets[i].0, key) {
            assert(view[i as int] == (sets@[i as int].0@, sets@[i as int].1@));
            assert(view[i as int].0 == key@);
            proof {
                lemma_first_value(view, key@);
            }
            assert(first_value(view, key@) == Some(view[i as int].1));
            return Some(sets[i].1);
        }
        i += 1;
    }
    None
}

impl Choice {
    /// Whether every pair this choice writes is present in `map` with that value.
    pub fn matched_by(&self, map: &ConfigMap) -> (b: bool)
        requires
            map.wf(),
        ensures
            b == matches(sets_view(*self), map.map()),
    {
        let ghost view = sets_view(*self);
        let mut i: usize = 0;
        while i < self.sets.len()
            invariant
                i <= self.sets@.len(),
                view == sets_view(*self),
                map.wf(),
                forall|j: int| 0 <= j < i ==> pair_holds(map.map(), #[trigger] view[j]),
            decreases self.sets.len() - i,
        {
            let (key, value) = self.sets[i];
            assert(view[i as int] == (key@, value@));
            match map.get(key) {
                Some(v) => {
                    if !str_eq(v.as_str(), value) {
                        assert(!(map.map().contains_key(view[i as int].0) && map.map()[view[i as int].0] == view[i as int].1));
                        return false;
                    }
                },
                None => {
                    assert(!map.map().contains_key(view[i as int].0));
                    return false;
                },
            }
            assert(pair_holds(map.map(), view[i as int]));
            i += 1;
        }
        assert(matches(view, map.map())) by {
            assert forall|j: int| 0 <= j < view.len() implies #[trigger] map.map().contains_key(view[j].0) && map.map()[view[j].0] == view[j].1 by {
                assert(pair_holds(map.map(), view[j]));
            }
        }
        true
    }
}

impl Setting {
    /// Which choice the given file contents currently match.
    ///
    /// A choice matches when every key it sets is present with that value. Falls back to 0
    /// (Default), which is also the answer when the keys are absent: exactly what an unset
    /// setting at this tier looks like. Index 0 is never tested, since Default sets nothing and
    /// would match every file.
    pub fn current(&self, map: &ConfigMap) -> (r: usize)
        requires
            map.wf(),
        ensures
            r == current_spec(*self, map.map()),
    {
        let mut i: usize = 1;
        while i < self.choices.len()
            invariant
                1 <= i,
                map.wf(),
                first_match(*self, map.map(), 1) == first_match(*self, map.map(), i as int),
            decreases self.choices.len() - i,
        {
            if self.choices[i].matched_by(map) {
                return i;
            }
            i += 1;
        }
        0
    }

    /// The change set for picking `choice`: every key this setting owns, set to what the choice
    /// writes for it or removed. Clearing what the choice does not write is what makes switching
    /// between choices that own different keys leave nothing behind.
    pub fn changes(&self, choice: usize) -> (r: Vec<(&'static str, Option<String>)>)
        ensures
            r@.map_values(|c: (&'static str, Option<String>)| change_view(c)) == changes_spec(*self, choice as int),
            r@.len() == self.keys@.len(),
            forall|i: int| 0 <= i < r@.len() ==> #[trigger] r@[i].0 == self.keys@[i],
    {
        let mut r: Vec<(&'static str, Option<String>)> = Vec::new();
        let mut i: usize = 0;
        let ghost sets = choice_sets(*self, choice as int);
        while i < self.keys.len()
            invariant
                i <= self.keys@.len(),
                r@.len() == i,
                sets == choice_sets(*self, choice as int),
                forall|j: int| 0 <= j < i ==> #[trigger] r@[j].0 == self.keys@[j],
                forall|j: int| 0 <= j < i ==> change_view(#[trigger] r@[j]) == changes_spec(*self, choice as int)[j],
            decreases self.keys.len() - i,
        {
            let key = self.keys[i];
            let value = if choice < self.choices.len() {
                match first_value_exec(&self.choices[choice].sets, key) {
                    Some(v) => Some(copy_string(v)),
                    None => None,
                }
            } else {
                proof {
                    lemma_first_value(sets, key@);
                }
                None
            };
            r.push((key, value));
            i += 1;
        }
        assert(r@.map_values(|c: (&'static str, Option<String>)| change_view(c)) =~= changes_spec(*self, choice as int));
        r
    }
}

/// The setting's keys are distinct.
pub open spec fn unique_owned_keys(s: Setting) -> bool {
    forall|i: int, j: int| 0 <= i < j < s.keys@.len() ==> #[trigger] s.keys@[i]@ != #[trigger] s.keys@[j]@
}

/// Some key of `s` is `k`.
pub open spec fn owns(s: Setting, k: Seq<char>) -> bool {
    exists|i: int| 0 <= i < s.keys@.len() && s.keys@[i]@ == k
}

/// A setting table entry that behaves: Default first and writing nothing, every choice writing
/// only keys the setting owns and each at most once, and no two choices writing alike.
pub open spec fn well_formed_setting(s: Setting) -> bool {
    &&& s.choices@.len() > 0
    &&& choice_sets(s, 0).len() == 0
    &&& unique_owned_keys(s)
    &&& forall|c: int, q: int|
        0 <= c < s.choices@.len() && 0 <= q < choice_sets(s, c).len() ==> owns(s, #[trigger] choice_sets(s, c)[q].0)
    &&& forall|c: int, q1: int, q2: int|
        0 <= c < s.choices@.len() && 0 <= q1 < q2 < choice_sets(s, c).len() ==> #[trigger] choice_sets(s, c)[q1].0
            != #[trigger] choice_sets(s, c)[q2].0
    &&& forall|i: int, j: int|
        1 <= i < s.choices@.len() && 1 <= j < s.choices@.len() && i != j ==> #[trigger] distinguished(s, i, j)
}

/// Some pair choice `i` writes is not what choice `j` writes for that key.
pub open spec fn distinguished(s: Setting, i: int, j: int) -> bool {
    exists|q: int|
        0 <= q < choice_sets(s, i).len() && #[trigger] first_value(choice_sets(s, j), choice_sets(s, i)[q].0) != Some(
            choice_sets(s, i)[q].1,
        )
}

/// Over changes to distinct keys, each key ends up as its own change says and every other key
/// as it was.
pub proof fn lemma_apply_distinct_changes(
    m: Map<Seq<char>, Seq<char>>,
    cs: Seq<(Seq<char>, Option<Seq<char>>)>,
    k: Seq<char>,
)
    requires
        forall|i: int, j: int| 0 <= i < j < cs.len() ==> #[trigger] cs[i].0 != #[trigger] cs[j].0,
    ensures
        (forall|i: int| 0 <= i < cs.len() ==> #[trigger] cs[i].0 != k) ==> (apply_changes(m, cs).contains_key(k)
            == m.contains_key(k) && (m.contains_key(k) ==> apply_changes(m, cs)[k] == m[k])),
        forall|i: int|
            0 <= i < cs.len() && #[trigger] cs[i].0 == k ==> match cs[i].1 {
                Some(v) => apply_changes(m, cs).contains_key(k) && apply_changes(m, cs)[k] == v,
                None => !apply_changes(m, cs).contains_key(k),
            },
    decreases cs.len(),
{
    if cs.len() > 0 {
        let next = match cs[0].1 {
            Some(v) => m.insert(cs[0].0, v),
            None => m.remove(cs[0].0),
        };
        let rest = cs.drop_first();
        assert forall|i: int, j: int| 0 <= i < j < rest.len() implies #[trigger] rest[i].0 != #[trigger] rest[j].0 by {
            assert(rest[i] == cs[i + 1]);
            assert(rest[j] == cs[j + 1]);
        }
        lemma_apply_distinct_changes(next, rest, k);
        assert forall|i: int| 0 < i < cs.len() implies #[trigger] cs[i] == rest[i - 1] by {}
        if cs[0].0 == k {
            assert forall|i: int| 0 <= i < rest.len() implies #[trigger] rest[i].0 != k by {
                assert(rest[i] == cs[i + 1]);
            }
        }
    }
}

proof fn lemma_first_match(s: Setting, m: Map<Seq<char>, Seq<char>>, from: int, j: int)
    requires
        1 <= from <= j < s.choices@.len(),
        matches(choice_sets(s, j), m),
        forall|i: int| from <= i < j ==> !matches(#[trigger] choice_sets(s, i), m),
    ensures
        first_match(s, m, from) == j,
    decreases j - from,
{
    if from < j {
        assert(!matches(choice_sets(s, from), m));
        lemma_first_match(s, m, from + 1, j);
    }
}

/// Picking Default removes every key the setting owns and leaves all other keys as they were.
pub proof fn lemma_default_clears(s: Setting, m: Map<Seq<char>, Seq<char>>)
    requires
        s.choices@.len() > 0,
        choice_sets(s, 0).len() == 0,
        unique_owned_keys(s),
    ensures
        forall|i: int| 0 <= i < s.keys@.len() ==> !apply_changes(m, changes_spec(s, 0)).contains_key(#[trigger] s.keys@[i]@),
        forall|k: Seq<char>|
            !owns(s, k) ==> (#[trigger] apply_changes(m, changes_spec(s, 0)).contains_key(k) == m.contains_key(k) && (
            m.contains_key(k) ==> apply_changes(m, changes_spec(s, 0))[k] == m[k])),
{
    let cs = changes_spec(s, 0);
    assert forall|i: int, j: int| 0 <= i < j < cs.len() implies #[trigger] cs[i].0 != #[trigger] cs[j].0 by {}
    assert forall|i: int| 0 <= i < s.keys@.len() implies !apply_changes(m, cs).contains_key(#[trigger] s.keys@[i]@) by {
        lemma_apply_distinct_changes(m, cs, s.keys@[i]@);
        assert(cs[i].0 == s.keys@[i]@);
        assert(cs[i].1 is None);
    }
    assert forall|k: Seq<char>| !owns(s, k) implies (#[trigger] apply_changes(m, cs).contains_key(k) == m.contains_key(k) && (
    m.contains_key(k) ==> apply_changes(m, cs)[k] == m[k])) by {
        lemma_apply_distinct_changes(m, cs, k);
        assert forall|i: int| 0 <= i < cs.len() implies #[trigger] cs[i].0 != k by {
            if cs[i].0 == k {
                assert(s.keys@[i]@ == k);
            }
        }
    }
}

/// What a choice writes over an empty file reads back as that same choice.
pub proof fn lemma_written_choice_reads_back(s: Setting, j: int)
    requires
        well_formed_setting(s),
        1 <= j < s.choices@.len(),
    ensures
        current_spec(s, apply_changes(Map::empty(), changes_spec(s, j))) == j,
{
    let cs = changes_spec(s, j);
    let w = apply_changes(Map::empty(), cs);
    let sj = choice_sets(s, j);
    assert forall|a: int, b: int| 0 <= a < b < cs.len() implies #[trigger] cs[a].0 != #[trigger] cs[b].0 by {}
    // a key the setting owns holds exactly what choice `j` writes for it
    assert forall|k: Seq<char>| owns(s, k) implies (#[trigger] w.contains_key(k) <==> first_value(sj, k) is Some) && (
    w.contains_key(k) ==> Some(w[k]) == first_value(sj, k)) by {
        let i = choose|i: int| 0 <= i < s.keys@.len() && s.keys@[i]@ == k;
        lemma_apply_distinct_changes(Map::empty(), cs, k);
        assert(cs[i].0 == k);
    }
    // a key the setting does not own is absent
    assert forall|k: Seq<char>| !owns(s, k) implies !(#[trigger] w.contains_key(k)) by {
        lemma_apply_distinct_changes(Map::empty(), cs, k);
        assert forall|i: int| 0 <= i < cs.len() implies #[trigger] cs[i].0 != k by {
            if cs[i].0 == k {
                assert(s.keys@[i]@ == k);
            }
        }
    }
    // choice `j` matches what it wrote
    assert(matches(sj, w)) by {
        assert forall|q: int| 0 <= q < sj.len() implies #[trigger] w.contains_key(sj[q].0) && w[sj[q].0] == sj[q].1 by {
            assert(owns(s, sj[q].0));
            lemma_first_value(sj, sj[q].0);
            assert forall|p: int| 0 <= p < q implies sj[p].0 != sj[q].0 by {
                assert(choice_sets(s, j)[p].0 != choice_sets(s, j)[q].0);
            }
        }
    }
    // no choice before it does
    assert forall|i: int| 1 <= i < j implies !matches(#[trigger] choice_sets(s, i), w) by {
        let si = choice_sets(s, i);
        assert(distinguished(s, i, j));
        let q = choose|q: int| 0 <= q < si.len() && #[trigger] first_value(sj, si[q].0) != Some(si[q].1);
        assert(owns(s, si[q].0));
        if w.contains_key(si[q].0) {
            assert(w[si[q].0] != si[q].1);
        }
    }
    lemma_first_match(s, w, 1, j);
}

/// The override files belonging to one game.
pub struct Overrides {
    core_name: String,
    rom: String,
    sd_root: String,
}

impl Overrides {
    /// The core's own name, which override directories are named after.
    pub closed spec fn core_view(self) -> Seq<char> {
        self.core_name@
    }

    /// The ROM the overrides are for.
    pub closed spec fn rom_path(self) -> Seq<char> {
        self.rom@
    }

    /// The root of the card the files live on.
    pub closed spec fn root(self) -> Seq<char> {
        self.sd_root@
    }

    /// The file a scope and target name for this game, if any.
    pub open spec fn path_spec(self, scope: OverrideScope, target: Target) -> Option<Seq<char>> {
        match target {
            Target::Cfg => scoped_path_spec(config_dir_spec(self.root()), scope, self.core_view(), self.rom_path(), ".cfg"@),
            Target::Remap => scoped_path_spec(remap_dir_spec(self.root()), scope, self.core_view(), self.rom_path(), ".rmp"@),
        }
    }

    /// The overrides for `rom`, given the core's `.info` file.
    ///
    /// `None` when that file names no core: without the name there is no directory to write into,
    /// and guessing one would produce files RetroArch never reads.
    pub fn new(info: &str, rom: String, sd_root: String) -> (r: Option<Self>)
        ensures
            match r {
                Some(o) => parse_text(info@).contains_key("corename"@) && o.core_view() == parse_text(info@)["corename"@]
                    && o.core_view().len() > 0 && o.rom_path() == rom@ && o.root() == sd_root@,
                None => !parse_text(info@).contains_key("corename"@) || parse_text(info@)["corename"@].len() == 0,
            },
    {
        match core_name(info) {
            Some(name) => Some(Overrides { core_name: name, rom, sd_root }),
            None => None,
        }
    }

    pub fn core_name(&self) -> (name: &str)
        ensures
            name@ == self.core_view(),
    {
        self.core_name.as_str()
    }

    /// The file a scope and target name for this game.
    pub fn path(&self, scope: OverrideScope, target: Target) -> (r: Option<String>)
        ensures
            opt_view(r) == self.path_spec(scope, target),
    {
        match target {
            Target::Cfg => override_path(self.sd_root.as_str(), scope, self.core_name.as_str(), self.rom.as_str()),
            Target::Remap => remap_path(self.sd_root.as_str(), scope, self.core_name.as_str(), self.rom.as_str()),
        }
    }

    /// Whether this scope names a file for this game. Only `Console` can fail to, for a ROM at the
    /// top with no folder for RetroArch to match on.
    pub fn supports(&self, scope: OverrideScope) -> (b: bool)
        ensures
            b == self.path_spec(scope, Target::Cfg) is Some,
    {
        self.path(scope, Target::Cfg).is_some()
    }

    /// What is set at this scope, and only at this scope, given the text of the file it names
    /// (`None` when that file does not exist or cannot be read). Deliberately not the merge of the
    /// tiers: the screen edits one tier at a time, and a value inherited from a broader scope would
    /// look as though it had been chosen here.
    pub fn read(&self, scope: OverrideScope, target: Target, text: Option<&str>) -> (m: ConfigMap)
        ensures
            m.wf(),
            m.map() == match (self.path_spec(scope, target), text) {
                (Some(_), Some(t)) => parse_text(t@),
                _ => Map::empty(),
            },
    {
        if self.path(scope, target).is_none() {
            return ConfigMap::new();
        }
        match text {
            Some(t) => parse(t),
            None => ConfigMap::new(),
        }
    }

    /// What picking `choice` of `setting` at `scope` does to the file it lives in, which holds
    /// `existing` (`exists` says whether it is there at all). `None` when the scope names no file.
    pub fn apply(
        &self,
        scope: OverrideScope,
        setting: &Setting,
        choice: usize,
        existing: &str,
        exists: bool,
    ) -> (r: Option<FileAction>)
        ensures
            r is None <==> self.path_spec(scope, setting.target) is None,
            r matches Some(a) ==> action_for(a, existing@, exists, apply_changes(parse_text(existing@), changes_spec(*setting, choice as int))),
            r matches Some(a) ==> (clean_changes(changes_spec(*setting, choice as int)) ==> reads_back(
                a,
                existing@,
                apply_changes(parse_text(existing@), changes_spec(*setting, choice as int)),
            )),
    {
        if self.path(scope, setting.target).is_none() {
            return None;
        }
        let changes = setting.changes(choice);
        Some(apply(existing, exists, &changes))
    }
}

/// A choice as plain values: its label and the pairs it writes.
pub open spec fn choice_view(c: Choice) -> (Seq<char>, Seq<(Seq<char>, Seq<char>)>) {
    (c.label@, sets_view(c))
}

/// A setting as plain values: its label, description, keys, target and choices.
pub open spec fn setting_view(s: Setting) -> (
    Seq<char>,
    Seq<char>,
    Seq<Seq<char>>,
    Target,
    Seq<(Seq<char>, Seq<(Seq<char>, Seq<char>)>)>,
) {
    (
        s.label@,
        s.description@,
        s.keys@.map_values(|k: &'static str| k@),
        s.target,
        choices_view(s.choices@),
    )
}

/// The choice a setting offers first: Default, which writes nothing.
pub open spec fn default_choice() -> (Seq<char>, Seq<(Seq<char>, Seq<char>)>) {
    ("override-default"@, Seq::empty())
}

/// A setting that owns the one key `key`: Default first, then one choice for each
/// `(label, value)` of `offered`, writing `key = value`.
pub open spec fn one_key_setting(
    label: Seq<char>,
    description: Seq<char>,
    key: Seq<char>,
    target: Target,
    offered: Seq<(Seq<char>, Seq<char>)>,
) -> (Seq<char>, Seq<char>, Seq<Seq<char>>, Target, Seq<(Seq<char>, Seq<(Seq<char>, Seq<char>)>)>) {
    (
        label,
        description,
        seq![key],
        target,
        seq![default_choice()] + offered.map_values(
            |o: (Seq<char>, Seq<char>)| (o.0, seq![(key, o.1)]),
        ),
    )
}

/// On and off, as `true` and `false`.
pub open spec fn on_off() -> Seq<(Seq<char>, Seq<char>)> {
    seq![("override-on"@, "true"@), ("override-off"@, "false"@)]
}

/// Off, written as `off`, then each button by its number: A 8, B 0, X 9, Y 1, L 10, R 11, L2 12,
/// R2 13, Start 3, Select 2.
pub open spec fn button_choices(off: Seq<char>) -> Seq<(Seq<char>, Seq<char>)> {
    seq![
        ("override-off"@, off),
        ("override-button-a"@, "8"@),
        ("override-button-b"@, "0"@),
        ("override-button-x"@, "9"@),
        ("override-button-y"@, "1"@),
        ("override-button-l"@, "10"@),
        ("override-button-r"@, "11"@),
        ("override-button-l2"@, "12"@),
        ("override-button-r2"@, "13"@),
        ("override-button-start"@, "3"@),
        ("override-button-select"@, "2"@),
    ]
}

/// The Options screen, as plain values.
pub open spec fn options_table() -> Seq<
    (Seq<char>, Seq<char>, Seq<Seq<char>>, Target, Seq<(Seq<char>, Seq<(Seq<char>, Seq<char>)>)>),
> {
    seq![
        one_key_setting(
            "override-aspect-ratio"@,
            "override-desc-aspect-ratio"@,
            "video_dingux_ipu_keep_aspect"@,
            Target::Cfg,
            seq![("override-aspect-ratio-keep"@, "true"@), ("override-aspect-ratio-full"@, "false"@)],
        ),
        one_key_setting(
            "override-auto-save"@,
            "override-desc-auto-save"@,
            "savestate_auto_save"@,
            Target::Cfg,
            on_off(),
        ),
        one_key_setting(
            "override-auto-load"@,
            "override-desc-auto-load"@,
            "savestate_auto_load"@,
            Target::Cfg,
            on_off(),
        ),
        one_key_setting(
            "override-fast-forward-ratio"@,
            "override-desc-fast-forward-ratio"@,
            "fastforward_ratio"@,
            Target::Cfg,
            seq![
                ("override-ratio-2x"@, "2.0"@),
                ("override-ratio-4x"@, "4.0"@),
                ("override-ratio-unlimited"@, "0.0"@),
            ],
        ),
        one_key_setting("override-show-fps"@, "override-desc-show-fps"@, "fps_show"@, Target::Cfg, on_off()),
        one_key_setting(
            "override-rewind"@,
            "override-desc-rewind"@,
            "rewind_enable"@,
            Target::Cfg,
            on_off(),
        ),
    ]
}

/// The Controls screen, as plain values.
pub open spec fn controls_table() -> Seq<
    (Seq<char>, Seq<char>, Seq<Seq<char>>, Target, Seq<(Seq<char>, Seq<(Seq<char>, Seq<char>)>)>),
> {
    seq![
        one_key_setting(
            "override-hotkey-gate"@,
            "override-desc-hotkey-gate"@,
            "input_enable_hotkey_btn"@,
            Target::Cfg,
            seq![
                ("override-off"@, "nul"@),
                ("override-button-menu"@, "14"@),
                ("override-button-l2"@, "12"@),
                ("override-button-r2"@, "13"@),
            ],
        ),
        one_key_setting(
            "override-hotkey-fast-forward"@,
            "override-desc-hotkey"@,
            "input_toggle_fast_forward_btn"@,
            Target::Cfg,
            button_choices("nul"@),
        ),
        one_key_setting(
            "override-hotkey-rewind"@,
            "override-desc-hotkey"@,
            "input_rewind_btn"@,
            Target::Cfg,
            button_choices("nul"@),
        ),
        one_key_setting(
            "override-hotkey-save-state"@,
            "override-desc-hotkey"@,
            "input_save_state_btn"@,
            Target::Cfg,
            button_choices("nul"@),
        ),
        one_key_setting(
            "override-hotkey-load-state"@,
            "override-desc-hotkey"@,
            "input_load_state_btn"@,
            Target::Cfg,
            button_choices("nul"@),
        ),
        one_key_setting(
            "override-hotkey-screenshot"@,
            "override-desc-hotkey"@,
            "input_screenshot_btn"@,
            Target::Cfg,
            button_choices("nul"@),
        ),
        one_key_setting(
            "override-remap-a"@,
            "override-desc-remap"@,
            "input_player1_btn_a"@,
            Target::Remap,
            button_choices("-1"@),
        ),
        one_key_setting(
            "override-remap-b"@,
            "override-desc-remap"@,
            "input_player1_btn_b"@,
            Target::Remap,
            button_choices("-1"@),
        ),
        one_key_setting(
            "override-remap-x"@,
            "override-desc-remap"@,
            "input_player1_btn_x"@,
            Target::Remap,
            button_choices("-1"@),
        ),
        one_key_setting(
            "override-remap-y"@,
            "override-desc-remap"@,
            "input_player1_btn_y"@,
            Target::Remap,
            button_choices("-1"@),
        ),
        one_key_setting(
            "override-remap-l"@,
            "override-desc-remap"@,
            "input_player1_btn_l"@,
            Target::Remap,
            button_choices("-1"@),
        ),
        one_key_setting(
            "override-remap-r"@,
            "override-desc-remap"@,
            "input_player1_btn_r"@,
            Target::Remap,
            button_choices("-1"@),
        ),
        one_key_setting(
            "override-remap-l2"@,
            "override-desc-remap"@,
            "input_player1_btn_l2"@,
            Target::Remap,
            button_choices("-1"@),
        ),
        one_key_setting(
            "override-remap-r2"@,
            "override-desc-remap"@,
            "input_player1_btn_r2"@,
            Target::Remap,
            button_choices("-1"@),
        ),
    ]
}

/// The choices as plain values.
pub open spec fn choices_view(cs: Seq<Choice>) -> Seq<(Seq<char>, Seq<(Seq<char>, Seq<char>)>)> {
    cs.map_values(|c: Choice| choice_view(c))
}

/// The pairs' views.
pub open spec fn pairs_view(v: Seq<(&'static str, &'static str)>) -> Seq<(Seq<char>, Seq<char>)> {
    v.map_values(|p: (&'static str, &'static str)| (p.0@, p.1@))
}

/// No two of `offered` write the same value.
pub open spec fn distinct_values(offered: Seq<(Seq<char>, Seq<char>)>) -> bool {
    forall|a: int, b: int| 0 <= a < b < offered.len() ==> #[trigger] offered[a].1 != #[trigger] offered[b].1
}

/// The setting `one_key_setting` describes; see there.
fn one_key(
    label: &'static str,
    description: &'static str,
    key: &'static str,
    target: Target,
    offered: Vec<(&'static str, &'static str)>,
) -> (s: Setting)
    ensures
        setting_view(s) == one_key_setting(label@, description@, key@, target, pairs_view(offered@)),
{
    let mut choices: Vec<Choice> = vec![Choice { label: "override-default", sets: vec![] }];
    let ghost spec_choices = one_key_setting(label@, description@, key@, target, pairs_view(offered@)).4;
    assert(spec_choices.len() == offered@.len() + 1) by {
        assert(pairs_view(offered@).len() == offered@.len());
    }
    assert(spec_choices[0] == default_choice());
    assert(sets_view(choices@[0]) =~= Seq::<(Seq<char>, Seq<char>)>::empty());
    assert(choices_view(choices@) =~= spec_choices.take(1int));
    let mut i: usize = 0;
    while i < offered.len()
        invariant
            i <= offered@.len(),
            choices@.len() == i + 1,
            spec_choices.len() == offered@.len() + 1,
            spec_choices == one_key_setting(label@, description@, key@, target, pairs_view(offered@)).4,
            choices_view(choices@) == spec_choices.take(i as int + 1),
        decreases offered.len() - i,
    {
        let (l, v) = offered[i];
        let c = Choice { label: l, sets: vec![(key, v)] };
        assert(choice_view(c) == spec_choices[i + 1]) by {
            assert(sets_view(c) =~= seq![(key@, v@)]);
        }
        let ghost before = choices@;
        choices.push(c);
        assert forall|k: int| 0 <= k < i as int + 2 implies #[trigger] choices_view(choices@)[k]
            == spec_choices.take(i as int + 2)[k] by {
            if k < i as int + 1 {
                assert(choices@[k] == before[k]);
                assert(choices_view(before)[k] == spec_choices.take(i as int + 1)[k]);
            }
        }
        assert(choices_view(choices@) =~= spec_choices.take(i as int + 2));
        i += 1;
    }
    assert(spec_choices.take(offered@.len() as int + 1) =~= spec_choices);
    let s = Setting { label, description, keys: vec![key], target, choices };
    assert(s.keys@.map_values(|k: &'static str| k@) =~= seq![key@]);
    s
}

/// A setting built by `one_key_setting` from distinct values behaves: it is well formed, and an
/// empty file reads as Default, since every other choice writes its key.
proof fn lemma_one_key_behaves(
    s: Setting,
    label: Seq<char>,
    description: Seq<char>,
    key: Seq<char>,
    target: Target,
    offered: Seq<(Seq<char>, Seq<char>)>,
)
    requires
        setting_view(s) == one_key_setting(label, description, key, target, offered),
        distinct_values(offered),
    ensures
        well_formed_setting(s),
        current_spec(s, Map::empty()) == 0,
{
    let cv = choices_view(s.choices@);
    let kv = s.keys@.map_values(|k: &'static str| k@);
    assert(cv == one_key_setting(label, description, key, target, offered).4);
    assert(kv == seq![key]);
    assert(kv.len() == s.keys@.len());
    assert(s.keys@.len() == 1);
    assert(cv.len() == s.choices@.len());
    assert(s.choices@.len() == offered.len() + 1);
    assert(s.keys@[0]@ == key) by {
        assert(s.keys@.map_values(|k: &'static str| k@)[0] == s.keys@[0]@);
    }
    assert forall|c: int| 0 <= c < s.choices@.len() implies #[trigger] choice_sets(s, c) == if c == 0 {
        Seq::<(Seq<char>, Seq<char>)>::empty()
    } else {
        seq![(key, offered[c - 1].1)]
    } by {
        assert(cv[c] == choice_view(s.choices@[c]));
    }
    assert(choice_sets(s, 0).len() == 0);
    assert forall|c: int, q: int| 0 <= c < s.choices@.len() && 0 <= q < choice_sets(s, c).len() implies owns(
        s,
        #[trigger] choice_sets(s, c)[q].0,
    ) by {
        assert(choice_sets(s, c)[q].0 == key);
        assert(s.keys@[0]@ == key);
    }
    assert forall|i: int, j: int| 1 <= i < s.choices@.len() && 1 <= j < s.choices@.len() && i != j implies #[trigger] distinguished(
        s,
        i,
        j,
    ) by {
        assert(choice_sets(s, i)[0].0 == key);
        assert(first_value(choice_sets(s, j), key) == Some(offered[j - 1].1)) by {
            reveal_with_fuel(first_value, 2);
        }
        if i < j {
            assert(offered[i - 1].1 != offered[j - 1].1);
        } else {
            assert(offered[j - 1].1 != offered[i - 1].1);
        }
        assert(first_value(choice_sets(s, j), choice_sets(s, i)[0].0) != Some(choice_sets(s, i)[0].1));
    }
    assert forall|c: int| 1 <= c < s.choices@.len() implies !matches(
        #[trigger] choice_sets(s, c),
        Map::<Seq<char>, Seq<char>>::empty(),
    ) by {
        assert(choice_sets(s, c).len() == 1);
        assert(!Map::<Seq<char>, Seq<char>>::empty().contains_key(choice_sets(s, c)[0].0));
    }
    lemma_nothing_matches_empty(s, 1);
}

proof fn lemma_nothing_matches_empty(s: Setting, from: int)
    requires
        1 <= from,
        forall|c: int| 1 <= c < s.choices@.len() ==> !matches(
            #[trigger] choice_sets(s, c),
            Map::<Seq<char>, Seq<char>>::empty(),
        ),
    ensures
        first_match(s, Map::empty(), from) == 0,
    decreases s.choices@.len() - from,
{
    if from < s.choices@.len() {
        lemma_nothing_matches_empty(s, from + 1);
    }
}

fn on_off_exec() -> (r: Vec<(&'static str, &'static str)>)
    ensures
        pairs_view(r@) == on_off(),
{
    let r = vec![("override-on", "true"), ("override-off", "false")];
    assert(pairs_view(r@) =~= on_off());
    r
}

fn button_choices_exec(off: &'static str) -> (r: Vec<(&'static str, &'static str)>)
    ensures
        pairs_view(r@) == button_choices(off@),
{
    let r = vec![
        ("override-off", off),
        ("override-button-a", "8"),
        ("override-button-b", "0"),
        ("override-button-x", "9"),
        ("override-button-y", "1"),
        ("override-button-l", "10"),
        ("override-button-r", "11"),
        ("override-button-l2", "12"),
        ("override-button-r2", "13"),
        ("override-button-start", "3"),
        ("override-button-select", "2"),
    ];
    assert(pairs_view(r@) =~= button_choices(off@));
    r
}

/// The values the tables write are distinct within each setting.
proof fn lemma_table_values_distinct()
    ensures
        distinct_values(on_off()),
        distinct_values(button_choices("nul"@)),
        distinct_values(button_choices("-1"@)),
        distinct_values(seq![("override-aspect-ratio-keep"@, "true"@), ("override-aspect-ratio-full"@, "false"@)]),
        distinct_values(
            seq![
                ("override-ratio-2x"@, "2.0"@),
                ("override-ratio-4x"@, "4.0"@),
                ("override-ratio-unlimited"@, "0.0"@),
            ],
        ),
        distinct_values(
            seq![
                ("override-off"@, "nul"@),
                ("override-button-menu"@, "14"@),
                ("override-button-l2"@, "12"@),
                ("override-button-r2"@, "13"@),
            ],
        ),
{
    reveal_strlit("true");
    reveal_strlit("false");
    reveal_strlit("nul");
    reveal_strlit("-1");
    reveal_strlit("8");
    reveal_strlit("0");
    reveal_strlit("9");
    reveal_strlit("1");
    reveal_strlit("10");
    reveal_strlit("11");
    reveal_strlit("12");
    reveal_strlit("13");
    reveal_strlit("14");
    reveal_strlit("3");
    reveal_strlit("2");
    reveal_strlit("2.0");
    reveal_strlit("4.0");
    reveal_strlit("0.0");
    assert(distinct_values(button_choices("nul"@))) by {
        let b = button_choices("nul"@);
        assert forall|a: int, c: int| 0 <= a < c < b.len() implies #[trigger] b[a].1 != #[trigger] b[c].1 by {
            assert(b[a].1.len() != b[c].1.len() || b[a].1[0] != b[c].1[0] || b[a].1[b[a].1.len() - 1]
                != b[c].1[b[c].1.len() - 1]);
        }
    }
    assert(distinct_values(button_choices("-1"@))) by {
        let b = button_choices("-1"@);
        assert forall|a: int, c: int| 0 <= a < c < b.len() implies #[trigger] b[a].1 != #[trigger] b[c].1 by {
            assert(b[a].1.len() != b[c].1.len() || b[a].1[0] != b[c].1[0] || b[a].1[b[a].1.len() - 1]
                != b[c].1[b[c].1.len() - 1]);
        }
    }
    let g = seq![
        ("override-off"@, "nul"@),
        ("override-button-menu"@, "14"@),
        ("override-button-l2"@, "12"@),
        ("override-button-r2"@, "13"@),
    ];
    assert forall|a: int, c: int| 0 <= a < c < g.len() implies #[trigger] g[a].1 != #[trigger] g[c].1 by {
        assert(g[a].1.len() != g[c].1.len() || g[a].1[0] != g[c].1[0] || g[a].1[g[a].1.len() - 1]
            != g[c].1[g[c].1.len() - 1]);
    }
    let f = seq![
        ("override-ratio-2x"@, "2.0"@),
        ("override-ratio-4x"@, "4.0"@),
        ("override-ratio-unlimited"@, "0.0"@),
    ];
    assert forall|a: int, c: int| 0 <= a < c < f.len() implies #[trigger] f[a].1 != #[trigger] f[c].1 by {
        assert(f[a].1[0] != f[c].1[0]);
    }
    let t = seq![("override-aspect-ratio-keep"@, "true"@), ("override-aspect-ratio-full"@, "false"@)];
    assert(t[0].1.len() != t[1].1.len());
    assert(on_off()[0].1.len() != on_off()[1].1.len());
}

/// The Options screen: aspect ratio, auto-save, auto-load, fast-forward ratio, the FPS counter
/// and rewind; see [`options_table`]. Every setting is well formed, and an empty file reads as
/// Default for each.
pub fn options() -> (settings: Vec<Setting>)
    ensures
        settings@.len() == 6,
        forall|i: int| 0 <= i < 6 ==> setting_view(#[trigger] settings@[i]) == options_table()[i],
        forall|i: int|
            0 <= i < 6 ==> well_formed_setting(#[trigger] settings@[i]) && current_spec(
                settings@[i],
                Map::empty(),
            ) == 0,
{
    let v = vec![
        one_key(
            "override-aspect-ratio",
            "override-desc-aspect-ratio",
            "video_dingux_ipu_keep_aspect",
            Target::Cfg,
            vec![("override-aspect-ratio-keep", "true"), ("override-aspect-ratio-full", "false")],
        ),
        one_key("override-auto-save", "override-desc-auto-save", "savestate_auto_save", Target::Cfg, on_off_exec()),
        one_key("override-auto-load", "override-desc-auto-load", "savestate_auto_load", Target::Cfg, on_off_exec()),
        one_key(
            "override-fast-forward-ratio",
            "override-desc-fast-forward-ratio",
            "fastforward_ratio",
            Target::Cfg,
            vec![
                ("override-ratio-2x", "2.0"),
                ("override-ratio-4x", "4.0"),
                ("override-ratio-unlimited", "0.0"),
            ],
        ),
        one_key("override-show-fps", "override-desc-show-fps", "fps_show", Target::Cfg, on_off_exec()),
        one_key("override-rewind", "override-desc-rewind", "rewind_enable", Target::Cfg, on_off_exec()),
    ];
    proof {
        let t = options_table();
        assert(pairs_view(seq![("override-aspect-ratio-keep", "true"), ("override-aspect-ratio-full", "false")])
            =~= seq![("override-aspect-ratio-keep"@, "true"@), ("override-aspect-ratio-full"@, "false"@)]);
        assert(pairs_view(
            seq![("override-ratio-2x", "2.0"), ("override-ratio-4x", "4.0"), ("override-ratio-unlimited", "0.0")],
        ) =~= seq![
            ("override-ratio-2x"@, "2.0"@),
            ("override-ratio-4x"@, "4.0"@),
            ("override-ratio-unlimited"@, "0.0"@),
        ]);
        lemma_table_values_distinct();
        assert forall|i: int| 0 <= i < 6 implies setting_view(#[trigger] v@[i]) == t[i] by {}
        assert forall|i: int| 0 <= i < 6 implies well_formed_setting(#[trigger] v@[i]) && current_spec(
            v@[i],
            Map::empty(),
        ) == 0 by {
            let (l, d, ks, tg, cs) = t[i];
            assert(setting_view(v@[i]) == t[i]);
            if i == 0 {
                lemma_one_key_behaves(v@[i], l, d, "video_dingux_ipu_keep_aspect"@, tg, seq![
                    ("override-aspect-ratio-keep"@, "true"@),
                    ("override-aspect-ratio-full"@, "false"@),
                ]);
            } else if i == 1 {
                lemma_one_key_behaves(v@[i], l, d, "savestate_auto_save"@, tg, on_off());
            } else if i == 2 {
                lemma_one_key_behaves(v@[i], l, d, "savestate_auto_load"@, tg, on_off());
            } else if i == 3 {
                lemma_one_key_behaves(v@[i], l, d, "fastforward_ratio"@, tg, seq![
                    ("override-ratio-2x"@, "2.0"@),
                    ("override-ratio-4x"@, "4.0"@),
                    ("override-ratio-unlimited"@, "0.0"@),
                ]);
            } else if i == 4 {
                lemma_one_key_behaves(v@[i], l, d, "fps_show"@, tg, on_off());
            } else {
                lemma_one_key_behaves(v@[i], l, d, "rewind_enable"@, tg, on_off());
            }
        }
    }
    v
}

/// The Controls screen: the hotkey gate, the hotkeys themselves, then pad remapping; see
/// [`controls_table`]. Every setting is well formed, and an empty file reads as Default for each.
pub fn controls() -> (settings: Vec<Setting>)
    ensures
        settings@.len() == 14,
        forall|i: int| 0 <= i < 14 ==> setting_view(#[trigger] settings@[i]) == controls_table()[i],
        forall|i: int|
            0 <= i < 14 ==> well_formed_setting(#[trigger] settings@[i]) && current_spec(
                settings@[i],
                Map::empty(),
            ) == 0,
{
    let v = vec![
        one_key(
            "override-hotkey-gate",
            "override-desc-hotkey-gate",
            "input_enable_hotkey_btn",
            Target::Cfg,
            vec![
                ("override-off", "nul"),
                ("override-button-menu", "14"),
                ("override-button-l2", "12"),
                ("override-button-r2", "13"),
            ],
        ),
        one_key("override-hotkey-fast-forward", "override-desc-hotkey", "input_toggle_fast_forward_btn", Target::Cfg, button_choices_exec("nul")),
        one_key("override-hotkey-rewind", "override-desc-hotkey", "input_rewind_btn", Target::Cfg, button_choices_exec("nul")),
        one_key("override-hotkey-save-state", "override-desc-hotkey", "input_save_state_btn", Target::Cfg, button_choices_exec("nul")),
        one_key("override-hotkey-load-state", "override-desc-hotkey", "input_load_state_btn", Target::Cfg, button_choices_exec("nul")),
        one_key("override-hotkey-screenshot", "override-desc-hotkey", "input_screenshot_btn", Target::Cfg, button_choices_exec("nul")),
        one_key(
            "override-remap-a",
            "override-desc-remap",
            "input_player1_btn_a",
            Target::Remap,
            button_choices_exec("-1"),
        ),
        one_key(
            "override-remap-b",
            "override-desc-remap",
            "input_player1_btn_b",
            Target::Remap,
            button_choices_exec("-1"),
        ),
        one_key(
            "override-remap-x",
            "override-desc-remap",
            "input_player1_btn_x",
            Target::Remap,
            button_choices_exec("-1"),
        ),
        one_key(
            "override-remap-y",
            "override-desc-remap",
            "input_player1_btn_y",
            Target::Remap,
            button_choices_exec("-1"),
        ),
        one_key(
            "override-remap-l",
            "override-desc-remap",
            "input_player1_btn_l",
            Target::Remap,
            button_choices_exec("-1"),
        ),
        one_key(
            "override-remap-r",
            "override-desc-remap",
            "input_player1_btn_r",
            Target::Remap,
            button_choices_exec("-1"),
        ),
        one_key(
            "override-remap-l2",
            "override-desc-remap",
            "input_player1_btn_l2",
            Target::Remap,
            button_choices_exec("-1"),
        ),
        one_key(
            "override-remap-r2",
            "override-desc-remap",
            "input_player1_btn_r2",
            Target::Remap,
            button_choices_exec("-1"),
        ),
    ];
    proof {
        let t = controls_table();
        assert(pairs_view(
            seq![("override-off", "nul"), ("override-button-menu", "14"), ("override-button-l2", "12"), ("override-button-r2", "13")],
        ) =~= seq![
            ("override-off"@, "nul"@),
            ("override-button-menu"@, "14"@),
            ("override-button-l2"@, "12"@),
            ("override-button-r2"@, "13"@),
        ]);
        lemma_table_values_distinct();
        assert forall|i: int| 0 <= i < 14 implies setting_view(#[trigger] v@[i]) == t[i] by {}
        assert forall|i: int| 0 <= i < 14 implies well_formed_setting(#[trigger] v@[i]) && current_spec(
            v@[i],
            Map::empty(),
        ) == 0 by {
            let (l, d, ks, tg, cs) = t[i];
            assert(setting_view(v@[i]) == t[i]);
            if i == 0 {
                lemma_one_key_behaves(v@[i], l, d, "input_enable_hotkey_btn"@, tg, seq![
                    ("override-off"@, "nul"@),
                    ("override-button-menu"@, "14"@),
                    ("override-button-l2"@, "12"@),
                    ("override-button-r2"@, "13"@),
                ]);
            } else if i == 1 {
                lemma_one_key_behaves(v@[i], l, d, "input_toggle_fast_forward_btn"@, tg, button_choices("nul"@));
            } else if i == 2 {
                lemma_one_key_behaves(v@[i], l, d, "input_rewind_btn"@, tg, button_choices("nul"@));
            } else if i == 3 {
                lemma_one_key_behaves(v@[i], l, d, "input_save_state_btn"@, tg, button_choices("nul"@));
            } else if i == 4 {
                lemma_one_key_behaves(v@[i], l, d, "input_load_state_btn"@, tg, button_choices("nul"@));
            } else if i == 5 {
                lemma_one_key_behaves(v@[i], l, d, "input_screenshot_btn"@, tg, button_choices("nul"@));
            } else if i == 6 {
                lemma_one_key_behaves(v@[i], l, d, "input_player1_btn_a"@, tg, button_choices("-1"@));
            } else if i == 7 {
                lemma_one_key_behaves(v@[i], l, d, "input_player1_btn_b"@, tg, button_choices("-1"@));
            } else if i == 8 {
                lemma_one_key_behaves(v@[i], l, d, "input_player1_btn_x"@, tg, button_choices("-1"@));
            } else if i == 9 {
                lemma_one_key_behaves(v@[i], l, d, "input_player1_btn_y"@, tg, button_choices("-1"@));
            } else if i == 10 {
                lemma_one_key_behaves(v@[i], l, d, "input_player1_btn_l"@, tg, button_choices("-1"@));
            } else if i == 11 {
                lemma_one_key_behaves(v@[i], l, d, "input_player1_btn_r"@, tg, button_choices("-1"@));
            } else if i == 12 {
                lemma_one_key_behaves(v@[i], l, d, "input_player1_btn_l2"@, tg, button_choices("-1"@));
            } else {
                lemma_one_key_behaves(v@[i], l, d, "input_player1_btn_r2"@, tg, button_choices("-1"@));
            }
        }
    }
    v
}


/// Picking the choice labelled `label` in `s` sets `key` to `value` and touches no other key.
pub open spec fn writes(s: Setting, label: Seq<char>, key: Seq<char>, value: Seq<char>) -> bool {
    exists|c: int|
        1 <= c < s.choices@.len() && #[trigger] s.choices@[c].label@ == label && changes_spec(s, c) == seq![
            (key, Some(value)),
        ]
}

/// The first choice of `s` is Default, and picking it removes `key` and touches no other key.
pub open spec fn default_clears(s: Setting, key: Seq<char>) -> bool {
    &&& s.choices@.len() > 0
    &&& s.choices@[0].label@ == "override-default"@
    &&& changes_spec(s, 0) == seq![(key, None::<Seq<char>>)]
}

/// Every button choice of `s` writes that button's number to `key`, and Off writes `off`: A is
/// 8, B 0, X 9, Y 1, L 10, R 11, L2 12, R2 13, Start 3 and Select 2.
pub open spec fn writes_button_numbers(s: Setting, key: Seq<char>, off: Seq<char>) -> bool {
    &&& default_clears(s, key)
    &&& writes(s, "override-off"@, key, off)
    &&& writes(s, "override-button-a"@, key, "8"@)
    &&& writes(s, "override-button-b"@, key, "0"@)
    &&& writes(s, "override-button-x"@, key, "9"@)
    &&& writes(s, "override-button-y"@, key, "1"@)
    &&& writes(s, "override-button-l"@, key, "10"@)
    &&& writes(s, "override-button-r"@, key, "11"@)
    &&& writes(s, "override-button-l2"@, key, "12"@)
    &&& writes(s, "override-button-r2"@, key, "13"@)
    &&& writes(s, "override-button-start"@, key, "3"@)
    &&& writes(s, "override-button-select"@, key, "2"@)
}

/// In a setting `one_key_setting` describes, each offered choice writes its value to the key,
/// and Default clears it.
proof fn lemma_one_key_writes(
    s: Setting,
    label: Seq<char>,
    description: Seq<char>,
    key: Seq<char>,
    target: Target,
    offered: Seq<(Seq<char>, Seq<char>)>,
    k: int,
)
    requires
        setting_view(s) == one_key_setting(label, description, key, target, offered),
        0 <= k < offered.len(),
    ensures
        writes(s, offered[k].0, key, offered[k].1),
        default_clears(s, key),
        s.target == target,
{
    let cv = choices_view(s.choices@);
    let kv = s.keys@.map_values(|k: &'static str| k@);
    assert(cv == one_key_setting(label, description, key, target, offered).4);
    assert(kv == seq![key]);
    assert(kv.len() == s.keys@.len());
    assert(cv.len() == s.choices@.len());
    assert(s.keys@[0]@ == key) by {
        assert(kv[0] == s.keys@[0]@);
    }
    let c = k + 1;
    assert(cv[c] == choice_view(s.choices@[c]));
    assert(cv[c] == (offered[k].0, seq![(key, offered[k].1)]));
    assert(choice_sets(s, c) == seq![(key, offered[k].1)]);
    assert(first_value(choice_sets(s, c), key) == Some(offered[k].1));
    assert(changes_spec(s, c) =~= seq![(key, Some(offered[k].1))]);
    assert(s.choices@[c].label@ == offered[k].0);
    assert(cv[0] == choice_view(s.choices@[0]));
    assert(cv[0] == default_choice());
    assert(choice_sets(s, 0).len() == 0);
    assert(first_value(choice_sets(s, 0), key) is None);
    assert(changes_spec(s, 0) =~= seq![(key, None::<Seq<char>>)]);
}

/// A setting `one_key_setting` describes over [`button_choices`] writes each button's number.
proof fn lemma_buttons_written(
    s: Setting,
    label: Seq<char>,
    description: Seq<char>,
    key: Seq<char>,
    target: Target,
    off: Seq<char>,
)
    requires
        setting_view(s) == one_key_setting(label, description, key, target, button_choices(off)),
    ensures
        writes_button_numbers(s, key, off),
        s.target == target,
{
    let b = button_choices(off);
    lemma_one_key_writes(s, label, description, key, target, b, 0);
    lemma_one_key_writes(s, label, description, key, target, b, 1);
    lemma_one_key_writes(s, label, description, key, target, b, 2);
    lemma_one_key_writes(s, label, description, key, target, b, 3);
    lemma_one_key_writes(s, label, description, key, target, b, 4);
    lemma_one_key_writes(s, label, description, key, target, b, 5);
    lemma_one_key_writes(s, label, description, key, target, b, 6);
    lemma_one_key_writes(s, label, description, key, target, b, 7);
    lemma_one_key_writes(s, label, description, key, target, b, 8);
    lemma_one_key_writes(s, label, description, key, target, b, 9);
    lemma_one_key_writes(s, label, description, key, target, b, 10);
}

/// Every choice on the Options screen writes what its label names, to the setting's own key:
/// aspect ratio Keep and Full write `true` and `false`; auto-save, auto-load, the FPS counter and
/// rewind write `true` for On and `false` for Off; fast-forward 2x, 4x and Unlimited write `2.0`,
/// `4.0` and `0.0`. Default clears the key. All of them live in the override file.
#[verifier::rlimit(50)]
pub proof fn lemma_options_write_what_they_name(settings: Seq<Setting>)
    requires
        settings.len() == 6,
        forall|i: int| 0 <= i < 6 ==> setting_view(#[trigger] settings[i]) == options_table()[i],
    ensures
        default_clears(settings[0], "video_dingux_ipu_keep_aspect"@),
        writes(settings[0], "override-aspect-ratio-keep"@, "video_dingux_ipu_keep_aspect"@, "true"@),
        writes(settings[0], "override-aspect-ratio-full"@, "video_dingux_ipu_keep_aspect"@, "false"@),
        default_clears(settings[1], "savestate_auto_save"@),
        writes(settings[1], "override-on"@, "savestate_auto_save"@, "true"@),
        writes(settings[1], "override-off"@, "savestate_auto_save"@, "false"@),
        default_clears(settings[2], "savestate_auto_load"@),
        writes(settings[2], "override-on"@, "savestate_auto_load"@, "true"@),
        writes(settings[2], "override-off"@, "savestate_auto_load"@, "false"@),
        default_clears(settings[3], "fastforward_ratio"@),
        writes(settings[3], "override-ratio-2x"@, "fastforward_ratio"@, "2.0"@),
        writes(settings[3], "override-ratio-4x"@, "fastforward_ratio"@, "4.0"@),
        writes(settings[3], "override-ratio-unlimited"@, "fastforward_ratio"@, "0.0"@),
        default_clears(settings[4], "fps_show"@),
        writes(settings[4], "override-on"@, "fps_show"@, "true"@),
        writes(settings[4], "override-off"@, "fps_show"@, "false"@),
        default_clears(settings[5], "rewind_enable"@),
        writes(settings[5], "override-on"@, "rewind_enable"@, "true"@),
        writes(settings[5], "override-off"@, "rewind_enable"@, "false"@),
        forall|i: int| 0 <= i < 6 ==> (#[trigger] settings[i]).target == Target::Cfg,
{
    let t = options_table();
    let aspect = seq![("override-aspect-ratio-keep"@, "true"@), ("override-aspect-ratio-full"@, "false"@)];
    let ratios = seq![
        ("override-ratio-2x"@, "2.0"@),
        ("override-ratio-4x"@, "4.0"@),
        ("override-ratio-unlimited"@, "0.0"@),
    ];
    assert(setting_view(settings[0]) == t[0]);
    assert(setting_view(settings[1]) == t[1]);
    assert(setting_view(settings[2]) == t[2]);
    assert(setting_view(settings[3]) == t[3]);
    assert(setting_view(settings[4]) == t[4]);
    assert(setting_view(settings[5]) == t[5]);
    lemma_one_key_writes(settings[0], t[0].0, t[0].1, "video_dingux_ipu_keep_aspect"@, Target::Cfg, aspect, 0);
    lemma_one_key_writes(settings[0], t[0].0, t[0].1, "video_dingux_ipu_keep_aspect"@, Target::Cfg, aspect, 1);
    lemma_one_key_writes(settings[1], t[1].0, t[1].1, "savestate_auto_save"@, Target::Cfg, on_off(), 0);
    lemma_one_key_writes(settings[1], t[1].0, t[1].1, "savestate_auto_save"@, Target::Cfg, on_off(), 1);
    lemma_one_key_writes(settings[2], t[2].0, t[2].1, "savestate_auto_load"@, Target::Cfg, on_off(), 0);
    lemma_one_key_writes(settings[2], t[2].0, t[2].1, "savestate_auto_load"@, Target::Cfg, on_off(), 1);
    lemma_one_key_writes(settings[3], t[3].0, t[3].1, "fastforward_ratio"@, Target::Cfg, ratios, 0);
    lemma_one_key_writes(settings[3], t[3].0, t[3].1, "fastforward_ratio"@, Target::Cfg, ratios, 1);
    lemma_one_key_writes(settings[3], t[3].0, t[3].1, "fastforward_ratio"@, Target::Cfg, ratios, 2);
    lemma_one_key_writes(settings[4], t[4].0, t[4].1, "fps_show"@, Target::Cfg, on_off(), 0);
    lemma_one_key_writes(settings[4], t[4].0, t[4].1, "fps_show"@, Target::Cfg, on_off(), 1);
    lemma_one_key_writes(settings[5], t[5].0, t[5].1, "rewind_enable"@, Target::Cfg, on_off(), 0);
    lemma_one_key_writes(settings[5], t[5].0, t[5].1, "rewind_enable"@, Target::Cfg, on_off(), 1);
}

/// Every choice on the Controls screen writes what its label names, to the setting's own key.
/// The hotkey gate writes `nul` when off, else the number of the button picked (Menu is 14).
/// Each hotkey writes button numbers, `nul` when off, to its own key in the override file; each
/// pad remap writes them, `-1` when off, to its own button's key in the remap file. Default
/// clears the key.
#[verifier::rlimit(50)]
pub proof fn lemma_controls_write_what_they_name(settings: Seq<Setting>)
    requires
        settings.len() == 14,
        forall|i: int| 0 <= i < 14 ==> setting_view(#[trigger] settings[i]) == controls_table()[i],
    ensures
        default_clears(settings[0], "input_enable_hotkey_btn"@),
        writes(settings[0], "override-off"@, "input_enable_hotkey_btn"@, "nul"@),
        writes(settings[0], "override-button-menu"@, "input_enable_hotkey_btn"@, "14"@),
        writes(settings[0], "override-button-l2"@, "input_enable_hotkey_btn"@, "12"@),
        writes(settings[0], "override-button-r2"@, "input_enable_hotkey_btn"@, "13"@),
        writes_button_numbers(settings[1], "input_toggle_fast_forward_btn"@, "nul"@),
        writes_button_numbers(settings[2], "input_rewind_btn"@, "nul"@),
        writes_button_numbers(settings[3], "input_save_state_btn"@, "nul"@),
        writes_button_numbers(settings[4], "input_load_state_btn"@, "nul"@),
        writes_button_numbers(settings[5], "input_screenshot_btn"@, "nul"@),
        writes_button_numbers(settings[6], "input_player1_btn_a"@, "-1"@),
        writes_button_numbers(settings[7], "input_player1_btn_b"@, "-1"@),
        writes_button_numbers(settings[8], "input_player1_btn_x"@, "-1"@),
        writes_button_numbers(settings[9], "input_player1_btn_y"@, "-1"@),
        writes_button_numbers(settings[10], "input_player1_btn_l"@, "-1"@),
        writes_button_numbers(settings[11], "input_player1_btn_r"@, "-1"@),
        writes_button_numbers(settings[12], "input_player1_btn_l2"@, "-1"@),
        writes_button_numbers(settings[13], "input_player1_btn_r2"@, "-1"@),
        forall|i: int| 0 <= i < 6 ==> (#[trigger] settings[i]).target == Target::Cfg,
        forall|i: int| 6 <= i < 14 ==> (#[trigger] settings[i]).target == Target::Remap,
{
    let t = controls_table();
    let gate = seq![
        ("override-off"@, "nul"@),
        ("override-button-menu"@, "14"@),
        ("override-button-l2"@, "12"@),
        ("override-button-r2"@, "13"@),
    ];
    assert(setting_view(settings[0]) == t[0]);
    lemma_one_key_writes(settings[0], t[0].0, t[0].1, "input_enable_hotkey_btn"@, Target::Cfg, gate, 0);
    lemma_one_key_writes(settings[0], t[0].0, t[0].1, "input_enable_hotkey_btn"@, Target::Cfg, gate, 1);
    lemma_one_key_writes(settings[0], t[0].0, t[0].1, "input_enable_hotkey_btn"@, Target::Cfg, gate, 2);
    lemma_one_key_writes(settings[0], t[0].0, t[0].1, "input_enable_hotkey_btn"@, Target::Cfg, gate, 3);
    assert(setting_view(settings[1]) == t[1]);
    lemma_buttons_written(settings[1], t[1].0, t[1].1, "input_toggle_fast_forward_btn"@, Target::Cfg, "nul"@);
    assert(setting_view(settings[2]) == t[2]);
    lemma_buttons_written(settings[2], t[2].0, t[2].1, "input_rewind_btn"@, Target::Cfg, "nul"@);
    assert(setting_view(settings[3]) == t[3]);
    lemma_buttons_written(settings[3], t[3].0, t[3].1, "input_save_state_btn"@, Target::Cfg, "nul"@);
    assert(setting_view(settings[4]) == t[4]);
    lemma_buttons_written(settings[4], t[4].0, t[4].1, "input_load_state_btn"@, Target::Cfg, "nul"@);
    assert(setting_view(settings[5]) == t[5]);
    lemma_buttons_written(settings[5], t[5].0, t[5].1, "input_screenshot_btn"@, Target::Cfg, "nul"@);
    assert(setting_view(settings[6]) == t[6]);
    lemma_buttons_written(settings[6], t[6].0, t[6].1, "input_player1_btn_a"@, Target::Remap, "-1"@);
    assert(setting_view(settings[7]) == t[7]);
    lemma_buttons_written(settings[7], t[7].0, t[7].1, "input_player1_btn_b"@, Target::Remap, "-1"@);
    assert(setting_view(settings[8]) == t[8]);
    lemma_buttons_written(settings[8], t[8].0, t[8].1, "input_player1_btn_x"@, Target::Remap, "-1"@);
    assert(setting_view(settings[9]) == t[9]);
    lemma_buttons_written(settings[9], t[9].0, t[9].1, "input_player1_btn_y"@, Target::Remap, "-1"@);
    assert(setting_view(settings[10]) == t[10]);
    lemma_buttons_written(settings[10], t[10].0, t[10].1, "input_player1_btn_l"@, Target::Remap, "-1"@);
    assert(setting_view(settings[11]) == t[11]);
    lemma_buttons_written(settings[11], t[11].0, t[11].1, "input_player1_btn_r"@, Target::Remap, "-1"@);
    assert(setting_view(settings[12]) == t[12]);
    lemma_buttons_written(settings[12], t[12].0, t[12].1, "input_player1_btn_l2"@, Target::Remap, "-1"@);
    assert(setting_view(settings[13]) == t[13]);
    lemma_buttons_written(settings[13], t[13].0, t[13].1, "input_player1_btn_r2"@, Target::Remap, "-1"@);
}

} // verus!
