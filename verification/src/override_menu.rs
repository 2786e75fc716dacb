//! The in-game override screens: a scope picker over a table of RetroArch settings, each row
//! showing and writing what is set at the chosen scope.
use vstd::prelude::*;

use crate::config_map::ConfigMap;
use crate::menu::{
    described_layout, described_list_layout, is_select, keys_view, layout_fits, Control,
    ListLayout, ListMetrics, Rect, Row,
};
use crate::retroarch_config::{action_for, apply_changes, clean_changes, parse_text, reads_back, FileAction, OverrideScope};
use crate::retroarch_options::{changes_spec, current_spec, Overrides, Setting, Target};

verus! {

/// Row 0 is always the scope picker; the settings start below it.
pub const ROW_SCOPE: usize = 0;

pub open spec fn scope_key_spec(scope: OverrideScope) -> Seq<char> {
    match scope {
        OverrideScope::Game => "override-scope-game"@,
        OverrideScope::Console => "override-scope-console"@,
        OverrideScope::Core => "override-scope-core"@,
    }
}

/// The locale key naming a scope.
pub fn scope_key(scope: OverrideScope) -> (k: &'static str)
    ensures
        k@ == scope_key_spec(scope),
{
    match scope {
        OverrideScope::Game => "override-scope-game",
        OverrideScope::Console => "override-scope-console",
        OverrideScope::Core => "override-scope-core",
    }
}

/// The scopes offered for a game, in order: game, console, core, leaving out any that names no
/// file for it.
pub open spec fn offered_scopes(o: Overrides) -> Seq<OverrideScope> {
    seq![OverrideScope::Game, OverrideScope::Console, OverrideScope::Core].filter(
        |s: OverrideScope| o.path_spec(s, Target::Cfg) is Some,
    )
}

/// The labels of a setting's choices.
pub open spec fn choice_labels(s: Setting) -> Seq<Seq<char>> {
    s.choices@.map_values(|c: crate::retroarch_options::Choice| c.label@)
}

/// `row` is `before` with its select now on `selected`, its options kept.
pub open spec fn reselected(row: Row, before: Row, selected: int) -> bool {
    &&& row.label == before.label
    &&& row.control matches Control::Select { selected: s, options } && s == selected
    &&& before.control matches Control::Select { options: o, .. } ==> (row.control matches Control::Select { options, .. } && options@ == o@)
}

/// Where a setting's row reads its state: the override file for a `.cfg` setting, the remap
/// file for a remap.
pub open spec fn state_for(s: Setting, cfg: Map<Seq<char>, Seq<char>>, remap: Map<Seq<char>, Seq<char>>) -> Map<Seq<char>, Seq<char>> {
    if s.target == Target::Cfg {
        cfg
    } else {
        remap
    }
}

/// What an edit on the screen calls for.
#[derive(Clone, Copy, Debug, PartialEq, Eq, Structural)]
pub enum OverrideEdit {
    /// Nothing to do.
    Nothing,
    /// The scope changed: every row is to be read again at the new scope.
    ScopeChanged,
    /// This choice of the setting on this row is to be written at the current scope.
    Commit { row: usize, choice: usize },
}

/// A screen of override rows, driven by whichever settings table it is handed.
pub struct OverrideSettings {
    pub settings: Vec<Setting>,
    pub overrides: Overrides,
    /// The scopes offered, in the order of the scope row's choices.
    pub scopes: Vec<OverrideScope>,
    pub scope: OverrideScope,
    pub rows: Vec<Row>,
    pub layout: ListLayout,
    pub selected: usize,
}

impl OverrideSettings {
    /// The screen for `settings` and a game's `overrides` in `rect`, with the button hints
    /// starting at `hints_y`: the scope row first, on the first scope offered, then a row per
    /// setting offering its choices, each on its first until the rows are read.
    pub fn new(
        rect: Rect,
        hints_y: i32,
        metrics: ListMetrics,
        settings: Vec<Setting>,
        overrides: Overrides,
    ) -> (v: OverrideSettings)
        requires
            layout_fits(rect, hints_y, metrics),
            i32::MIN <= rect.y + (described_layout(rect, hints_y, metrics).list.h as i32) <= i32::MAX,
            settings.len() < usize::MAX,
        ensures
            v.settings@ == settings@,
            v.overrides == overrides,
            v.scopes@ == offered_scopes(overrides),
            v.scope == if offered_scopes(overrides).len() > 0 {
                offered_scopes(overrides)[0]
            } else {
                OverrideScope::Game
            },
            v.layout == described_layout(rect, hints_y, metrics),
            v.selected == 0,
            v.rows.len() == settings.len() + 1,
            v.rows[0].label@ == "override-scope"@,
            is_select(
                v.rows[0].control,
                0,
                offered_scopes(overrides).map_values(|s: OverrideScope| scope_key_spec(s)),
            ),
            forall|i: int|
                0 <= i < settings.len() ==> (#[trigger] v.rows[i + 1]).label@ == settings[i].label@
                    && is_select(v.rows[i + 1].control, 0, choice_labels(settings[i])),
    {
        let layout = described_list_layout(rect, hints_y, metrics);
        let all = vec![OverrideScope::Game, OverrideScope::Console, OverrideScope::Core];
        let ghost keep = |s: OverrideScope| overrides.path_spec(s, Target::Cfg) is Some;
        let mut scopes: Vec<OverrideScope> = Vec::new();
        let mut i: usize = 0;
        while i < all.len()
            invariant
                i <= all.len() == 3,
                all@ == seq![OverrideScope::Game, OverrideScope::Console, OverrideScope::Core],
                keep == (|s: OverrideScope| overrides.path_spec(s, Target::Cfg) is Some),
                scopes@ == all@.take(i as int).filter(keep),
            decreases all.len() - i,
        {
            proof {
                reveal(Seq::filter);
                assert(all@.take(i + 1).drop_last() =~= all@.take(i as int));
            }
            if overrides.supports(all[i]) {
                scopes.push(all[i]);
            }
            i += 1;
        }
        assert(all@.take(3) =~= all@);
        let scope = if scopes.len() > 0 {
            scopes[0]
        } else {
            OverrideScope::default()
        };
        let mut scope_options: Vec<&'static str> = Vec::new();
        let mut j: usize = 0;
        while j < scopes.len()
            invariant
                j <= scopes.len(),
                scope_options.len() == j,
                forall|k: int| 0 <= k < j ==> #[trigger] scope_options@[k]@ == scope_key_spec(scopes@[k]),
            decreases scopes.len() - j,
        {
            scope_options.push(scope_key(scopes[j]));
            j += 1;
        }
        assert(keys_view(scope_options@) =~= scopes@.map_values(|s: OverrideScope| scope_key_spec(s)));
        let mut rows: Vec<Row> = vec![
            Row {
                label: "override-scope",
                control: Control::Select { selected: 0, options: scope_options },
            },
        ];
        let mut n: usize = 0;
        while n < settings.len()
            invariant
                n <= settings.len() < usize::MAX,
                rows.len() == n + 1,
                rows[0].label@ == "override-scope"@,
                is_select(
                    rows[0].control,
                    0,
                    offered_scopes(overrides).map_values(|s: OverrideScope| scope_key_spec(s)),
                ),
                scopes@ == offered_scopes(overrides),
                forall|k: int|
                    0 <= k < n ==> (#[trigger] rows[k + 1]).label@ == settings[k].label@
                        && is_select(rows[k + 1].control, 0, choice_labels(settings[k])),
            decreases settings.len() - n,
        {
            let setting = &settings[n];
            let mut labels: Vec<&'static str> = Vec::new();
            let mut c: usize = 0;
            while c < setting.choices.len()
                invariant
                    c <= setting.choices.len(),
                    labels.len() == c,
                    forall|k: int| 0 <= k < c ==> #[trigger] labels@[k]@ == setting.choices@[k].label@,
                decreases setting.choices.len() - c,
            {
                labels.push(setting.choices[c].label);
                c += 1;
            }
            assert(keys_view(labels@) =~= choice_labels(*setting));
            let ghost before = rows@;
            rows.push(Row { label: setting.label, control: Control::Select { selected: 0, options: labels } });
            assert(forall|k: int| 0 <= k <= n ==> rows@[k] == before[k]);
            n += 1;
        }
        OverrideSettings { settings, overrides, scopes, scope, rows, layout, selected: 0 }
    }

    /// The index in the table of the setting a row edits, or `None` for the scope row.
    pub fn setting(&self, row: usize) -> (r: Option<usize>)
        ensures
            r == if row >= 1 && row - 1 < self.settings.len() {
                Some((row - 1) as usize)
            } else {
                None::<usize>
            },
    {
        if row >= 1 && row - 1 < self.settings.len() {
            Some(row - 1)
        } else {
            None
        }
    }

    /// Takes in a committed choice: on the scope row the scope at that position, if offered;
    /// on a setting row a write of that choice. A negative choice reads as the first.
    pub fn value_changed(&mut self, row: usize, value: i32) -> (e: OverrideEdit)
        ensures
            final(self).settings == old(self).settings,
            final(self).overrides == old(self).overrides,
            final(self).scopes == old(self).scopes,
            final(self).rows == old(self).rows,
            final(self).layout == old(self).layout,
            final(self).selected == old(self).selected,
            ({
                let choice = if value < 0 {
                    0
                } else {
                    value as usize
                };
                if row == ROW_SCOPE {
                    &&& e == OverrideEdit::ScopeChanged
                    &&& final(self).scope == if choice < old(self).scopes.len() {
                        old(self).scopes[choice as int]
                    } else {
                        old(self).scope
                    }
                } else {
                    &&& final(self).scope == old(self).scope
                    &&& e == if row - 1 < old(self).settings.len() {
                        OverrideEdit::Commit { row, choice }
                    } else {
                        OverrideEdit::Nothing
                    }
                }
            }),
    {
        let choice: usize = if value < 0 {
            0
        } else {
            value as usize
        };
        if row == ROW_SCOPE {
            if choice < self.scopes.len() {
                self.scope = self.scopes[choice];
            }
            OverrideEdit::ScopeChanged
        } else if row - 1 < self.settings.len() {
            OverrideEdit::Commit { row, choice }
        } else {
            OverrideEdit::Nothing
        }
    }

    /// The screen as it opens: [`OverrideSettings::new`], then every setting row read from what
    /// is set at the first scope offered; `cfg` holds that scope's override file and `remap` its
    /// remap file.
    pub fn open(
        rect: Rect,
        hints_y: i32,
        metrics: ListMetrics,
        settings: Vec<Setting>,
        overrides: Overrides,
        cfg: &ConfigMap,
        remap: &ConfigMap,
    ) -> (v: OverrideSettings)
        requires
            layout_fits(rect, hints_y, metrics),
            i32::MIN <= rect.y + (described_layout(rect, hints_y, metrics).list.h as i32) <= i32::MAX,
            settings.len() < usize::MAX,
            cfg.wf(),
            remap.wf(),
        ensures
            v.settings@ == settings@,
            v.overrides == overrides,
            v.scopes@ == offered_scopes(overrides),
            v.scope == if offered_scopes(overrides).len() > 0 {
                offered_scopes(overrides)[0]
            } else {
                OverrideScope::Game
            },
            v.layout == described_layout(rect, hints_y, metrics),
            v.selected == 0,
            v.rows.len() == settings.len() + 1,
            v.rows[0].label@ == "override-scope"@,
            is_select(
                v.rows[0].control,
                0,
                offered_scopes(overrides).map_values(|s: OverrideScope| scope_key_spec(s)),
            ),
            forall|i: int|
                0 <= i < settings.len() ==> (#[trigger] v.rows[i + 1]).label@ == settings[i].label@
                    && is_select(
                    v.rows[i + 1].control,
                    current_spec(settings[i], state_for(settings[i], cfg.map(), remap.map())) as usize,
                    choice_labels(settings[i]),
                ),
    {
        let mut v = OverrideSettings::new(rect, hints_y, metrics, settings, overrides);
        let ghost before = v.rows@;
        v.reload_rows(cfg, remap);
        assert forall|i: int| 0 <= i < settings.len() implies (#[trigger] v.rows[i + 1]).label@
            == settings[i].label@ && is_select(
            v.rows[i + 1].control,
            current_spec(settings[i], state_for(settings[i], cfg.map(), remap.map())) as usize,
            choice_labels(settings[i]),
        ) by {
            assert(v.settings[i] == settings[i]);
            assert(is_select(before[i + 1].control, 0, choice_labels(settings[i])));
            assert(reselected(v.rows[i + 1], before[i + 1], current_spec(v.settings[i], state_for(v.settings[i], cfg.map(), remap.map()))));
        }
        v
    }

    /// The selected choice of every setting row, read from what is set at the current scope:
    /// `cfg` holds the scope's override file and `remap` its remap file.
    pub fn reload_rows(&mut self, cfg: &ConfigMap, remap: &ConfigMap)
        requires
            cfg.wf(),
            remap.wf(),
            old(self).rows.len() == old(self).settings.len() + 1,
        ensures
            final(self).settings == old(self).settings,
            final(self).overrides == old(self).overrides,
            final(self).scopes == old(self).scopes,
            final(self).scope == old(self).scope,
            final(self).layout == old(self).layout,
            final(self).selected == old(self).selected,
            final(self).rows.len() == old(self).rows.len(),
            final(self).rows[0] == old(self).rows[0],
            forall|i: int|
                0 <= i < old(self).settings.len() ==> reselected(
                    #[trigger] final(self).rows[i + 1],
                    old(self).rows[i + 1],
                    current_spec(old(self).settings[i], state_for(old(self).settings[i], cfg.map(), remap.map())),
                ),
    {
        let mut i: usize = 0;
        while i < self.settings.len()
            invariant
                i <= self.settings.len(),
                cfg.wf(),
                remap.wf(),
                self.rows.len() == old(self).rows.len() == self.settings.len() + 1,
                self.settings == old(self).settings,
                self.overrides == old(self).overrides,
                self.scopes == old(self).scopes,
                self.scope == old(self).scope,
                self.layout == old(self).layout,
                self.selected == old(self).selected,
                self.rows[0] == old(self).rows[0],
                forall|k: int| i < k < self.rows.len() ==> #[trigger] self.rows[k] == old(self).rows[k],
                forall|k: int|
                    0 <= k < i ==> reselected(
                        #[trigger] self.rows[k + 1],
                        old(self).rows[k + 1],
                        current_spec(self.settings[k], state_for(self.settings[k], cfg.map(), remap.map())),
                    ),
            decreases self.settings.len() - i,
        {
            let setting = &self.settings[i];
            let current = if setting.target == Target::Cfg {
                setting.current(cfg)
            } else {
                setting.current(remap)
            };
            let options = match &self.rows[i + 1].control {
                Control::Select { options, .. } => options.clone(),
                _ => Vec::new(),
            };
            let label = self.rows[i + 1].label;
            let ghost before = self.rows@;
            self.rows.set(i + 1, Row { label, control: Control::Select { selected: current, options } });
            assert(forall|k: int| 0 <= k < self.rows.len() && k != i + 1 ==> self.rows@[k] == before[k]);
            i += 1;
        }
    }

    /// What writing `choice` for the setting on `row` at the current scope does to its file,
    /// which holds `existing` (`exists` says whether it is there at all); see
    /// [`Overrides::apply`]. `None` for the scope row, or where the scope names no file.
    pub fn commit(&self, row: usize, choice: usize, existing: &str, exists: bool) -> (r: Option<
        FileAction,
    >)
        ensures
            (row == 0 || row - 1 >= self.settings.len()) ==> r is None,
            (row >= 1 && row - 1 < self.settings.len()) ==> (r is None <==> self.overrides.path_spec(
                self.scope,
                self.settings[row - 1].target,
            ) is None),
            r matches Some(a) ==> row >= 1 && row - 1 < self.settings.len() && action_for(
                a,
                existing@,
                exists,
                apply_changes(parse_text(existing@), changes_spec(self.settings[row - 1], choice as int)),
            ),
            r matches Some(a) ==> (clean_changes(changes_spec(self.settings[row - 1], choice as int))
                ==> reads_back(
                a,
                existing@,
                apply_changes(parse_text(existing@), changes_spec(self.settings[row - 1], choice as int)),
            )),
    {
        match self.setting(row) {
            Some(i) => self.overrides.apply(self.scope, &self.settings[i], choice, existing, exists),
            None => None,
        }
    }

    /// The locale key describing the highlighted row.
    pub fn description_key(&self) -> (k: &'static str)
        ensures
            k@ == if self.selected >= 1 && self.selected - 1 < self.settings.len() {
                self.settings[self.selected - 1].description@
            } else {
                "override-desc-scope"@
            },
    {
        match self.setting(self.selected) {
            Some(i) => self.settings[i].description,
            None => "override-desc-scope",
        }
    }
}

} // verus!
