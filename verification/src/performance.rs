//! CPU governor presets, and which governor each one writes given what the driver offers.
use vstd::prelude::*;

use crate::text::{
    back_class, chars_of, is_whitespace, is_ws, lemma_strip_end_range, lemma_strip_start_range,
    matches_at, skip_class, string_of_range, trim, CharClass,
};

verus! {

/// A CPU governor preset. The order is that of the settings screen's choices, and so part of the
/// stored format.
#[derive(Clone, Copy, Debug, PartialEq, Eq, Structural)]
pub enum PerformanceMode {
    /// Leave the governor exactly as the system left it.
    System,
    /// The slowest clock the driver offers.
    Battery,
    /// Scale with load, as a stock kernel does.
    Balanced,
    /// Hold the maximum clock for as long as the game runs.
    Performance,
}

impl Default for PerformanceMode {
    fn default() -> (m: Self)
        ensures
            m == PerformanceMode::System,
    {
        PerformanceMode::System
    }
}

/// The position of each preset among the settings screen's choices.
pub open spec fn mode_index(m: PerformanceMode) -> usize {
    match m {
        PerformanceMode::System => 0,
        PerformanceMode::Battery => 1,
        PerformanceMode::Balanced => 2,
        PerformanceMode::Performance => 3,
    }
}

/// Governor names to try for each preset, best first. Nothing guarantees a kernel has any
/// particular governor, so each preset degrades towards the nearest thing the driver reports.
pub open spec fn candidates_spec(m: PerformanceMode) -> Seq<Seq<char>> {
    let powersave = seq!['p', 'o', 'w', 'e', 'r', 's', 'a', 'v', 'e'];
    let conservative = seq!['c', 'o', 'n', 's', 'e', 'r', 'v', 'a', 't', 'i', 'v', 'e'];
    let ondemand = seq!['o', 'n', 'd', 'e', 'm', 'a', 'n', 'd'];
    let schedutil = seq!['s', 'c', 'h', 'e', 'd', 'u', 't', 'i', 'l'];
    let performance = seq!['p', 'e', 'r', 'f', 'o', 'r', 'm', 'a', 'n', 'c', 'e'];
    match m {
        PerformanceMode::System => seq![],
        PerformanceMode::Battery => seq![powersave, conservative, ondemand, schedutil],
        PerformanceMode::Balanced => seq![ondemand, schedutil, conservative, powersave],
        PerformanceMode::Performance => seq![performance, schedutil, ondemand],
    }
}

impl PerformanceMode {
    /// The preset at position `n` of the settings screen's choices.
    pub fn from_repr(n: usize) -> (m: Option<PerformanceMode>)
        ensures
            match m {
                Some(m) => mode_index(m) == n,
                None => n > 3,
            },
    {
        match n {
            0 => Some(PerformanceMode::System),
            1 => Some(PerformanceMode::Battery),
            2 => Some(PerformanceMode::Balanced),
            3 => Some(PerformanceMode::Performance),
            _ => None,
        }
    }

    /// This preset's position among the settings screen's choices.
    pub fn repr(self) -> (n: usize)
        ensures
            n == mode_index(self),
    {
        match self {
            PerformanceMode::System => 0,
            PerformanceMode::Battery => 1,
            PerformanceMode::Balanced => 2,
            PerformanceMode::Performance => 3,
        }
    }

    /// Governor names to try, best first.
    pub fn candidates(self) -> (r: Vec<&'static str>)
        ensures
            r@.len() == candidates_spec(self).len(),
            forall|i: int| 0 <= i < r@.len() ==> #[trigger] r@[i]@ == candidates_spec(self)[i],
    {
        proof {
            reveal_strlit("powersave");
            reveal_strlit("conservative");
            reveal_strlit("ondemand");
            reveal_strlit("schedutil");
            reveal_strlit("performance");
        }
        let r = match self {
            PerformanceMode::System => vec![],
            PerformanceMode::Battery => vec!["powersave", "conservative", "ondemand", "schedutil"],
            PerformanceMode::Balanced => vec!["ondemand", "schedutil", "conservative", "powersave"],
            PerformanceMode::Performance => vec!["performance", "schedutil", "ondemand"],
        };
        assert(forall|i: int| 0 <= i < r@.len() ==> #[trigger] r@[i]@ == candidates_spec(self)[i]);
        r
    }
}

/// `w` is one of the whitespace-separated words of `s`: non-empty, free of whitespace, and found
/// in `s` with whitespace or an end of `s` on either side.
pub open spec fn has_word(s: Seq<char>, w: Seq<char>) -> bool {
    &&& w.len() > 0
    &&& forall|k: int| 0 <= k < w.len() ==> !is_ws(#[trigger] w[k])
    &&& exists|i: int| #[trigger] word_at(s, w, i)
}

/// `w` stands as a whole word at position `i` of `s`.
pub open spec fn word_at(s: Seq<char>, w: Seq<char>, i: int) -> bool {
    &&& 0 <= i
    &&& i + w.len() <= s.len()
    &&& s.subrange(i, i + w.len()) == w
    &&& (i == 0 || is_ws(s[i - 1]))
    &&& (i + w.len() == s.len() || is_ws(s[i + w.len()]))
}

/// The first of `candidates` that `available` lists.
pub open spec fn first_listed(candidates: Seq<Seq<char>>, available: Seq<char>) -> Option<
    Seq<char>,
>
    decreases candidates.len(),
{
    if candidates.len() == 0 {
        None
    } else if has_word(available, candidates[0]) {
        Some(candidates[0])
    } else {
        first_listed(candidates.drop_first(), available)
    }
}

/// Whether `w` is one of the whitespace-separated words of `s`.
fn contains_word(s: &Vec<char>, w: &Vec<char>) -> (r: bool)
    ensures
        r == has_word(s@, w@),
{
    if w.len() == 0 || w.len() > s.len() {
        proof {
            if w.len() > s.len() {
                assert forall|i: int| !word_at(s@, w@, i) by {}
            }
        }
        return false;
    }
    let mut k: usize = 0;
    while k < w.len()
        invariant
            k <= w.len(),
            forall|j: int| 0 <= j < k ==> !is_ws(#[trigger] w@[j]),
        decreases w.len() - k,
    {
        if is_whitespace(w[k]) {
            return false;
        }
        k += 1;
    }
    let last = s.len() - w.len();
    let mut i: usize = 0;
    loop
        invariant
            0 < w.len() <= s.len(),
            last == s.len() - w.len(),
            i <= last,
            forall|j: int| 0 <= j < w.len() ==> !is_ws(#[trigger] w@[j]),
            forall|j: int| 0 <= j < i ==> !word_at(s@, w@, j),
        decreases last - i,
    {
        let before_ok = i == 0 || is_whitespace(s[i - 1]);
        let after_ok = i == last || is_whitespace(s[i + w.len()]);
        if before_ok && after_ok && matches_at(s, w, i) {
            assert(word_at(s@, w@, i as int));
            return true;
        }
        assert(!word_at(s@, w@, i as int));
        if i == last {
            assert forall|j: int| !word_at(s@, w@, j) by {
                if 0 <= j && j + w.len() <= s.len() {
                    assert(j < i || j == i);
                }
            }
            return false;
        }
        i += 1;
    }
}

/// Picks the governor to write for `mode` out of the whitespace-separated names the driver
/// reports: the first of its candidates that is listed, or nothing.
pub fn pick_governor(mode: PerformanceMode, available: &str) -> (r: Option<&'static str>)
    ensures
        match r {
            Some(g) => first_listed(candidates_spec(mode), available@) == Some(g@),
            None => first_listed(candidates_spec(mode), available@) is None,
        },
{
    let cands = mode.candidates();
    let s = chars_of(available);
    let ghost all = candidates_spec(mode);
    assert(all.skip(0) =~= all);
    let mut i: usize = 0;
    while i < cands.len()
        invariant
            i <= cands.len(),
            s@ == available@,
            all == candidates_spec(mode),
            cands@.len() == all.len(),
            forall|j: int| 0 <= j < cands@.len() ==> #[trigger] cands@[j]@ == all[j],
            first_listed(all, s@) == first_listed(all.skip(i as int), s@),
        decreases cands.len() - i,
    {
        let c = cands[i];
        let w = chars_of(c);
        assert(all.skip(i as int)[0] == all[i as int]);
        assert(all.skip(i as int).drop_first() =~= all.skip(i + 1));
        if contains_word(&s, &w) {
            assert(w@ == all[i as int]);
            assert(first_listed(all.skip(i as int), s@) == Some(all[i as int]));
            return Some(c);
        }
        i += 1;
    }
    None
}

/// The governor the device booted with, as it is read back: surrounding whitespace and all.
pub open spec fn restore_spec(original: Option<Seq<char>>) -> Option<Seq<char>> {
    match original {
        Some(o) => Some(trim(o)),
        None => None,
    }
}

/// What pointing the governor at `mode` writes, given the names the driver lists (if it has a
/// governor interface at all) and the governor the device booted with (if it was read). `System`
/// hands back the original governor, so switching a running game to it takes effect at once.
pub open spec fn apply_spec(
    mode: PerformanceMode,
    available: Option<Seq<char>>,
    original: Option<Seq<char>>,
) -> Option<Seq<char>> {
    if mode == PerformanceMode::System {
        restore_spec(original)
    } else {
        match available {
            Some(a) => first_listed(candidates_spec(mode), a),
            None => None,
        }
    }
}

pub open spec fn opt_str_view(o: Option<&str>) -> Option<Seq<char>> {
    match o {
        Some(s) => Some(s@),
        None => None,
    }
}

pub open spec fn opt_string_view(o: Option<String>) -> Option<Seq<char>> {
    match o {
        Some(s) => Some(s@),
        None => None,
    }
}

/// The governor to write to put back the one the device booted with, if it was read.
pub fn restore(original: Option<&str>) -> (r: Option<String>)
    ensures
        opt_string_view(r) == restore_spec(opt_str_view(original)),
{
    match original {
        Some(o) => {
            let s = chars_of(o);
            let n = s.len();
            let a = skip_class(&s, 0, n, CharClass::Whitespace);
            let b = back_class(&s, a, n, CharClass::Whitespace);
            proof {
                assert(s@.subrange(0, n as int) =~= s@);
                lemma_strip_start_range(s@, 0, n as int, CharClass::Whitespace);
                lemma_strip_end_range(s@, a as int, n as int, CharClass::Whitespace);
            }
            Some(string_of_range(&s, a, b))
        },
        None => None,
    }
}

/// The governor to write for `mode`; see [`apply_spec`]. `None` writes nothing: never failing
/// matters here, since this runs on the paths that start and resume games.
pub fn apply(mode: PerformanceMode, available: Option<&str>, original: Option<&str>) -> (r: Option<
    String,
>)
    ensures
        opt_string_view(r) == apply_spec(mode, opt_str_view(available), opt_str_view(original)),
{
    if mode == PerformanceMode::System {
        return restore(original);
    }
    match available {
        Some(a) => match pick_governor(mode, a) {
            Some(g) => Some(g.to_owned()),
            None => None,
        },
        None => None,
    }
}

/// What `first_listed` picks is listed and is one of the candidates; when it picks nothing, no
/// candidate is listed.
pub proof fn lemma_first_listed(candidates: Seq<Seq<char>>, available: Seq<char>)
    ensures
        match first_listed(candidates, available) {
            Some(g) => has_word(available, g) && candidates.contains(g),
            None => forall|j: int|
                0 <= j < candidates.len() ==> !has_word(available, #[trigger] candidates[j]),
        },
    decreases candidates.len(),
{
    if candidates.len() > 0 && !has_word(available, candidates[0]) {
        let rest = candidates.drop_first();
        lemma_first_listed(rest, available);
        match first_listed(rest, available) {
            Some(g) => {
                let j = choose|j: int| 0 <= j < rest.len() && rest[j] == g;
                assert(candidates[j + 1] == g);
            },
            None => {
                assert forall|j: int| 0 <= j < candidates.len() implies !has_word(
                    available,
                    #[trigger] candidates[j],
                ) by {
                    if j > 0 {
                        assert(candidates[j] == rest[j - 1]);
                    }
                }
            },
        }
    } else if candidates.len() > 0 {
        assert(candidates[0] == candidates[0]);
    }
}

/// A preset other than `System` only ever writes a governor the driver lists, and only one of
/// its own candidates: a name the driver would reject is never written.
pub proof fn lemma_apply_writes_only_listed(
    mode: PerformanceMode,
    available: Seq<char>,
    original: Option<Seq<char>>,
)
    requires
        mode != PerformanceMode::System,
    ensures
        match apply_spec(mode, Some(available), original) {
            Some(g) => has_word(available, g) && candidates_spec(mode).contains(g),
            None => forall|j: int|
                0 <= j < candidates_spec(mode).len() ==> !has_word(
                    available,
                    #[trigger] candidates_spec(mode)[j],
                ),
        },
{
    lemma_first_listed(candidates_spec(mode), available);
}

/// `System` never picks a governor of its own: it only ever hands back the original one.
pub proof fn lemma_system_picks_nothing(available: Seq<char>)
    ensures
        first_listed(candidates_spec(PerformanceMode::System), available) is None,
{
}

} // verus!
