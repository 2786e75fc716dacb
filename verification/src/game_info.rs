//! The game being played: what is kept to resume it and to count its play time, and where its
//! guides are looked for.
use vstd::prelude::*;

use crate::performance::PerformanceMode;
use crate::retroarch_config::{join, parent, path_join, path_parent};
use crate::text::{copy_string, str_eq};

verus! {

/// What `Path::strip_prefix` gives for a path and a base, as text; `None` when `base` is not a
/// prefix of the path.
pub uninterp spec fn path_strip_prefix(path: Seq<char>, base: Seq<char>) -> Option<Seq<char>>;

/// What `Path::with_extension` gives for a path and an extension, as text.
pub uninterp spec fn path_with_extension(path: Seq<char>, ext: Seq<char>) -> Seq<char>;

/// `std::path::Path::strip_prefix`: the path relative to `base`, if `base` is a prefix of it.
#[verifier::external_body]
fn strip_prefix(path: &str, base: &str) -> (r: Option<String>)
    ensures
        match r {
            Some(s) => path_strip_prefix(path@, base@) == Some(s@),
            None => path_strip_prefix(path@, base@) is None,
        },
{
    std::path::Path::new(path).strip_prefix(base).ok().map(|p| p.to_string_lossy().into_owned())
}

/// `std::path::Path::with_extension`: the path with its extension replaced by `ext`, or removed
/// when `ext` is empty. An extension holding a path separator makes it panic, so `ext` holds none.
#[verifier::external_body]
fn with_extension(path: &str, ext: &str) -> (r: String)
    requires
        !ext@.contains('/'),
    ensures
        r@ == path_with_extension(path@, ext@),
{
    std::path::Path::new(path).with_extension(ext).to_string_lossy().into_owned()
}

/// A game in progress. Used to resume it after a restart and to measure how long it was played.
#[derive(Clone, Debug)]
pub struct GameInfo {
    /// Display name of the game.
    pub name: String,
    /// Path to the ROM; the screenshot's name is made from it.
    pub path: String,
    /// The core running the game; the screenshot's name is made from it too.
    pub core: String,
    /// The command that runs the core.
    pub command: String,
    /// The arguments that make the core run this game.
    pub args: Vec<String>,
    /// Whether the in-game menu is offered; only RetroArch has one.
    pub has_menu: bool,
    /// Whether swap is turned on for this game.
    pub needs_swap: bool,
    /// The governor preset to run the game at, already resolved against the global default.
    pub performance_mode: PerformanceMode,
    /// Path to the game's image.
    pub image: Option<String>,
    /// Paths to the game's guides.
    pub guides: Vec<String>,
    /// When the game started, in milliseconds since the Unix epoch.
    pub start_time_ms: i64,
}

impl GameInfo {
    /// A game starting at `start_time_ms` with the guides found for it. The performance preset
    /// starts at `System`; the caller sets it once it has resolved the game's own.
    pub fn new(
        name: String,
        path: String,
        core: String,
        image: Option<String>,
        command: String,
        args: Vec<String>,
        has_menu: bool,
        needs_swap: bool,
        guides: Vec<String>,
        start_time_ms: i64,
    ) -> (g: GameInfo)
        ensures
            g == (GameInfo {
                name,
                path,
                core,
                command,
                args,
                has_menu,
                needs_swap,
                performance_mode: PerformanceMode::System,
                image,
                guides,
                start_time_ms,
            }),
    {
        GameInfo {
            name,
            path,
            core,
            command,
            args,
            has_menu,
            needs_swap,
            performance_mode: PerformanceMode::System,
            image,
            guides,
            start_time_ms,
        }
    }

    /// How long the game has been running at `now_ms`, in milliseconds; negative when the clock
    /// was set back since it started.
    pub fn play_time_ms(&self, now_ms: i64) -> (r: i64)
        requires
            i64::MIN <= now_ms - self.start_time_ms <= i64::MAX,
        ensures
            r == now_ms - self.start_time_ms,
    {
        now_ms - self.start_time_ms
    }

    /// Whether swap should be turned on.
    pub fn needs_swap(&self) -> (r: bool)
        ensures
            r == self.needs_swap,
    {
        self.needs_swap
    }

    /// The game to store after the in-game menu changes its performance preset: the stored game
    /// with the new preset, or nothing to store when no game could be read.
    pub fn store_performance_mode(stored: Option<GameInfo>, mode: PerformanceMode) -> (r: Option<
        GameInfo,
    >)
        ensures
            match stored {
                Some(g) => r == Some(GameInfo { performance_mode: mode, ..g }),
                None => r is None,
            },
    {
        match stored {
            Some(g) => Some(GameInfo { performance_mode: mode, ..g }),
            None => None,
        }
    }
}

/// Where one folder up the tree from a game keeps a guide for it.
#[derive(Clone, Debug)]
pub struct GuideSearchStep {
    /// The `Guides` folder beside the ancestor; nothing below it is looked at unless it exists.
    pub guides_dir: String,
    /// A folder of guides: the game's path below the `Guides` folder, without its extension.
    pub dir: String,
    /// A single text guide: the same, with the extension `txt`.
    pub file: String,
}

impl GuideSearchStep {
    pub open spec fn view(&self) -> (Seq<char>, Seq<char>, Seq<char>) {
        (self.guides_dir@, self.dir@, self.file@)
    }
}

/// `path`'s ancestor `i` levels up: `path` itself at 0, then each parent in turn, until there
/// is none.
pub open spec fn ancestor(path: Seq<char>, i: nat) -> Option<Seq<char>>
    decreases i,
{
    if i == 0 {
        Some(path)
    } else {
        match ancestor(path, (i - 1) as nat) {
            Some(a) => path_parent(a),
            None => None,
        }
    }
}

/// What to look at beside the ancestor `a` of `path`: `a/Guides`, then `path`'s place below it
/// without its extension (a folder of guides), then the same with the extension `txt` (a single
/// guide). The extension `txt` replaces the last one left after stripping, so the text guide for
/// `Game.v1.gba` is `Game.txt`.
pub open spec fn guide_step_spec(path: Seq<char>, a: Seq<char>) -> Option<
    (Seq<char>, Seq<char>, Seq<char>),
> {
    match path_strip_prefix(path, a) {
        Some(rel) => {
            let guides = path_join(a, "Guides"@);
            let dir = path_with_extension(path_join(guides, rel), ""@);
            Some((guides, dir, path_with_extension(dir, "txt"@)))
        },
        None => None,
    }
}

/// The search, `n` steps long, went as far as it goes: to the top of the tree, or to the games
/// folder, or to an ancestor that `path` cannot be made relative to.
pub open spec fn search_ends(path: Seq<char>, games_dir: Seq<char>, n: nat) -> bool {
    match ancestor(path, n + 1) {
        None => true,
        Some(a) => (n >= 1 && ancestor(path, n) == Some(games_dir)) || guide_step_spec(path, a) is None,
    }
}

/// Where to look for a game's guides, nearest first: one step for each folder above `path`, up
/// to and including `games_dir` or the top of the tree. The caller takes the first step whose
/// `Guides` folder exists and that has a guide folder with files in it or a text guide.
pub fn guide_search(path: &str, games_dir: &str) -> (r: Vec<GuideSearchStep>)
    ensures
        forall|i: int|
            0 <= i < r.len() ==> {
                &&& #[trigger] ancestor(path@, (i + 1) as nat) is Some
                &&& guide_step_spec(path@, ancestor(path@, (i + 1) as nat)->0) == Some(r[i]@)
            },
        forall|i: int|
            1 <= i < r.len() ==> #[trigger] ancestor(path@, i as nat) != Some(games_dir@),
        search_ends(path@, games_dir@, r.len() as nat),
{
    let mut steps: Vec<GuideSearchStep> = Vec::new();
    let mut cur = copy_string(path);
    let ghost mut n: nat = 0;
    loop
        invariant_except_break
            ancestor(path@, n) == Some(cur@),
            n >= 1 ==> ancestor(path@, n) != Some(games_dir@),
        invariant
            n == steps.len(),
            forall|i: int|
                0 <= i < steps.len() ==> {
                    &&& #[trigger] ancestor(path@, (i + 1) as nat) is Some
                    &&& guide_step_spec(path@, ancestor(path@, (i + 1) as nat)->0) == Some(
                        steps[i]@,
                    )
                },
            forall|i: int| 1 <= i < steps.len() ==> #[trigger] ancestor(path@, i as nat) != Some(
                games_dir@,
            ),
        ensures
            forall|i: int|
                0 <= i < steps.len() ==> {
                    &&& #[trigger] ancestor(path@, (i + 1) as nat) is Some
                    &&& guide_step_spec(path@, ancestor(path@, (i + 1) as nat)->0) == Some(
                        steps[i]@,
                    )
                },
            forall|i: int| 1 <= i < steps.len() ==> #[trigger] ancestor(path@, i as nat) != Some(
                games_dir@,
            ),
            search_ends(path@, games_dir@, steps.len() as nat),
        decreases cur@.len(),
    {
        let a = match parent(cur.as_str()) {
            Some(a) => a,
            None => {
                assert(ancestor(path@, n + 1) is None);
                break;
            },
        };
        assert(ancestor(path@, n + 1) == Some(a@));
        let rel = match strip_prefix(path, a.as_str()) {
            Some(rel) => rel,
            None => {
                break;
            },
        };
        let guides = join(a.as_str(), "Guides");
        proof {
            reveal_strlit("Guides");
            reveal_strlit("");
            reveal_strlit("txt");
            assert("txt"@[0] != '/' && "txt"@[1] != '/' && "txt"@[2] != '/');
        }
        let dir = with_extension(join(guides.as_str(), rel.as_str()).as_str(), "");
        let file = with_extension(dir.as_str(), "txt");
        let step = GuideSearchStep { guides_dir: guides, dir, file };
        assert(guide_step_spec(path@, a@) == Some(step@));
        steps.push(step);
        proof {
            n = n + 1;
        }
        let at_games = str_eq(a.as_str(), games_dir);
        if at_games {
            break;
        }
        cur = a;
    }
    steps
}

} // verus!
