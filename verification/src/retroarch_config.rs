//! RetroArch's `key = "value"` format, shared by its `.cfg`, `.opt`, `.rmp` and `.info` files,
//! and the per-core, per-console and per-game override files written in it.
//!
//! Later tiers win in RetroArch: core, then the ROM's folder, then the ROM. Nothing here takes
//! effect on a running game; RetroArch reads overrides when it loads content.
use vstd::prelude::*;

use crate::config_map::{entries_map, insert_all, render_entries, render_map, ConfigMap};
use crate::text::{
    back_class, chars_of, find_char, index_of, is_ws, lemma_index_of, lemma_index_of_unique,
    lemma_leading, lemma_leading_unique, lemma_trailing, lemma_trailing_unique, leading,
    copy_string, lemma_strip_end_range, lemma_strip_start_range, push_str, skip_class, str_eq, string_of_range, strip_end, strip_start, trailing, trim,
    trim_char, CharClass,
};

verus! {

/// One line of a file, applied over what the lines before it set.
///
/// The line is trimmed; a blank line or a `#` comment sets nothing, and so does a line without
/// `=` or with nothing before it. Otherwise the trimmed text before the first `=` is the key, and
/// the trimmed text after it, with any run of `"` stripped from both ends, is the value.
pub open spec fn parse_line(m: Map<Seq<char>, Seq<char>>, line: Seq<char>) -> Map<
    Seq<char>,
    Seq<char>,
> {
    let t = trim(line);
    if t.len() == 0 || t[0] == '#' {
        m
    } else {
        let e = index_of(t, '=');
        if e < 0 {
            m
        } else {
            let key = trim(t.take(e));
            if key.len() == 0 {
                m
            } else {
                m.insert(key, trim_char(trim(t.skip(e + 1)), '"'))
            }
        }
    }
}

/// The lines of `rest`, split at each newline, applied in order over `m`.
pub open spec fn parse_from(m: Map<Seq<char>, Seq<char>>, rest: Seq<char>) -> Map<
    Seq<char>,
    Seq<char>,
>
    decreases rest.len(),
{
    let i = index_of(rest, '\n');
    if i < 0 {
        parse_line(m, rest)
    } else {
        proof {
            lemma_index_of(rest, '\n');
        }
        parse_from(parse_line(m, rest.take(i)), rest.skip(i + 1))
    }
}

/// What a whole file sets.
pub open spec fn parse_text(text: Seq<char>) -> Map<Seq<char>, Seq<char>> {
    parse_from(Map::empty(), text)
}

/// A key the format can carry through a write and a read unchanged.
pub open spec fn clean_key(k: Seq<char>) -> bool {
    &&& k.len() > 0
    &&& !is_ws(k[0])
    &&& !is_ws(k.last())
    &&& k[0] != '#'
    &&& forall|j: int| 0 <= j < k.len() ==> #[trigger] k[j] != '=' && k[j] != '\n'
}

/// A value the format can carry through a write and a read unchanged.
pub open spec fn clean_value(v: Seq<char>) -> bool {
    &&& forall|j: int| 0 <= j < v.len() ==> #[trigger] v[j] != '\n'
    &&& v.len() > 0 ==> v[0] != '"' && v.last() != '"'
}

pub open spec fn clean_entries(es: Seq<(Seq<char>, Seq<char>)>) -> bool {
    forall|i: int| 0 <= i < es.len() ==> clean_key(#[trigger] es[i].0) && clean_value(es[i].1)
}

pub open spec fn clean_map(m: Map<Seq<char>, Seq<char>>) -> bool {
    forall|k: Seq<char>| #[trigger] m.contains_key(k) ==> clean_key(k) && clean_value(m[k])
}

/// A rendered line, newline aside, parses back to its own key and value.
proof fn lemma_parse_rendered_line(m: Map<Seq<char>, Seq<char>>, k: Seq<char>, v: Seq<char>)
    requires
        clean_key(k),
        clean_value(v),
    ensures
        parse_line(m, k + seq![' ', '=', ' ', '"'] + v + seq!['"']) == m.insert(k, v),
{
    let l = k + seq![' ', '=', ' ', '"'] + v + seq!['"'];
    let n = k.len() as int;
    assert(l.len() == n + 5 + v.len());
    assert(forall|j: int| 0 <= j < n ==> #[trigger] l[j] == k[j]);
    assert(l[n] == ' ' && l[n + 1] == '=' && l[n + 2] == ' ' && l[n + 3] == '"');
    assert(forall|j: int| 0 <= j < v.len() ==> #[trigger] l[n + 4 + j] == v[j]);
    assert(l[l.len() - 1] == '"');
    // the whole line is already trimmed
    lemma_leading_unique(l, CharClass::Whitespace, 0);
    assert(strip_start(l, CharClass::Whitespace) =~= l);
    lemma_trailing_unique(l, CharClass::Whitespace, 0);
    assert(strip_end(l, CharClass::Whitespace) =~= l);
    assert(trim(l) == l);
    // the first `=` is the one after the key
    assert forall|j: int| 0 <= j < n + 1 implies #[trigger] l[j] != '=' by {
        if j < n {
            assert(l[j] == k[j]);
        }
    }
    lemma_index_of_unique(l, '=', n + 1);
    // the key, with the space before `=` trimmed off
    let kk = l.take(n + 1);
    assert(kk =~= k.push(' '));
    lemma_leading_unique(kk, CharClass::Whitespace, 0);
    assert(strip_start(kk, CharClass::Whitespace) =~= kk);
    lemma_trailing_unique(kk, CharClass::Whitespace, 1);
    assert(strip_end(kk, CharClass::Whitespace) =~= k);
    assert(trim(kk) == k);
    // the quoted value, with the space after `=` trimmed off
    let p = l.skip(n + 2);
    assert(p =~= seq![' ', '"'] + v + seq!['"']);
    lemma_leading_unique(p, CharClass::Whitespace, 1);
    let q = p.skip(1);
    assert(q =~= seq!['"'] + v + seq!['"']);
    assert(strip_start(p, CharClass::Whitespace) == q);
    lemma_trailing_unique(q, CharClass::Whitespace, 0);
    assert(strip_end(q, CharClass::Whitespace) =~= q);
    assert(trim(p) == q);
    if v.len() == 0 {
        lemma_leading_unique(q, CharClass::Exactly('"'), 2);
        let r = q.skip(2);
        assert(r =~= Seq::<char>::empty());
        lemma_trailing_unique(r, CharClass::Exactly('"'), 0);
        assert(strip_end(r, CharClass::Exactly('"')) =~= v);
    } else {
        lemma_leading_unique(q, CharClass::Exactly('"'), 1);
        let r = q.skip(1);
        assert(r =~= v + seq!['"']);
        lemma_trailing_unique(r, CharClass::Exactly('"'), 1);
        assert(strip_end(r, CharClass::Exactly('"')) =~= v);
    }
    assert(trim_char(trim(p), '"') == v);
}

/// Parsing rendered entries inserts each of them in turn.
pub proof fn lemma_parse_rendered(m: Map<Seq<char>, Seq<char>>, es: Seq<(Seq<char>, Seq<char>)>)
    requires
        clean_entries(es),
    ensures
        parse_from(m, render_entries(es)) == insert_all(m, es),
    decreases es.len(),
{
    if es.len() == 0 {
        let e = Seq::<char>::empty();
        assert(render_entries(es) == e);
        lemma_leading_unique(e, CharClass::Whitespace, 0);
        lemma_trailing_unique(e.skip(0), CharClass::Whitespace, 0);
        assert(trim(e).len() == 0);
    } else {
        let k = es[0].0;
        let v = es[0].1;
        let l = k + seq![' ', '=', ' ', '"'] + v + seq!['"'];
        let rest = es.drop_first();
        let r = render_entries(rest);
        let text = render_entries(es);
        assert(clean_key(k) && clean_value(v));
        assert(text =~= l + seq!['\n'] + r);
        let n = k.len() as int;
        assert forall|j: int| 0 <= j < l.len() implies #[trigger] text[j] != '\n' by {
            assert(text[j] == l[j]);
            if j < n {
                assert(l[j] == k[j]);
            } else if n + 4 <= j < n + 4 + v.len() {
                assert(l[j] == v[j - n - 4]);
            }
        }
        lemma_index_of_unique(text, '\n', l.len() as int);
        assert(text.take(l.len() as int) =~= l);
        assert(text.skip(l.len() as int + 1) =~= r);
        lemma_parse_rendered_line(m, k, v);
        assert(clean_entries(rest)) by {
            assert forall|i: int| 0 <= i < rest.len() implies clean_key(#[trigger] rest[i].0)
                && clean_value(rest[i].1) by {
                assert(rest[i] == es[i + 1]);
            }
        }
        lemma_parse_rendered(m.insert(k, v), rest);
    }
}

/// Rendering a set of settings and parsing the text gives back the same settings, whenever its
/// keys and values are ones the format can carry.
pub proof fn lemma_render_then_parse(map: ConfigMap)
    requires
        map.wf(),
        clean_map(map.map()),
    ensures
        parse_text(render_entries(map.entries())) == map.map(),
{
    map.lemma_wf();
    let es = map.entries();
    assert(clean_entries(es)) by {
        assert forall|i: int| 0 <= i < es.len() implies clean_key(#[trigger] es[i].0)
            && clean_value(es[i].1) by {
            assert(map.map().contains_key(es[i].0));
        }
    }
    lemma_parse_rendered(Map::empty(), es);
}

/// A parsed line only ever adds a key and value the format can carry.
#[verifier::rlimit(60)]
#[verifier::spinoff_prover]
proof fn lemma_parse_line_clean(m: Map<Seq<char>, Seq<char>>, line: Seq<char>)
    requires
        clean_map(m),
        forall|j: int| 0 <= j < line.len() ==> #[trigger] line[j] != '\n',
    ensures
        clean_map(parse_line(m, line)),
{
    let ws = CharClass::Whitespace;
    let z = strip_start(line, ws);
    let n0 = leading(line, ws) as int;
    lemma_leading(line, ws);
    lemma_trailing(z, ws);
    let t = trim(line);
    assert(t =~= line.subrange(n0, n0 + t.len()));
    if t.len() > 0 && t[0] != '#' {
        let e = index_of(t, '=');
        lemma_index_of(t, '=');
        if e >= 0 {
            let x = t.take(e);
            let n1 = leading(x, ws) as int;
            lemma_leading(x, ws);
            let y = strip_start(x, ws);
            lemma_trailing(y, ws);
            let key = trim(x);
            if key.len() > 0 {
                // the key starts where the trimmed line does, so at a character that is not space
                assert(!is_ws(t[0]));
                assert(x[0] == t[0]);
                lemma_leading_unique(x, ws, 0);
                assert(key =~= t.subrange(0, key.len() as int));
                assert(forall|j: int| 0 <= j < key.len() ==> #[trigger] key[j] == line[n0 + j]);
                assert(key[key.len() - 1] == y[y.len() - trailing(y, ws) - 1]);
                assert(clean_key(key));
                let p = t.skip(e + 1);
                let pn = leading(p, ws) as int;
                lemma_leading(p, ws);
                let pz = strip_start(p, ws);
                lemma_trailing(pz, ws);
                let q = trim(p);
                assert(q =~= p.subrange(pn, pn + q.len()));
                let qc = CharClass::Exactly('"');
                let qn = leading(q, qc) as int;
                lemma_leading(q, qc);
                let qz = strip_start(q, qc);
                lemma_trailing(qz, qc);
                let v = trim_char(q, '"');
                assert(v =~= q.subrange(qn, qn + v.len()));
                assert(forall|j: int|
                    0 <= j < v.len() ==> #[trigger] v[j] == line[n0 + e + 1 + pn + qn + j]);
                if v.len() > 0 {
                    assert(v[0] == q[qn]);
                    assert(v.last() == qz[qz.len() - trailing(qz, qc) - 1]);
                }
                assert(clean_value(v));
                let r = m.insert(key, v);
                assert forall|kk: Seq<char>| #[trigger] r.contains_key(kk) implies clean_key(kk)
                    && clean_value(r[kk]) by {
                    if kk != key {
                        assert(m.contains_key(kk));
                    }
                }
            }
        }
    }
}

/// Whatever a file holds, what it parses to is carried through a write and a read unchanged.
pub proof fn lemma_parse_from_clean(m: Map<Seq<char>, Seq<char>>, rest: Seq<char>)
    requires
        clean_map(m),
    ensures
        clean_map(parse_from(m, rest)),
    decreases rest.len(),
{
    let i = index_of(rest, '\n');
    lemma_index_of(rest, '\n');
    if i < 0 {
        lemma_parse_line_clean(m, rest);
    } else {
        let line = rest.take(i);
        assert forall|j: int| 0 <= j < line.len() implies #[trigger] line[j] != '\n' by {
            assert(line[j] == rest[j]);
        }
        lemma_parse_line_clean(m, line);
        lemma_parse_from_clean(parse_line(m, line), rest.skip(i + 1));
    }
}

pub proof fn lemma_parse_text_clean(text: Seq<char>)
    ensures
        clean_map(parse_text(text)),
{
    lemma_parse_from_clean(Map::empty(), text);
}

/// Applies the line `s[lo..hi]` to `m`.
fn apply_line(m: &mut ConfigMap, s: &Vec<char>, lo: usize, hi: usize)
    requires
        old(m).wf(),
        lo <= hi <= s.len(),
    ensures
        final(m).wf(),
        final(m).map() == parse_line(old(m).map(), s@.subrange(lo as int, hi as int)),
{
    let ghost line = s@.subrange(lo as int, hi as int);
    let a = skip_class(s, lo, hi, CharClass::Whitespace);
    let b = back_class(s, a, hi, CharClass::Whitespace);
    proof {
        lemma_strip_start_range(s@, lo as int, hi as int, CharClass::Whitespace);
        lemma_strip_end_range(s@, a as int, hi as int, CharClass::Whitespace);
    }
    let ghost t = s@.subrange(a as int, b as int);
    assert(trim(line) == t);
    if a == b {
        return ;
    }
    assert(t[0] == s@[a as int]);
    if s[a] == '#' {
        return ;
    }
    match find_char(s, a, b, '=') {
        None => {
            return ;
        },
        Some(e) => {
            let ghost ei = (e - a) as int;
            assert(index_of(t, '=') == ei);
            let ka = skip_class(s, a, e, CharClass::Whitespace);
            let kb = back_class(s, ka, e, CharClass::Whitespace);
            proof {
                assert(t.take(ei) =~= s@.subrange(a as int, e as int));
                lemma_strip_start_range(s@, a as int, e as int, CharClass::Whitespace);
                lemma_strip_end_range(s@, ka as int, e as int, CharClass::Whitespace);
            }
            assert(trim(t.take(ei)) == s@.subrange(ka as int, kb as int));
            if ka == kb {
                return ;
            }
            let va = skip_class(s, e + 1, b, CharClass::Whitespace);
            let vb = back_class(s, va, b, CharClass::Whitespace);
            let qa = skip_class(s, va, vb, CharClass::Exactly('"'));
            let qb = back_class(s, qa, vb, CharClass::Exactly('"'));
            proof {
                assert(t.skip(ei + 1) =~= s@.subrange(e + 1, b as int));
                lemma_strip_start_range(s@, e + 1, b as int, CharClass::Whitespace);
                lemma_strip_end_range(s@, va as int, b as int, CharClass::Whitespace);
                lemma_strip_start_range(s@, va as int, vb as int, CharClass::Exactly('"'));
                lemma_strip_end_range(s@, qa as int, vb as int, CharClass::Exactly('"'));
            }
            assert(trim(t.skip(ei + 1)) == s@.subrange(va as int, vb as int));
            assert(trim_char(trim(t.skip(ei + 1)), '"') == s@.subrange(qa as int, qb as int));
            let key = string_of_range(s, ka, kb);
            let value = string_of_range(s, qa, qb);
            m.insert(key, value);
        },
    }
}

/// Parses RetroArch's `key = "value"` format.
///
/// Unquoted values are accepted too, and anything unparseable is skipped rather than failing the
/// whole file: these are user-editable files, and one bad line should not discard the rest.
pub fn parse(text: &str) -> (m: ConfigMap)
    ensures
        m.wf(),
        m.map() == parse_text(text@),
{
    let s = chars_of(text);
    let mut m = ConfigMap::new();
    let mut start: usize = 0;
    assert(s@.subrange(0, s@.len() as int) =~= s@);
    loop
        invariant
            start <= s.len(),
            s@ == text@,
            m.wf(),
            parse_from(m.map(), s@.subrange(start as int, s@.len() as int)) == parse_text(text@),
        decreases s.len() - start,
    {
        let ghost rest = s@.subrange(start as int, s@.len() as int);
        match find_char(&s, start, s.len(), '\n') {
            Some(nl) => {
                let ghost i = (nl - start) as int;
                assert(rest.take(i) =~= s@.subrange(start as int, nl as int));
                assert(rest.skip(i + 1) =~= s@.subrange(nl + 1, s@.len() as int));
                apply_line(&mut m, &s, start, nl);
                start = nl + 1;
            },
            None => {
                apply_line(&mut m, &s, start, s.len());
                return m;
            },
        }
    }
}

/// Renders the settings back out, sorted by key so that the files are diffable.
pub fn render(map: &ConfigMap) -> (out: String)
    ensures
        out@ == render_entries(map.entries()),
{
    map.render()
}

/// A change to one key: `Some` sets it, `None` removes it.
pub open spec fn change_view(c: (&str, Option<String>)) -> (Seq<char>, Option<Seq<char>>) {
    (
        c.0@,
        match c.1 {
            Some(v) => Some(v@),
            None => None,
        },
    )
}

/// The changes applied in order over `m`.
pub open spec fn apply_changes(
    m: Map<Seq<char>, Seq<char>>,
    cs: Seq<(Seq<char>, Option<Seq<char>>)>,
) -> Map<Seq<char>, Seq<char>>
    decreases cs.len(),
{
    if cs.len() == 0 {
        m
    } else {
        let next = match cs[0].1 {
            Some(v) => m.insert(cs[0].0, v),
            None => m.remove(cs[0].0),
        };
        apply_changes(next, cs.drop_first())
    }
}

/// Every key a change set names, and every value it sets, is one the format can carry.
pub open spec fn clean_changes(cs: Seq<(Seq<char>, Option<Seq<char>>)>) -> bool {
    forall|i: int|
        0 <= i < cs.len() ==> clean_key(#[trigger] cs[i].0) && (cs[i].1 matches Some(v)
            ==> clean_value(v))
}

proof fn lemma_apply_changes_clean(
    m: Map<Seq<char>, Seq<char>>,
    cs: Seq<(Seq<char>, Option<Seq<char>>)>,
)
    requires
        clean_map(m),
        clean_changes(cs),
    ensures
        clean_map(apply_changes(m, cs)),
    decreases cs.len(),
{
    if cs.len() > 0 {
        let next = match cs[0].1 {
            Some(v) => m.insert(cs[0].0, v),
            None => m.remove(cs[0].0),
        };
        assert(clean_key(cs[0].0));
        assert forall|k: Seq<char>| #[trigger] next.contains_key(k) implies clean_key(k)
            && clean_value(next[k]) by {
            if k != cs[0].0 {
                assert(m.contains_key(k));
            }
        }
        let rest = cs.drop_first();
        assert forall|i: int| 0 <= i < rest.len() implies clean_key(#[trigger] rest[i].0) && (
        rest[i].1 matches Some(v) ==> clean_value(v)) by {
            assert(rest[i] == cs[i + 1]);
        }
        lemma_apply_changes_clean(next, rest);
    }
}

/// What has to happen to an override file for a change set to take effect.
#[derive(Debug)]
pub enum FileAction {
    /// Nothing is left to set and there is no file: touch nothing.
    Nothing,
    /// Nothing is left to set: remove the file.
    Remove,
    /// The file already holds exactly this: only make sure its directory exists.
    CreateDir,
    /// Create the file's directory and write this text to it.
    Write(String),
}

/// The action that makes a file holding `existing` hold `merged`.
pub open spec fn action_for(r: FileAction, existing: Seq<char>, exists: bool, merged: Map<Seq<char>, Seq<char>>) -> bool {
    &&& merged == Map::<Seq<char>, Seq<char>>::empty() ==> r == (if exists {
        FileAction::Remove
    } else {
        FileAction::Nothing
    })
    &&& merged != Map::<Seq<char>, Seq<char>>::empty() ==> match r {
        FileAction::Write(t) => t@ == render_map(merged) && t@ != existing,
        FileAction::CreateDir => render_map(merged) == existing,
        _ => false,
    }
}

/// The file left by `r` parses back to `merged`.
pub open spec fn reads_back(r: FileAction, existing: Seq<char>, merged: Map<Seq<char>, Seq<char>>) -> bool {
    match r {
        FileAction::Write(t) => parse_text(t@) == merged,
        FileAction::CreateDir => parse_text(existing) == merged,
        _ => true,
    }
}

/// Applies `changes` to a file holding `existing` (`exists` says whether it is there at all),
/// leaving every other key alone.
///
/// A `None` value removes the key. That is what makes the tiers work: a game-level file must only
/// carry the settings actually set for that game, or it would shadow the console and core files.
/// A change set that empties the file removes it, for the same reason.
pub fn apply(existing: &str, exists: bool, changes: &Vec<(&str, Option<String>)>) -> (r: FileAction)
    ensures
        action_for(r, existing@, exists, apply_changes(parse_text(existing@), changes@.map_values(|c| change_view(c)))),
        // what is written reads back as the merged settings
        clean_changes(changes@.map_values(|c| change_view(c))) ==> reads_back(
            r,
            existing@,
            apply_changes(parse_text(existing@), changes@.map_values(|c| change_view(c))),
        ),
{
    let ghost cs = changes@.map_values(|c| change_view(c));
    let ghost target = apply_changes(parse_text(existing@), cs);
    let mut map = parse(existing);
    let mut i: usize = 0;
    assert(cs.skip(0) =~= cs);
    while i < changes.len()
        invariant
            i <= changes.len(),
            cs == changes@.map_values(|c| change_view(c)),
            map.wf(),
            apply_changes(map.map(), cs.skip(i as int)) == target,
        decreases changes.len() - i,
    {
        let ghost before = map.map();
        assert(cs.skip(i as int)[0] == cs[i as int]);
        assert(cs.skip(i as int).drop_first() =~= cs.skip(i + 1));
        match &changes[i].1 {
            Some(v) => {
                map.insert(copy_string(changes[i].0), v.clone());
            },
            None => {
                map.remove(changes[i].0);
            },
        }
        i += 1;
    }
    assert(cs.skip(i as int) =~= Seq::<(Seq<char>, Option<Seq<char>>)>::empty());
    proof {
        map.lemma_render_map();
        lemma_parse_text_clean(existing@);
        if clean_changes(cs) {
            lemma_apply_changes_clean(parse_text(existing@), cs);
            lemma_render_then_parse(map);
        }
    }
    if map.is_empty() {
        if exists {
            FileAction::Remove
        } else {
            FileAction::Nothing
        }
    } else {
        let rendered = map.render();
        if str_eq(rendered.as_str(), existing) {
            FileAction::CreateDir
        } else {
            FileAction::Write(rendered)
        }
    }
}

/// The core's own name for itself, as its `.info` file gives it under `corename`.
///
/// This, and not the name `cores.toml` uses, is what RetroArch names override directories after.
pub fn core_name(info: &str) -> (name: Option<String>)
    ensures
        match name {
            Some(n) => parse_text(info@).contains_key("corename"@) && parse_text(info@)["corename"@]
                == n@ && n@.len() > 0,
            None => !parse_text(info@).contains_key("corename"@) || parse_text(
                info@,
            )["corename"@].len() == 0,
        },
{
    let map = parse(info);
    match map.get("corename") {
        Some(n) => {
            if n.as_str().unicode_len() == 0 {
                None
            } else {
                Some(n.clone())
            }
        },
        None => None,
    }
}

/// Which of RetroArch's override tiers a change is written to.
#[derive(Debug, Clone, Copy, PartialEq, Eq, Structural)]
pub enum OverrideScope {
    /// This ROM alone. Beats both tiers below it.
    Game,
    /// Every ROM in the same folder, which is how a console is expressed: `Roms/<console>` is
    /// exactly RetroArch's content directory.
    Console,
    /// Every game run by this core, whichever console it belongs to.
    Core,
}

impl OverrideScope {
    /// The scope a fresh install starts at.
    pub fn default() -> (s: Self)
        ensures
            s == OverrideScope::Game,
    {
        OverrideScope::Game
    }

    /// The scope at a position of the settings select, in declaration order.
    pub fn from_repr(index: usize) -> (s: Option<Self>)
        ensures
            index == 0 ==> s == Some(OverrideScope::Game),
            index == 1 ==> s == Some(OverrideScope::Console),
            index == 2 ==> s == Some(OverrideScope::Core),
            index > 2 ==> s is None,
    {
        match index {
            0 => Some(OverrideScope::Game),
            1 => Some(OverrideScope::Console),
            2 => Some(OverrideScope::Core),
            _ => None,
        }
    }
}

/// What `Path::file_stem` gives for a path, as text.
pub uninterp spec fn path_file_stem(path: Seq<char>) -> Option<Seq<char>>;

/// What `Path::parent` gives for a path, as text.
pub uninterp spec fn path_parent(path: Seq<char>) -> Option<Seq<char>>;

/// What `Path::file_name` gives for a path, as text.
pub uninterp spec fn path_file_name(path: Seq<char>) -> Option<Seq<char>>;

/// What `Path::join` gives for two paths, as text.
pub uninterp spec fn path_join(base: Seq<char>, part: Seq<char>) -> Seq<char>;

pub open spec fn opt_view(o: Option<String>) -> Option<Seq<char>> {
    match o {
        Some(s) => Some(s@),
        None => None,
    }
}

/// `std::path::Path::file_stem`: the file name without its last extension.
#[verifier::external_body]
fn file_stem(path: &str) -> (r: Option<String>)
    ensures
        opt_view(r) == path_file_stem(path@),
{
    std::path::Path::new(path).file_stem().map(|s| s.to_string_lossy().into_owned())
}

/// `std::path::Path::parent`: the path without its last component, so shorter than the path
/// whenever there is one.
#[verifier::external_body]
pub(crate) fn parent(path: &str) -> (r: Option<String>)
    ensures
        opt_view(r) == path_parent(path@),
        r matches Some(p) ==> p@.len() < path@.len(),
{
    std::path::Path::new(path).parent().map(|p| p.to_string_lossy().into_owned())
}

/// `std::path::Path::file_name`: the last component, unless it is `..`.
#[verifier::external_body]
pub(crate) fn file_name(path: &str) -> (r: Option<String>)
    ensures
        opt_view(r) == path_file_name(path@),
{
    std::path::Path::new(path).file_name().map(|s| s.to_string_lossy().into_owned())
}

/// `std::path::Path::join`: `part` below `base`, or `part` itself when it is absolute.
#[verifier::external_body]
pub(crate) fn join(base: &str, part: &str) -> (r: String)
    ensures
        r@ == path_join(base@, part@),
{
    std::path::Path::new(base).join(part).to_string_lossy().into_owned()
}

/// The stem RetroArch matches a tier on: the ROM's, its folder's name, or the core's name.
pub open spec fn scope_file_name_spec(scope: OverrideScope, core_name: Seq<char>, rom: Seq<char>) -> Option<
    Seq<char>,
> {
    match scope {
        OverrideScope::Game => path_file_stem(rom),
        OverrideScope::Console => match path_parent(rom) {
            Some(p) => path_file_name(p),
            None => None,
        },
        OverrideScope::Core => Some(core_name),
    }
}

/// The stem RetroArch matches a tier on: the ROM, its folder, or the core.
///
/// `None` for [`OverrideScope::Console`] when the ROM sits at the top with no folder to name.
pub fn scope_file_name(scope: OverrideScope, core_name: &str, rom: &str) -> (r: Option<String>)
    ensures
        opt_view(r) == scope_file_name_spec(scope, core_name@, rom@),
{
    match scope {
        OverrideScope::Game => file_stem(rom),
        OverrideScope::Console => match parent(rom) {
            Some(p) => file_name(p.as_str()),
            None => None,
        },
        OverrideScope::Core => Some(copy_string(core_name)),
    }
}

/// Where RetroArch keeps its overrides, per `rgui_config_directory`.
pub open spec fn config_dir_spec(sd_root: Seq<char>) -> Seq<char> {
    path_join(sd_root, "Saves/CurrentProfile/config"@)
}

/// Where RetroArch keeps input remaps, per `input_remapping_directory`.
pub open spec fn remap_dir_spec(sd_root: Seq<char>) -> Seq<char> {
    path_join(config_dir_spec(sd_root), "remaps"@)
}

/// The file under `dir` a scope writes to: `<dir>/<core>/<stem><ext>`.
pub open spec fn scoped_path_spec(
    dir: Seq<char>,
    scope: OverrideScope,
    core_name: Seq<char>,
    rom: Seq<char>,
    ext: Seq<char>,
) -> Option<Seq<char>> {
    match scope_file_name_spec(scope, core_name, rom) {
        Some(stem) => Some(path_join(path_join(dir, core_name), stem + ext)),
        None => None,
    }
}

pub fn config_dir(sd_root: &str) -> (r: String)
    ensures
        r@ == config_dir_spec(sd_root@),
{
    join(sd_root, "Saves/CurrentProfile/config")
}

pub fn remap_dir(sd_root: &str) -> (r: String)
    ensures
        r@ == remap_dir_spec(sd_root@),
{
    join(config_dir(sd_root).as_str(), "remaps")
}

fn scoped_path(dir: &str, scope: OverrideScope, core_name: &str, rom: &str, ext: &str) -> (r: Option<String>)
    ensures
        opt_view(r) == scoped_path_spec(dir@, scope, core_name@, rom@, ext@),
{
    match scope_file_name(scope, core_name, rom) {
        Some(stem) => {
            let mut name = stem;
            push_str(&mut name, ext);
            let base = join(dir, core_name);
            Some(join(base.as_str(), name.as_str()))
        },
        None => None,
    }
}

/// The override file a scope writes to, given the card's root, the core's name and the ROM.
pub fn override_path(sd_root: &str, scope: OverrideScope, core_name: &str, rom: &str) -> (r: Option<String>)
    ensures
        opt_view(r) == scoped_path_spec(config_dir_spec(sd_root@), scope, core_name@, rom@, ".cfg"@),
{
    scoped_path(config_dir(sd_root).as_str(), scope, core_name, rom, ".cfg")
}

/// The remap file a scope writes to. Same tiers, different directory and extension.
pub fn remap_path(sd_root: &str, scope: OverrideScope, core_name: &str, rom: &str) -> (r: Option<String>)
    ensures
        opt_view(r) == scoped_path_spec(remap_dir_spec(sd_root@), scope, core_name@, rom@, ".rmp"@),
{
    scoped_path(remap_dir(sd_root).as_str(), scope, core_name, rom, ".rmp")
}

} // verus!
