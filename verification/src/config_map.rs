//! The key/value store behind RetroArch's `key = "value"` files: unique keys, kept in the
//! character order of the key, which is the order the files are written in.
use vstd::prelude::*;

use crate::text::{chars_eq, chars_of, push_char, push_str};

verus! {

/// Strict lexicographic order on characters, by code point: the order of `String`'s `Ord`.
pub open spec fn lex_lt(a: Seq<char>, b: Seq<char>) -> bool
    decreases a.len(),
{
    if a.len() == 0 {
        b.len() > 0
    } else if b.len() == 0 {
        false
    } else if a[0] != b[0] {
        a[0] < b[0]
    } else {
        lex_lt(a.drop_first(), b.drop_first())
    }
}

pub proof fn lemma_lex_irreflexive(a: Seq<char>)
    ensures
        !lex_lt(a, a),
    decreases a.len(),
{
    if a.len() > 0 {
        lemma_lex_irreflexive(a.drop_first());
    }
}

pub proof fn lemma_lex_transitive(a: Seq<char>, b: Seq<char>, c: Seq<char>)
    requires
        lex_lt(a, b),
        lex_lt(b, c),
    ensures
        lex_lt(a, c),
    decreases a.len(),
{
    if a.len() > 0 && b.len() > 0 && c.len() > 0 && a[0] == b[0] && b[0] == c[0] {
        lemma_lex_transitive(a.drop_first(), b.drop_first(), c.drop_first());
    }
}

pub proof fn lemma_lex_total(a: Seq<char>, b: Seq<char>)
    ensures
        a == b || lex_lt(a, b) || lex_lt(b, a),
    decreases a.len(),
{
    if a.len() > 0 && b.len() > 0 && a[0] == b[0] {
        lemma_lex_total(a.drop_first(), b.drop_first());
        if a.drop_first() == b.drop_first() {
            assert(a =~= seq![a[0]] + a.drop_first());
            assert(b =~= seq![b[0]] + b.drop_first());
        }
    } else if a.len() == 0 && b.len() == 0 {
        assert(a =~= b);
    } else if a.len() > 0 && b.len() > 0 {
        // first characters differ: one code point is below the other
        assert(a[0] != b[0]);
    }
}

pub proof fn lemma_lex_asymmetric(a: Seq<char>, b: Seq<char>)
    requires
        lex_lt(a, b),
    ensures
        !lex_lt(b, a),
    decreases a.len(),
{
    if a.len() > 0 && b.len() > 0 && a[0] == b[0] {
        lemma_lex_asymmetric(a.drop_first(), b.drop_first());
    }
}

/// Once a common prefix is set aside, the comparison is decided by what follows it.
pub proof fn lemma_lex_skip(a: Seq<char>, b: Seq<char>, i: int)
    requires
        0 <= i <= a.len(),
        i <= b.len(),
        a.take(i) == b.take(i),
    ensures
        lex_lt(a, b) == lex_lt(a.skip(i), b.skip(i)),
    decreases i,
{
    if i > 0 {
        assert(a[0] == a.take(i)[0]);
        assert(b[0] == b.take(i)[0]);
        assert(a.drop_first().take(i - 1) =~= a.take(i).drop_first());
        assert(b.drop_first().take(i - 1) =~= b.take(i).drop_first());
        lemma_lex_skip(a.drop_first(), b.drop_first(), i - 1);
        assert(a.drop_first().skip(i - 1) =~= a.skip(i));
        assert(b.drop_first().skip(i - 1) =~= b.skip(i));
    } else {
        assert(a.skip(0) =~= a);
        assert(b.skip(0) =~= b);
    }
}

/// The outcome of comparing two keys.
pub enum KeyOrder {
    Less,
    Equal,
    Greater,
}

/// Compares two keys in [`lex_lt`] order.
pub fn compare_keys(a: &Vec<char>, b: &Vec<char>) -> (r: KeyOrder)
    ensures
        r is Less <==> lex_lt(a@, b@),
        r is Equal <==> a@ == b@,
        r is Greater <==> lex_lt(b@, a@),
{
    let mut i: usize = 0;
    while i < a.len() && i < b.len() && a[i] == b[i]
        invariant
            i <= a.len(),
            i <= b.len(),
            a@.take(i as int) == b@.take(i as int),
        decreases a.len() - i,
    {
        assert(a@.take(i + 1) =~= a@.take(i as int).push(a@[i as int]));
        assert(b@.take(i + 1) =~= b@.take(i as int).push(b@[i as int]));
        i += 1;
    }
    proof {
        lemma_lex_skip(a@, b@, i as int);
        lemma_lex_skip(b@, a@, i as int);
        lemma_lex_irreflexive(a@);
        lemma_lex_irreflexive(b@);
        if i < a.len() && i < b.len() {
            assert(a@.skip(i as int)[0] == a@[i as int]);
            assert(b@.skip(i as int)[0] == b@[i as int]);
            assert(a@ != b@ ==> true);
            if a@ == b@ {
                assert(a@[i as int] == b@[i as int]);
            }
        }
    }
    if i == a.len() && i == b.len() {
        assert(a@ =~= a@.take(i as int));
        assert(b@ =~= b@.take(i as int));
        KeyOrder::Equal
    } else if i == a.len() {
        assert(a@ =~= a@.take(i as int));
        assert(a@ != b@) by {
            assert(a@.len() != b@.len());
        }
        KeyOrder::Less
    } else if i == b.len() {
        assert(b@ =~= b@.take(i as int));
        assert(a@ != b@) by {
            assert(a@.len() != b@.len());
        }
        KeyOrder::Greater
    } else if a[i] < b[i] {
        assert(a@ != b@) by {
            assert(a@[i as int] != b@[i as int]);
        }
        KeyOrder::Less
    } else {
        assert(a@ != b@) by {
            assert(a@[i as int] != b@[i as int]);
        }
        KeyOrder::Greater
    }
}

/// The map a sequence of entries stands for, each entry inserted in turn over `m`.
pub open spec fn insert_all(m: Map<Seq<char>, Seq<char>>, es: Seq<(Seq<char>, Seq<char>)>) -> Map<
    Seq<char>,
    Seq<char>,
>
    decreases es.len(),
{
    if es.len() == 0 {
        m
    } else {
        insert_all(m.insert(es[0].0, es[0].1), es.drop_first())
    }
}

pub open spec fn entries_map(es: Seq<(Seq<char>, Seq<char>)>) -> Map<Seq<char>, Seq<char>> {
    insert_all(Map::empty(), es)
}

/// Keys strictly increasing, hence unique.
pub open spec fn sorted_keys(es: Seq<(Seq<char>, Seq<char>)>) -> bool {
    forall|i: int, j: int| 0 <= i < j < es.len() ==> lex_lt(#[trigger] es[i].0, #[trigger] es[j].0)
}

pub open spec fn unique_keys(es: Seq<(Seq<char>, Seq<char>)>) -> bool {
    forall|i: int, j: int| 0 <= i < j < es.len() ==> #[trigger] es[i].0 != #[trigger] es[j].0
}

pub proof fn lemma_sorted_unique(es: Seq<(Seq<char>, Seq<char>)>)
    requires
        sorted_keys(es),
    ensures
        unique_keys(es),
{
    assert forall|i: int, j: int| 0 <= i < j < es.len() implies #[trigger] es[i].0
        != #[trigger] es[j].0 by {
        lemma_lex_irreflexive(es[i].0);
    }
}

pub proof fn lemma_unique_rest(es: Seq<(Seq<char>, Seq<char>)>)
    requires
        unique_keys(es),
        es.len() > 0,
    ensures
        unique_keys(es.drop_first()),
        forall|j: int| 0 <= j < es.len() - 1 ==> #[trigger] es.drop_first()[j].0 != es[0].0,
{
    let rest = es.drop_first();
    assert forall|i: int, j: int| 0 <= i < j < rest.len() implies #[trigger] rest[i].0
        != #[trigger] rest[j].0 by {
        assert(rest[i] == es[i + 1]);
        assert(rest[j] == es[j + 1]);
    }
    assert forall|j: int| 0 <= j < es.len() - 1 implies #[trigger] rest[j].0 != es[0].0 by {
        assert(rest[j] == es[j + 1]);
    }
}

/// A key no entry carries keeps whatever `m` gave it.
pub proof fn lemma_insert_all_miss(
    m: Map<Seq<char>, Seq<char>>,
    es: Seq<(Seq<char>, Seq<char>)>,
    k: Seq<char>,
)
    requires
        forall|i: int| 0 <= i < es.len() ==> #[trigger] es[i].0 != k,
    ensures
        insert_all(m, es).contains_key(k) == m.contains_key(k),
        m.contains_key(k) ==> insert_all(m, es)[k] == m[k],
    decreases es.len(),
{
    if es.len() > 0 {
        let rest = es.drop_first();
        assert(es[0].0 != k);
        assert forall|j: int| 0 <= j < rest.len() implies #[trigger] rest[j].0 != k by {
            assert(rest[j] == es[j + 1]);
        }
        lemma_insert_all_miss(m.insert(es[0].0, es[0].1), rest, k);
    }
}

/// With unique keys, each entry's key maps to that entry's value.
pub proof fn lemma_insert_all_hit(
    m: Map<Seq<char>, Seq<char>>,
    es: Seq<(Seq<char>, Seq<char>)>,
    i: int,
)
    requires
        unique_keys(es),
        0 <= i < es.len(),
    ensures
        insert_all(m, es).contains_key(es[i].0),
        insert_all(m, es)[es[i].0] == es[i].1,
    decreases es.len(),
{
    let rest = es.drop_first();
    let m2 = m.insert(es[0].0, es[0].1);
    lemma_unique_rest(es);
    if i == 0 {
        lemma_insert_all_miss(m2, rest, es[0].0);
    } else {
        assert(rest[i - 1] == es[i]);
        lemma_insert_all_hit(m2, rest, i - 1);
    }
}

/// The map of unique-keyed entries: a key is present exactly when some entry carries it.
pub proof fn lemma_entries_map(es: Seq<(Seq<char>, Seq<char>)>)
    requires
        unique_keys(es),
    ensures
        forall|i: int|
            0 <= i < es.len() ==> #[trigger] entries_map(es).contains_key(es[i].0) && entries_map(
                es,
            )[es[i].0] == es[i].1,
        forall|k: Seq<char>|
            #[trigger] entries_map(es).contains_key(k) ==> exists|i: int|
                0 <= i < es.len() && es[i].0 == k,
{
    assert forall|i: int| 0 <= i < es.len() implies #[trigger] entries_map(es).contains_key(
        es[i].0,
    ) && entries_map(es)[es[i].0] == es[i].1 by {
        lemma_insert_all_hit(Map::empty(), es, i);
    }
    assert forall|k: Seq<char>| #[trigger] entries_map(es).contains_key(k) implies exists|i: int|
        0 <= i < es.len() && es[i].0 == k by {
        if forall|i: int| 0 <= i < es.len() ==> #[trigger] es[i].0 != k {
            lemma_insert_all_miss(Map::empty(), es, k);
        }
    }
}

/// One rendered line: `key = "value"` and a newline.
pub open spec fn line_of(k: Seq<char>, v: Seq<char>) -> Seq<char> {
    k + seq![' ', '=', ' ', '"'] + v + seq!['"', '\n']
}

/// The entries rendered in order, one line each.
pub open spec fn render_entries(es: Seq<(Seq<char>, Seq<char>)>) -> Seq<char>
    decreases es.len(),
{
    if es.len() == 0 {
        Seq::empty()
    } else {
        line_of(es[0].0, es[0].1) + render_entries(es.drop_first())
    }
}

pub proof fn lemma_render_push(es: Seq<(Seq<char>, Seq<char>)>, e: (Seq<char>, Seq<char>))
    ensures
        render_entries(es.push(e)) == render_entries(es) + line_of(e.0, e.1),
    decreases es.len(),
{
    if es.len() == 0 {
        assert(es.push(e).drop_first() =~= Seq::<(Seq<char>, Seq<char>)>::empty());
        assert(es.push(e)[0] == e);
        assert(render_entries(es.push(e).drop_first()) == Seq::<char>::empty());
        assert(render_entries(es) == Seq::<char>::empty());
        assert(render_entries(es.push(e)) =~= line_of(e.0, e.1));
    } else {
        assert(es.push(e).drop_first() =~= es.drop_first().push(e));
        lemma_render_push(es.drop_first(), e);
        assert(render_entries(es.push(e)) =~= render_entries(es) + line_of(e.0, e.1));
    }
}

pub proof fn lemma_sorted_rest(es: Seq<(Seq<char>, Seq<char>)>)
    requires
        sorted_keys(es),
        es.len() > 0,
    ensures
        sorted_keys(es.drop_first()),
{
    let rest = es.drop_first();
    assert forall|i: int, j: int| 0 <= i < j < rest.len() implies lex_lt(
        #[trigger] rest[i].0,
        #[trigger] rest[j].0,
    ) by {
        assert(rest[i] == es[i + 1]);
        assert(rest[j] == es[j + 1]);
    }
}

/// Dropping the first of unique-keyed entries drops its key from the map.
pub proof fn lemma_entries_map_rest(es: Seq<(Seq<char>, Seq<char>)>)
    requires
        unique_keys(es),
        es.len() > 0,
    ensures
        entries_map(es.drop_first()) == entries_map(es).remove(es[0].0),
{
    let rest = es.drop_first();
    lemma_unique_rest(es);
    lemma_entries_map(es);
    lemma_entries_map(rest);
    let a = entries_map(rest);
    let b = entries_map(es).remove(es[0].0);
    assert forall|k: Seq<char>| #[trigger] a.contains_key(k) <==> b.contains_key(k) by {
        if a.contains_key(k) {
            let w = choose|w: int| 0 <= w < rest.len() && rest[w].0 == k;
            assert(rest[w] == es[w + 1]);
            assert(entries_map(es).contains_key(es[w + 1].0));
        }
        if b.contains_key(k) {
            let w = choose|w: int| 0 <= w < es.len() && es[w].0 == k;
            assert(w != 0);
            assert(rest[w - 1] == es[w]);
            assert(a.contains_key(rest[w - 1].0));
        }
    }
    assert forall|k: Seq<char>| #[trigger] a.contains_key(k) implies a[k] == b[k] by {
        let w = choose|w: int| 0 <= w < rest.len() && rest[w].0 == k;
        assert(rest[w] == es[w + 1]);
        assert(entries_map(es).contains_key(es[w + 1].0));
    }
    assert(a =~= b);
}

/// Two key-ordered entry lists for the same map are the same list.
pub proof fn lemma_sorted_entries_unique(a: Seq<(Seq<char>, Seq<char>)>, b: Seq<(Seq<char>, Seq<char>)>)
    requires
        sorted_keys(a),
        sorted_keys(b),
        entries_map(a) == entries_map(b),
    ensures
        a == b,
    decreases a.len(),
{
    lemma_sorted_unique(a);
    lemma_sorted_unique(b);
    lemma_entries_map(a);
    lemma_entries_map(b);
    if a.len() == 0 {
        if b.len() > 0 {
            assert(entries_map(b).contains_key(b[0].0));
        }
        assert(a =~= b);
    } else if b.len() == 0 {
        assert(entries_map(a).contains_key(a[0].0));
    } else {
        let ka = a[0].0;
        let kb = b[0].0;
        assert(entries_map(a).contains_key(ka));
        assert(entries_map(b).contains_key(kb));
        let j = choose|j: int| 0 <= j < b.len() && b[j].0 == ka;
        let i = choose|i: int| 0 <= i < a.len() && a[i].0 == kb;
        if j > 0 && i > 0 {
            assert(lex_lt(kb, ka));
            assert(lex_lt(ka, kb));
            lemma_lex_asymmetric(ka, kb);
        }
        assert(ka == kb);
        assert(a[0] == b[0]);
        lemma_sorted_rest(a);
        lemma_sorted_rest(b);
        lemma_entries_map_rest(a);
        lemma_entries_map_rest(b);
        lemma_sorted_entries_unique(a.drop_first(), b.drop_first());
        assert(a =~= seq![a[0]] + a.drop_first());
        assert(b =~= seq![b[0]] + b.drop_first());
    }
}

/// The entries of a map in key order, for a map that has them.
pub open spec fn sorted_entries_of(m: Map<Seq<char>, Seq<char>>) -> Seq<(Seq<char>, Seq<char>)> {
    choose|es: Seq<(Seq<char>, Seq<char>)>| sorted_keys(es) && entries_map(es) == m
}

/// The text a map is written as: its entries in key order, one line each.
pub open spec fn render_map(m: Map<Seq<char>, Seq<char>>) -> Seq<char> {
    render_entries(sorted_entries_of(m))
}

/// A set of RetroArch settings: unique keys, each with its value, kept in key order.
pub struct ConfigMap {
    entries: Vec<(String, String)>,
}

impl ConfigMap {
    /// The entries, in key order.
    pub closed spec fn entries(self) -> Seq<(Seq<char>, Seq<char>)> {
        self.entries@.map_values(|e: (String, String)| (e.0@, e.1@))
    }

    /// The settings as a map from key to value.
    pub open spec fn map(self) -> Map<Seq<char>, Seq<char>> {
        entries_map(self.entries())
    }

    /// Every `ConfigMap` keeps its keys in strictly increasing order.
    pub open spec fn wf(self) -> bool {
        sorted_keys(self.entries())
    }

    /// Facts that follow from well-formedness, for callers.
    pub proof fn lemma_wf(self)
        requires
            self.wf(),
        ensures
            unique_keys(self.entries()),
            forall|i: int|
                0 <= i < self.entries().len() ==> #[trigger] self.map().contains_key(
                    self.entries()[i].0,
                ) && self.map()[self.entries()[i].0] == self.entries()[i].1,
            forall|k: Seq<char>|
                #[trigger] self.map().contains_key(k) ==> exists|i: int|
                    0 <= i < self.entries().len() && self.entries()[i].0 == k,
    {
        lemma_sorted_unique(self.entries());
        lemma_entries_map(self.entries());
    }

    /// The entries are the map's entries in key order, so its text is the map's text.
    pub proof fn lemma_render_map(self)
        requires
            self.wf(),
        ensures
            sorted_entries_of(self.map()) == self.entries(),
            render_entries(self.entries()) == render_map(self.map()),
    {
        let es = self.entries();
        assert(sorted_keys(es) && entries_map(es) == self.map());
        let c = sorted_entries_of(self.map());
        lemma_sorted_entries_unique(c, es);
    }

    /// An empty set of settings.
    pub fn new() -> (m: Self)
        ensures
            m.wf(),
            m.entries().len() == 0,
            m.map() == Map::<Seq<char>, Seq<char>>::empty(),
    {
        let m = ConfigMap { entries: Vec::new() };
        assert(m.entries() =~= Seq::<(Seq<char>, Seq<char>)>::empty());
        m
    }

    /// How many keys are set.
    pub fn len(&self) -> (n: usize)
        ensures
            n == self.entries().len(),
    {
        self.entries.len()
    }

    /// Whether no key is set.
    pub fn is_empty(&self) -> (b: bool)
        requires
            self.wf(),
        ensures
            b == (self.entries().len() == 0),
            b == (self.map() == Map::<Seq<char>, Seq<char>>::empty()),
    {
        proof {
            self.lemma_wf();
            if self.entries().len() > 0 {
                assert(self.map().contains_key(self.entries()[0].0));
            } else {
                assert(self.map() =~= Map::<Seq<char>, Seq<char>>::empty());
            }
        }
        self.entries.len() == 0
    }

    /// Where `key` is, if it is set.
    fn position(&self, key: &Vec<char>) -> (r: Option<usize>)
        requires
            self.wf(),
        ensures
            match r {
                Some(i) => i < self.entries().len() && self.entries()[i as int].0 == key@,
                None => !self.map().contains_key(key@),
            },
    {
        proof {
            self.lemma_wf();
        }
        let mut i: usize = 0;
        while i < self.entries.len()
            invariant
                i <= self.entries@.len(),
                self.entries@.len() == self.entries().len(),
                forall|j: int| 0 <= j < i ==> self.entries()[j].0 != key@,
            decreases self.entries.len() - i,
        {
            let k = chars_of(self.entries[i].0.as_str());
            assert(self.entries()[i as int].0 == self.entries@[i as int].0@);
            if chars_eq(&k, key) {
                return Some(i);
            }
            i += 1;
        }
        None
    }

    /// The value set for `key`.
    pub fn get(&self, key: &str) -> (r: Option<&String>)
        requires
            self.wf(),
        ensures
            match r {
                Some(v) => self.map().contains_key(key@) && self.map()[key@] == v@,
                None => !self.map().contains_key(key@),
            },
    {
        proof {
            self.lemma_wf();
        }
        let k = chars_of(key);
        match self.position(&k) {
            Some(i) => {
                assert(self.entries()[i as int].1 == self.entries@[i as int].1@);
                assert(self.map().contains_key(self.entries()[i as int].0));
                Some(&self.entries[i].1)
            },
            None => None,
        }
    }

    /// Whether `key` is set.
    pub fn contains_key(&self, key: &str) -> (b: bool)
        requires
            self.wf(),
        ensures
            b == self.map().contains_key(key@),
    {
        proof {
            self.lemma_wf();
        }
        let k = chars_of(key);
        self.position(&k).is_some()
    }

    /// Sets `key` to `value`, replacing what it held.
    pub fn insert(&mut self, key: String, value: String)
        requires
            old(self).wf(),
        ensures
            final(self).wf(),
            final(self).map() == old(self).map().insert(key@, value@),
    {
        let ghost es = self.entries();
        proof {
            self.lemma_wf();
        }
        let k = chars_of(key.as_str());
        let mut i: usize = 0;
        let mut found = false;
        let mut greater = false;
        while i < self.entries.len() && !found && !greater
            invariant
                i <= self.entries@.len(),
                self.entries@.len() == es.len(),
                self.entries() == es,
                sorted_keys(es),
                k@ == key@,
                forall|j: int| 0 <= j < i ==> lex_lt(#[trigger] es[j].0, key@),
                found ==> i < es.len() && es[i as int].0 == key@,
                greater ==> i < es.len() && lex_lt(key@, es[i as int].0),
                !(found && greater),
            decreases self.entries.len() - i + (if found || greater { 0int } else { 1int }),
        {
            let ki = chars_of(self.entries[i].0.as_str());
            assert(es[i as int].0 == self.entries@[i as int].0@);
            match compare_keys(&ki, &k) {
                KeyOrder::Less => {
                    i += 1;
                },
                KeyOrder::Equal => {
                    found = true;
                },
                KeyOrder::Greater => {
                    greater = true;
                },
            }
        }
        // Everything from `i` on sorts after `key`, unless `key` itself sits at `i`
        proof {
            assert forall|j: int| i <= j < es.len() && !(found && j == i) implies lex_lt(
                key@,
                #[trigger] es[j].0,
            ) by {
                if !found {
                    assert(greater || i == es.len());
                    if j > i {
                        lemma_lex_transitive(key@, es[i as int].0, es[j].0);
                    }
                } else {
                    assert(es[i as int].0 == key@);
                    assert(lex_lt(es[i as int].0, es[j].0));
                }
            }
        }
        let ghost e = (key@, value@);
        if found {
            self.entries.set(i, (key, value));
            proof {
                assert(self.entries() =~= es.update(i as int, e));
                lemma_sorted_unique(es);
                lemma_entries_map(es);
                let ns = self.entries();
                assert(sorted_keys(ns)) by {
                    assert forall|a: int, b: int| 0 <= a < b < ns.len() implies lex_lt(
                        #[trigger] ns[a].0,
                        #[trigger] ns[b].0,
                    ) by {
                        assert(ns[a].0 == es[a].0);
                        assert(ns[b].0 == es[b].0);
                    }
                }
                lemma_sorted_unique(ns);
                lemma_entries_map(ns);
                assert forall|kk: Seq<char>| #[trigger] self.map().contains_key(kk) <==> entries_map(
                    es,
                ).insert(key@, value@).contains_key(kk) by {
                    if self.map().contains_key(kk) {
                        let w = choose|w: int| 0 <= w < ns.len() && ns[w].0 == kk;
                        if w != i {
                            assert(ns[w] == es[w]);
                        }
                    }
                    if entries_map(es).contains_key(kk) && kk != key@ {
                        let w = choose|w: int| 0 <= w < es.len() && es[w].0 == kk;
                        assert(ns[w] == es[w]);
                    }
                    if kk == key@ {
                        assert(ns[i as int].0 == kk);
                    }
                }
                assert forall|kk: Seq<char>| #[trigger] self.map().contains_key(kk) implies
                    self.map()[kk] == entries_map(es).insert(key@, value@)[kk] by {
                    let w = choose|w: int| 0 <= w < ns.len() && ns[w].0 == kk;
                    if w != i {
                        assert(ns[w] == es[w]);
                    }
                }
                assert(self.map() =~= old(self).map().insert(key@, value@));
            }
        } else {
            self.entries.insert(i, (key, value));
            proof {
                let ns = self.entries();
                assert(ns =~= es.take(i as int).push(e) + es.skip(i as int));
                assert forall|j: int| 0 <= j < ns.len() implies #[trigger] ns[j] == (if j < i {
                    es[j]
                } else if j == i {
                    e
                } else {
                    es[j - 1]
                }) by {}
                assert(sorted_keys(ns)) by {
                    assert forall|a: int, b: int| 0 <= a < b < ns.len() implies lex_lt(
                        #[trigger] ns[a].0,
                        #[trigger] ns[b].0,
                    ) by {
                        if a < i && b == i {
                        } else if a < i && b > i {
                            lemma_lex_transitive(es[a].0, key@, es[b - 1].0);
                        } else if a == i {
                        } else if a < i {
                        }
                    }
                }
                lemma_sorted_unique(es);
                lemma_entries_map(es);
                lemma_sorted_unique(ns);
                lemma_entries_map(ns);
                assert forall|kk: Seq<char>| #[trigger] self.map().contains_key(kk) <==> entries_map(
                    es,
                ).insert(key@, value@).contains_key(kk) by {
                    if self.map().contains_key(kk) {
                        let w = choose|w: int| 0 <= w < ns.len() && ns[w].0 == kk;
                        if w < i {
                            assert(ns[w] == es[w]);
                        } else if w > i {
                            assert(ns[w] == es[w - 1]);
                        }
                    }
                    if entries_map(es).contains_key(kk) {
                        let w = choose|w: int| 0 <= w < es.len() && es[w].0 == kk;
                        if w < i {
                            assert(ns[w] == es[w]);
                        } else {
                            assert(ns[w + 1] == es[w]);
                        }
                    }
                    if kk == key@ {
                        assert(ns[i as int].0 == kk);
                    }
                }
                assert forall|kk: Seq<char>| #[trigger] self.map().contains_key(kk) implies
                    self.map()[kk] == entries_map(es).insert(key@, value@)[kk] by {
                    let w = choose|w: int| 0 <= w < ns.len() && ns[w].0 == kk;
                    assert(self.map().contains_key(ns[w].0));
                    if w < i {
                        assert(ns[w] == es[w]);
                        assert(entries_map(es).contains_key(es[w].0));
                        assert(ns[w].0 != ns[i as int].0);
                    } else if w > i {
                        assert(ns[w] == es[w - 1]);
                        assert(entries_map(es).contains_key(es[w - 1].0));
                        assert(ns[w].0 != ns[i as int].0);
                    } else {
                        assert(ns[w] == e);
                    }
                }
                assert(self.map() =~= old(self).map().insert(key@, value@));
            }
        }
    }

    /// Unsets `key`; nothing happens if it was not set.
    pub fn remove(&mut self, key: &str)
        requires
            old(self).wf(),
        ensures
            final(self).wf(),
            final(self).map() == old(self).map().remove(key@),
    {
        let ghost es = self.entries();
        proof {
            self.lemma_wf();
        }
        let k = chars_of(key);
        match self.position(&k) {
            None => {
                assert(self.map() =~= old(self).map().remove(key@));
            },
            Some(i) => {
                self.entries.remove(i);
                proof {
                    let ns = self.entries();
                    assert(ns =~= es.take(i as int) + es.skip(i + 1));
                    assert forall|j: int| 0 <= j < ns.len() implies #[trigger] ns[j] == (if j < i {
                        es[j]
                    } else {
                        es[j + 1]
                    }) by {}
                    assert(sorted_keys(ns)) by {
                        assert forall|a: int, b: int| 0 <= a < b < ns.len() implies lex_lt(
                            #[trigger] ns[a].0,
                            #[trigger] ns[b].0,
                        ) by {
                            let a2 = if a < i {
                                a
                            } else {
                                a + 1
                            };
                            let b2 = if b < i {
                                b
                            } else {
                                b + 1
                            };
                            assert(lex_lt(es[a2].0, es[b2].0));
                        }
                    }
                    lemma_sorted_unique(es);
                    lemma_entries_map(es);
                    lemma_sorted_unique(ns);
                    lemma_entries_map(ns);
                    assert forall|kk: Seq<char>| #[trigger] self.map().contains_key(kk)
                        <==> entries_map(es).remove(key@).contains_key(kk) by {
                        if self.map().contains_key(kk) {
                            let w = choose|w: int| 0 <= w < ns.len() && ns[w].0 == kk;
                            if w < i {
                                assert(ns[w] == es[w]);
                            } else {
                                assert(ns[w] == es[w + 1]);
                            }
                        }
                        if entries_map(es).contains_key(kk) && kk != key@ {
                            let w = choose|w: int| 0 <= w < es.len() && es[w].0 == kk;
                            if w < i {
                                assert(ns[w] == es[w]);
                            } else {
                                assert(w != i);
                                assert(ns[w - 1] == es[w]);
                            }
                        }
                    }
                    assert forall|kk: Seq<char>| #[trigger] self.map().contains_key(kk) implies
                        self.map()[kk] == entries_map(es).remove(key@)[kk] by {
                        let w = choose|w: int| 0 <= w < ns.len() && ns[w].0 == kk;
                        if w < i {
                            assert(ns[w] == es[w]);
                        } else {
                            assert(ns[w] == es[w + 1]);
                        }
                    }
                    assert(self.map() =~= old(self).map().remove(key@));
                }
            },
        }
    }
    /// The file text: every entry as `key = "value"` on a line of its own, in key order.
    pub fn render(&self) -> (out: String)
        ensures
            out@ == render_entries(self.entries()),
    {
        let ghost es = self.entries();
        let mut out = String::new();
        let mut i: usize = 0;
        while i < self.entries.len()
            invariant
                i <= self.entries@.len(),
                es == self.entries(),
                es.len() == self.entries@.len(),
                out@ == render_entries(es.take(i as int)),
            decreases self.entries.len() - i,
        {
            let ghost before = out@;
            push_str(&mut out, self.entries[i].0.as_str());
            push_char(&mut out, ' ');
            push_char(&mut out, '=');
            push_char(&mut out, ' ');
            push_char(&mut out, '"');
            push_str(&mut out, self.entries[i].1.as_str());
            push_char(&mut out, '"');
            push_char(&mut out, '\n');
            proof {
                let e = es[i as int];
                assert(e == (self.entries@[i as int].0@, self.entries@[i as int].1@));
                lemma_render_push(es.take(i as int), e);
                assert(es.take(i + 1) =~= es.take(i as int).push(e));
                assert(out@ =~= before + line_of(e.0, e.1));
            }
            i += 1;
        }
        assert(es.take(es.len() as int) =~= es);
        out
    }
}

} // verus!
