//! Character-level helpers shared by the text formats: whitespace, trimming, searching.
use vstd::prelude::*;

verus! {

/// Unicode `White_Space`, the property `char::is_whitespace` and `str::trim` go by.
pub open spec fn is_ws(c: char) -> bool {
    let n = c as u32;
    ||| 0x09 <= n <= 0x0D
    ||| n == 0x20
    ||| n == 0x85
    ||| n == 0xA0
    ||| n == 0x1680
    ||| 0x2000 <= n <= 0x200A
    ||| n == 0x2028
    ||| n == 0x2029
    ||| n == 0x202F
    ||| n == 0x205F
    ||| n == 0x3000
}

/// Exec twin of [`is_ws`].
pub fn is_whitespace(c: char) -> (r: bool)
    ensures
        r == is_ws(c),
{
    let n = c as u32;
    (0x09 <= n && n <= 0x0D) || n == 0x20 || n == 0x85 || n == 0xA0 || n == 0x1680 || (0x2000
        <= n && n <= 0x200A) || n == 0x2028 || n == 0x2029 || n == 0x202F || n == 0x205F || n
        == 0x3000
}

/// A set of characters that trimming strips.
#[derive(Clone, Copy)]
pub enum CharClass {
    Whitespace,
    NotWhitespace,
    Exactly(char),
}

pub open spec fn in_class(cls: CharClass, c: char) -> bool {
    match cls {
        CharClass::Whitespace => is_ws(c),
        CharClass::NotWhitespace => !is_ws(c),
        CharClass::Exactly(x) => c == x,
    }
}

pub fn class_contains(cls: CharClass, c: char) -> (r: bool)
    ensures
        r == in_class(cls, c),
{
    match cls {
        CharClass::Whitespace => is_whitespace(c),
        CharClass::NotWhitespace => !is_whitespace(c),
        CharClass::Exactly(x) => c == x,
    }
}

/// How many characters at the front of `s` belong to `cls`.
pub open spec fn leading(s: Seq<char>, cls: CharClass) -> nat
    decreases s.len(),
{
    if s.len() > 0 && in_class(cls, s[0]) {
        1 + leading(s.drop_first(), cls)
    } else {
        0
    }
}

/// How many characters at the back of `s` belong to `cls`.
pub open spec fn trailing(s: Seq<char>, cls: CharClass) -> nat
    decreases s.len(),
{
    if s.len() > 0 && in_class(cls, s.last()) {
        1 + trailing(s.drop_last(), cls)
    } else {
        0
    }
}

/// `s` without the run of `cls` at its front.
pub open spec fn strip_start(s: Seq<char>, cls: CharClass) -> Seq<char> {
    s.skip(leading(s, cls) as int)
}

/// `s` without the run of `cls` at its back.
pub open spec fn strip_end(s: Seq<char>, cls: CharClass) -> Seq<char> {
    s.take(s.len() - trailing(s, cls))
}

/// `str::trim`.
pub open spec fn trim(s: Seq<char>) -> Seq<char> {
    strip_end(strip_start(s, CharClass::Whitespace), CharClass::Whitespace)
}

/// `str::trim_matches` with a single character.
pub open spec fn trim_char(s: Seq<char>, c: char) -> Seq<char> {
    strip_end(strip_start(s, CharClass::Exactly(c)), CharClass::Exactly(c))
}

/// Position of the first `c` in `s`, or -1 when there is none.
pub open spec fn index_of(s: Seq<char>, c: char) -> int
    decreases s.len(),
{
    if s.len() == 0 {
        -1
    } else if s[0] == c {
        0
    } else if index_of(s.drop_first(), c) < 0 {
        -1
    } else {
        index_of(s.drop_first(), c) + 1
    }
}

/// Where `pat` first occurs in `s` at or after position `from`, or -1 when it does not.
pub open spec fn find_from(s: Seq<char>, pat: Seq<char>, from: int) -> int
    decreases s.len() + 1 - from,
{
    if from < 0 || from + pat.len() > s.len() {
        -1
    } else if s.subrange(from, from + pat.len()) == pat {
        from
    } else {
        find_from(s, pat, from + 1)
    }
}

/// What `find_from` finds: a real occurrence, at or after `from`.
pub proof fn lemma_find_from(s: Seq<char>, pat: Seq<char>, from: int)
    requires
        0 <= from,
    ensures
        find_from(s, pat, from) == -1 || (from <= find_from(s, pat, from) && find_from(s, pat, from)
            + pat.len() <= s.len() && s.subrange(
            find_from(s, pat, from),
            find_from(s, pat, from) + pat.len(),
        ) == pat),
    decreases s.len() + 1 - from,
{
    if from + pat.len() <= s.len() && s.subrange(from, from + pat.len()) != pat {
        lemma_find_from(s, pat, from + 1);
    }
}

/// What `leading` counts, stated by position.
pub proof fn lemma_leading(s: Seq<char>, cls: CharClass)
    ensures
        leading(s, cls) <= s.len(),
        forall|j: int| 0 <= j < leading(s, cls) ==> in_class(cls, #[trigger] s[j]),
        leading(s, cls) < s.len() ==> !in_class(cls, s[leading(s, cls) as int]),
    decreases s.len(),
{
    if s.len() > 0 && in_class(cls, s[0]) {
        lemma_leading(s.drop_first(), cls);
        assert forall|j: int| 0 <= j < leading(s, cls) implies in_class(cls, #[trigger] s[j]) by {
            if j > 0 {
                assert(s[j] == s.drop_first()[j - 1]);
            }
        }
    }
}

/// The run length is the only count with those properties.
pub proof fn lemma_leading_unique(s: Seq<char>, cls: CharClass, n: int)
    requires
        0 <= n <= s.len(),
        forall|j: int| 0 <= j < n ==> in_class(cls, #[trigger] s[j]),
        n < s.len() ==> !in_class(cls, s[n]),
    ensures
        leading(s, cls) == n,
{
    lemma_leading(s, cls);
    let m = leading(s, cls) as int;
    if m < n {
        assert(in_class(cls, s[m]));
    } else if n < m {
        assert(in_class(cls, s[n]));
    }
}

/// What `trailing` counts, stated by position.
pub proof fn lemma_trailing(s: Seq<char>, cls: CharClass)
    ensures
        trailing(s, cls) <= s.len(),
        forall|j: int| s.len() - trailing(s, cls) <= j < s.len() ==> in_class(cls, #[trigger] s[j]),
        trailing(s, cls) < s.len() ==> !in_class(cls, s[s.len() - trailing(s, cls) - 1]),
    decreases s.len(),
{
    if s.len() > 0 && in_class(cls, s.last()) {
        lemma_trailing(s.drop_last(), cls);
        assert forall|j: int| s.len() - trailing(s, cls) <= j < s.len() implies in_class(
            cls,
            #[trigger] s[j],
        ) by {
            if j < s.len() - 1 {
                assert(s[j] == s.drop_last()[j]);
            }
        }
    }
}

pub proof fn lemma_trailing_unique(s: Seq<char>, cls: CharClass, n: int)
    requires
        0 <= n <= s.len(),
        forall|j: int| s.len() - n <= j < s.len() ==> in_class(cls, #[trigger] s[j]),
        n < s.len() ==> !in_class(cls, s[s.len() - n - 1]),
    ensures
        trailing(s, cls) == n,
{
    lemma_trailing(s, cls);
    let m = trailing(s, cls) as int;
    if m < n {
        assert(in_class(cls, s[s.len() - m - 1]));
    } else if n < m {
        assert(in_class(cls, s[s.len() - n - 1]));
    }
}

/// What `index_of` finds, stated by position.
pub proof fn lemma_index_of(s: Seq<char>, c: char)
    ensures
        -1 <= index_of(s, c) < s.len(),
        index_of(s, c) < 0 ==> forall|j: int| 0 <= j < s.len() ==> #[trigger] s[j] != c,
        index_of(s, c) >= 0 ==> s[index_of(s, c)] == c && forall|j: int|
            0 <= j < index_of(s, c) ==> #[trigger] s[j] != c,
    decreases s.len(),
{
    if s.len() > 0 && s[0] != c {
        lemma_index_of(s.drop_first(), c);
        assert forall|j: int| 0 < j < s.len() implies #[trigger] s[j] == s.drop_first()[j - 1] by {}
    }
}

pub proof fn lemma_index_of_unique(s: Seq<char>, c: char, i: int)
    requires
        -1 <= i < s.len(),
        i < 0 ==> forall|j: int| 0 <= j < s.len() ==> #[trigger] s[j] != c,
        i >= 0 ==> s[i] == c && forall|j: int| 0 <= j < i ==> #[trigger] s[j] != c,
    ensures
        index_of(s, c) == i,
{
    lemma_index_of(s, c);
    let k = index_of(s, c);
    if i < 0 && k >= 0 {
        assert(s[k] == c);
    } else if i >= 0 && k < 0 {
        assert(s[i] == c);
    } else if i >= 0 && k >= 0 {
        if k < i {
            assert(s[k] == c);
        } else if i < k {
            assert(s[i] == c);
        }
    }
}

/// `s[lo..hi]` without its leading run of `cls`.
pub proof fn lemma_strip_start_range(s: Seq<char>, lo: int, hi: int, cls: CharClass)
    requires
        0 <= lo <= hi <= s.len(),
    ensures
        lo + leading(s.subrange(lo, hi), cls) <= hi,
        strip_start(s.subrange(lo, hi), cls) == s.subrange(
            lo + leading(s.subrange(lo, hi), cls),
            hi,
        ),
{
    lemma_leading(s.subrange(lo, hi), cls);
    assert(strip_start(s.subrange(lo, hi), cls) =~= s.subrange(
        lo + leading(s.subrange(lo, hi), cls),
        hi,
    ));
}

/// `s[lo..hi]` without its trailing run of `cls`.
pub proof fn lemma_strip_end_range(s: Seq<char>, lo: int, hi: int, cls: CharClass)
    requires
        0 <= lo <= hi <= s.len(),
    ensures
        lo <= hi - trailing(s.subrange(lo, hi), cls),
        strip_end(s.subrange(lo, hi), cls) == s.subrange(
            lo,
            hi - trailing(s.subrange(lo, hi), cls),
        ),
{
    lemma_trailing(s.subrange(lo, hi), cls);
    assert(strip_end(s.subrange(lo, hi), cls) =~= s.subrange(
        lo,
        hi - trailing(s.subrange(lo, hi), cls),
    ));
}

/// The first position in `s[lo..hi]` that is not in `cls`, counted in `s`.
pub fn skip_class(s: &Vec<char>, lo: usize, hi: usize, cls: CharClass) -> (r: usize)
    requires
        lo <= hi <= s.len(),
    ensures
        r == lo + leading(s@.subrange(lo as int, hi as int), cls),
        lo <= r <= hi,
{
    let mut i = lo;
    while i < hi && class_contains(cls, s[i])
        invariant
            lo <= i <= hi <= s.len(),
            forall|j: int| lo <= j < i ==> in_class(cls, #[trigger] s@[j]),
        decreases hi - i,
    {
        i += 1;
    }
    let ghost sub = s@.subrange(lo as int, hi as int);
    proof {
        assert forall|j: int| 0 <= j < i - lo implies in_class(cls, #[trigger] sub[j]) by {
            assert(sub[j] == s@[lo + j]);
        }
        if i < hi {
            assert(sub[i - lo] == s@[i as int]);
        }
        lemma_leading_unique(sub, cls, i - lo);
    }
    i
}

/// One past the last position in `s[lo..hi]` that is not in `cls`, counted in `s`.
pub fn back_class(s: &Vec<char>, lo: usize, hi: usize, cls: CharClass) -> (r: usize)
    requires
        lo <= hi <= s.len(),
    ensures
        r == hi - trailing(s@.subrange(lo as int, hi as int), cls),
        lo <= r <= hi,
{
    let mut i = hi;
    while i > lo && class_contains(cls, s[i - 1])
        invariant
            lo <= i <= hi <= s.len(),
            forall|j: int| i <= j < hi ==> in_class(cls, #[trigger] s@[j]),
        decreases i - lo,
    {
        i -= 1;
    }
    let ghost sub = s@.subrange(lo as int, hi as int);
    proof {
        let n = (hi - i) as int;
        assert forall|j: int| sub.len() - n <= j < sub.len() implies in_class(
            cls,
            #[trigger] sub[j],
        ) by {
            assert(sub[j] == s@[lo + j]);
        }
        if n < sub.len() {
            assert(sub[sub.len() - n - 1] == s@[i - 1]);
        }
        lemma_trailing_unique(sub, cls, n);
    }
    i
}

/// Where `c` first occurs in `s[lo..hi]`, counted in `s`.
pub fn find_char(s: &Vec<char>, lo: usize, hi: usize, c: char) -> (r: Option<usize>)
    requires
        lo <= hi <= s.len(),
    ensures
        match r {
            Some(i) => lo <= i < hi && i - lo == index_of(s@.subrange(lo as int, hi as int), c),
            None => index_of(s@.subrange(lo as int, hi as int), c) < 0,
        },
{
    let mut i = lo;
    while i < hi
        invariant
            lo <= i <= hi <= s.len(),
            forall|j: int| lo <= j < i ==> #[trigger] s@[j] != c,
        decreases hi - i,
    {
        if s[i] == c {
            let ghost sub = s@.subrange(lo as int, hi as int);
            proof {
                assert forall|j: int| 0 <= j < i - lo implies #[trigger] sub[j] != c by {
                    assert(sub[j] == s@[lo + j]);
                }
                assert(sub[i - lo] == s@[i as int]);
                lemma_index_of_unique(sub, c, i - lo);
            }
            return Some(i);
        }
        i += 1;
    }
    let ghost sub = s@.subrange(lo as int, hi as int);
    proof {
        assert forall|j: int| 0 <= j < sub.len() implies #[trigger] sub[j] != c by {
            assert(sub[j] == s@[lo + j]);
        }
        lemma_index_of_unique(sub, c, -1);
    }
    None
}

/// Whether `pat` occurs in `s` at position `at`.
pub fn matches_at(s: &Vec<char>, pat: &Vec<char>, at: usize) -> (r: bool)
    requires
        at + pat.len() <= s.len(),
    ensures
        r == (s@.subrange(at as int, at + pat.len()) == pat@),
{
    let mut j: usize = 0;
    while j < pat.len()
        invariant
            at + pat.len() <= s.len(),
            j <= pat.len(),
            forall|k: int| 0 <= k < j ==> s@[at + k] == pat@[k],
        decreases pat.len() - j,
    {
        if s[at + j] != pat[j] {
            assert(s@.subrange(at as int, at + pat.len())[j as int] != pat@[j as int]);
            return false;
        }
        j += 1;
    }
    assert(s@.subrange(at as int, at + pat.len()) =~= pat@);
    true
}

/// Where `pat` first occurs in `s`.
pub fn find_str(s: &Vec<char>, pat: &Vec<char>) -> (r: Option<usize>)
    ensures
        match r {
            Some(i) => i == find_from(s@, pat@, 0) && i + pat.len() <= s.len(),
            None => find_from(s@, pat@, 0) == -1,
        },
{
    if pat.len() > s.len() {
        return None;
    }
    let last = s.len() - pat.len();
    let mut i: usize = 0;
    loop
        invariant
            pat.len() <= s.len(),
            last == s.len() - pat.len(),
            i <= last,
            find_from(s@, pat@, 0) == find_from(s@, pat@, i as int),
        decreases last - i,
    {
        if matches_at(s, pat, i) {
            return Some(i);
        }
        if i == last {
            assert(find_from(s@, pat@, i + 1) == -1);
            return None;
        }
        i += 1;
    }
}

/// The characters of `s`, in order.
pub fn chars_of(s: &str) -> (out: Vec<char>)
    ensures
        out@ == s@,
{
    let mut out: Vec<char> = Vec::new();
    for c in it: s.chars()
        invariant
            out@ == it.seq().take(it.index() as int),
            it.seq() == s@,
    {
        out.push(c);
    }
    out
}

/// Appends one character to a string, through `String::push`.
#[verifier::external_body]
pub(crate) fn push_char(s: &mut String, c: char)
    ensures
        final(s)@ == old(s)@.push(c),
{
    s.push(c);
}

/// Appends `chars[lo..hi]` to `s`.
pub fn push_range(s: &mut String, chars: &Vec<char>, lo: usize, hi: usize)
    requires
        lo <= hi <= chars.len(),
    ensures
        final(s)@ == old(s)@ + chars@.subrange(lo as int, hi as int),
{
    let ghost start = s@;
    let mut i = lo;
    while i < hi
        invariant
            lo <= i <= hi <= chars.len(),
            s@ == start + chars@.subrange(lo as int, i as int),
        decreases hi - i,
    {
        push_char(s, chars[i]);
        assert(chars@.subrange(lo as int, i + 1) == chars@.subrange(lo as int, i as int).push(
            chars@[i as int],
        ));
        i += 1;
    }
}

/// A string holding exactly `chars[lo..hi]`.
pub fn string_of_range(chars: &Vec<char>, lo: usize, hi: usize) -> (s: String)
    requires
        lo <= hi <= chars.len(),
    ensures
        s@ == chars@.subrange(lo as int, hi as int),
{
    let mut s = String::new();
    push_range(&mut s, chars, lo, hi);
    s
}

/// Appends the string `t` to `s`.
pub fn push_str(s: &mut String, t: &str)
    ensures
        final(s)@ == old(s)@ + t@,
{
    let v = chars_of(t);
    push_range(s, &v, 0, v.len());
    assert(v@.subrange(0, v@.len() as int) == v@);
}

/// Whether two character sequences are equal.
pub fn chars_eq(a: &Vec<char>, b: &Vec<char>) -> (r: bool)
    ensures
        r == (a@ == b@),
{
    if a.len() != b.len() {
        return false;
    }
    let mut i: usize = 0;
    while i < a.len()
        invariant
            a.len() == b.len(),
            i <= a.len(),
            forall|j: int| 0 <= j < i ==> a@[j] == b@[j],
        decreases a.len() - i,
    {
        if a[i] != b[i] {
            return false;
        }
        i += 1;
    }
    assert(a@ =~= b@);
    true
}

/// Whether a string equals a literal or other string.
pub fn str_eq(a: &str, b: &str) -> (r: bool)
    ensures
        r == (a@ == b@),
{
    chars_eq(&chars_of(a), &chars_of(b))
}

/// A fresh copy of `s`.
pub fn copy_string(s: &str) -> (r: String)
    ensures
        r@ == s@,
{
    let mut r = String::new();
    push_str(&mut r, s);
    r
}


/// The `n`th word of `s` (from 0), as `str::split_whitespace` splits it: the maximal runs of
/// characters that are not whitespace.
pub open spec fn nth_word(s: Seq<char>, n: nat) -> Option<Seq<char>>
    decreases s.len(),
    via nth_word_decreases
{
    let t = strip_start(s, CharClass::Whitespace);
    if t.len() == 0 {
        None
    } else {
        let w = leading(t, CharClass::NotWhitespace) as int;
        if n == 0 {
            Some(t.take(w))
        } else {
            nth_word(t.skip(w), (n - 1) as nat)
        }
    }
}

#[via_fn]
proof fn nth_word_decreases(s: Seq<char>, n: nat) {
    let t = strip_start(s, CharClass::Whitespace);
    lemma_leading(s, CharClass::Whitespace);
    if t.len() > 0 {
        assert(t[0] == s[leading(s, CharClass::Whitespace) as int]);
        lemma_leading(t, CharClass::NotWhitespace);
        assert(leading(t, CharClass::NotWhitespace) >= 1) by {
            reveal_with_fuel(leading, 2);
        }
    }
}

/// The second line of `s`, as `str::lines` gives it, less the line's closing `'\r'` (whitespace,
/// so it changes no word): what follows the first line break, up to the next one. Nothing when
/// no line follows the first.
pub open spec fn second_line(s: Seq<char>) -> Option<Seq<char>> {
    let p = index_of(s, '\n');
    if 0 <= p && p + 1 < s.len() {
        let rest = s.skip(p + 1);
        let q = index_of(rest, '\n');
        Some(
            if q >= 0 {
                rest.take(q)
            } else {
                rest
            },
        )
    } else {
        None
    }
}

/// Where the `n`th word of `s[lo..hi]` lies, counted in `s`.
pub fn nth_word_range(s: &Vec<char>, lo: usize, hi: usize, n: usize) -> (r: Option<(usize, usize)>)
    requires
        lo <= hi <= s.len(),
    ensures
        match r {
            Some((a, b)) => lo <= a <= b <= hi && nth_word(s@.subrange(lo as int, hi as int), n as nat)
                == Some(s@.subrange(a as int, b as int)),
            None => nth_word(s@.subrange(lo as int, hi as int), n as nat) is None,
        },
{
    let mut i = lo;
    let mut k: usize = 0;
    while k <= n
        invariant
            lo <= i <= hi <= s.len(),
            k <= n,
            nth_word(s@.subrange(lo as int, hi as int), n as nat) == nth_word(
                s@.subrange(i as int, hi as int),
                (n - k) as nat,
            ),
        decreases n + 1 - k,
    {
        let a = skip_class(s, i, hi, CharClass::Whitespace);
        proof {
            lemma_strip_start_range(s@, i as int, hi as int, CharClass::Whitespace);
        }
        if a == hi {
            return None;
        }
        let b = skip_class(s, a, hi, CharClass::NotWhitespace);
        proof {
            let t = s@.subrange(a as int, hi as int);
            let w = leading(t, CharClass::NotWhitespace) as int;
            assert(t.take(w) =~= s@.subrange(a as int, b as int));
            assert(t.skip(w) =~= s@.subrange(b as int, hi as int));
        }
        if k == n {
            return Some((a, b));
        }
        i = b;
        k += 1;
    }
    None
}

/// Where the second line of `s` lies, as [`second_line`] has it.
pub fn second_line_range(s: &Vec<char>) -> (r: Option<(usize, usize)>)
    ensures
        match r {
            Some((a, b)) => a <= b <= s.len() && second_line(s@) == Some(s@.subrange(a as int, b as int)),
            None => second_line(s@) is None,
        },
{
    let n = s.len();
    proof {
        assert(s@.subrange(0, n as int) =~= s@);
    }
    match find_char(s, 0, n, '\n') {
        None => None,
        Some(p) => {
            if p + 1 >= n {
                return None;
            }
            let ghost rest = s@.skip(p + 1);
            assert(rest =~= s@.subrange(p + 1, n as int));
            match find_char(s, p + 1, n, '\n') {
                Some(q) => {
                    assert(rest.take(q - (p + 1)) =~= s@.subrange(p + 1, q as int));
                    Some((p + 1, q))
                },
                None => Some((p + 1, n)),
            }
        },
    }
}

} // verus!
