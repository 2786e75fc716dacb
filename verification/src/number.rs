//! Decimal numbers in text: what `str::parse` accepts for an unsigned integer, with or without
//! surrounding whitespace, and the decimal rendering of one.
use vstd::prelude::*;

use crate::text::{
    back_class, chars_of, lemma_strip_end_range, lemma_strip_start_range, push_char, skip_class, trim,
    CharClass,
};

verus! {

pub open spec fn is_digit(c: char) -> bool {
    '0' <= c && c <= '9'
}

pub open spec fn digit_value(c: char) -> nat {
    ((c as u32) - 48) as nat
}

/// The number a run of decimal digits spells.
pub open spec fn digits_value(d: Seq<char>) -> nat
    decreases d.len(),
{
    if d.len() == 0 {
        0
    } else {
        digits_value(d.drop_last()) * 10 + digit_value(d.last())
    }
}

pub open spec fn all_digits(d: Seq<char>) -> bool {
    forall|i: int| 0 <= i < d.len() ==> is_digit(#[trigger] d[i])
}

/// What `str::parse` gives for an unsigned integer type whose largest value is `max`: an optional
/// `+`, then at least one ASCII digit and nothing else, for a number no larger than `max`.
pub open spec fn parse_unsigned_spec(s: Seq<char>, max: nat) -> Option<nat> {
    let d = if s.len() > 0 && s[0] == '+' {
        s.drop_first()
    } else {
        s
    };
    if d.len() > 0 && all_digits(d) && digits_value(d) <= max {
        Some(digits_value(d))
    } else {
        None
    }
}

proof fn lemma_digits_grow(d: Seq<char>, c: char)
    requires
        is_digit(c),
    ensures
        digits_value(d.push(c)) == digits_value(d) * 10 + digit_value(c),
        digits_value(d.push(c)) >= digits_value(d),
{
    assert(d.push(c).drop_last() =~= d);
}

fn digit_of(c: char) -> (r: Option<u64>)
    ensures
        match r {
            Some(v) => is_digit(c) && v == digit_value(c) && v <= 9,
            None => !is_digit(c),
        },
{
    if '0' <= c && c <= '9' {
        Some((c as u32 - 48) as u64)
    } else {
        None
    }
}

/// Parses `s[lo..hi]` as `str::parse` would for an unsigned type whose largest value is `max`.
pub fn parse_unsigned(s: &Vec<char>, lo: usize, hi: usize, max: u64) -> (r: Option<u64>)
    requires
        lo <= hi <= s.len(),
        max <= u32::MAX,
    ensures
        match r {
            Some(v) => parse_unsigned_spec(s@.subrange(lo as int, hi as int), max as nat) == Some(v as nat),
            None => parse_unsigned_spec(s@.subrange(lo as int, hi as int), max as nat) is None,
        },
{
    let ghost sub = s@.subrange(lo as int, hi as int);
    let start = if lo < hi && s[lo] == '+' {
        lo + 1
    } else {
        lo
    };
    let ghost d = s@.subrange(start as int, hi as int);
    assert(d =~= (if sub.len() > 0 && sub[0] == '+' {
        sub.drop_first()
    } else {
        sub
    }));
    if start == hi {
        return None;
    }
    let mut acc: u64 = 0;
    let mut over = false;
    let mut i = start;
    while i < hi
        invariant
            start <= i <= hi <= s.len(),
            max <= u32::MAX,
            d == s@.subrange(start as int, hi as int),
            sub == s@.subrange(lo as int, hi as int),
            d == (if sub.len() > 0 && sub[0] == '+' {
                sub.drop_first()
            } else {
                sub
            }),
            forall|j: int| start <= j < i ==> is_digit(#[trigger] s@[j]),
            !over ==> acc == digits_value(s@.subrange(start as int, i as int)) && acc <= max,
            over ==> digits_value(s@.subrange(start as int, i as int)) > max,
        decreases hi - i,
    {
        let ghost before = s@.subrange(start as int, i as int);
        assert(s@.subrange(start as int, i + 1) =~= before.push(s@[i as int]));
        match digit_of(s[i]) {
            None => {
                assert(!all_digits(d)) by {
                    assert(d[i - start] == s@[i as int]);
                }
                return None;
            },
            Some(v) => {
                proof {
                    lemma_digits_grow(before, s@[i as int]);
                }
                if !over {
                    acc = acc * 10 + v;
                    if acc > max {
                        over = true;
                    }
                }
            },
        }
        i += 1;
    }
    assert(s@.subrange(start as int, i as int) == d);
    assert(all_digits(d)) by {
        assert forall|j: int| 0 <= j < d.len() implies is_digit(#[trigger] d[j]) by {
            assert(d[j] == s@[start + j]);
        }
    }
    if over {
        None
    } else {
        Some(acc)
    }
}

/// What `text.trim().parse::<u32>()` gives: the number the text spells with surrounding
/// whitespace ignored, or nothing when it spells none that fits.
pub fn parse_trimmed_u32(text: &str) -> (r: Option<u32>)
    ensures
        match r {
            Some(v) => parse_unsigned_spec(trim(text@), u32::MAX as nat) == Some(v as nat),
            None => parse_unsigned_spec(trim(text@), u32::MAX as nat) is None,
        },
{
    let s = chars_of(text);
    let n = s.len();
    let a = skip_class(&s, 0, n, CharClass::Whitespace);
    let b = back_class(&s, a, n, CharClass::Whitespace);
    proof {
        assert(s@.subrange(0, n as int) =~= s@);
        lemma_strip_start_range(s@, 0, n as int, CharClass::Whitespace);
        lemma_strip_end_range(s@, a as int, n as int, CharClass::Whitespace);
    }
    match parse_unsigned(&s, a, b, u32::MAX as u64) {
        Some(v) => Some(v as u32),
        None => None,
    }
}

/// The decimal digits of `n`, most significant first, with no leading zero.
pub open spec fn decimal(n: nat) -> Seq<char>
    decreases n,
{
    if n < 10 {
        seq![((n + 48) as u32) as char]
    } else {
        decimal(n / 10).push((((n % 10) + 48) as u32) as char)
    }
}

/// `decimal(n)` is the text `n.to_string()` gives: ASCII digits with no leading zero, spelling `n`,
/// so that `str::parse` reads it back as `n`.
pub proof fn lemma_decimal_spells(n: nat)
    ensures
        decimal(n).len() > 0,
        all_digits(decimal(n)),
        digits_value(decimal(n)) == n,
        decimal(n)[0] == '0' ==> n == 0,
        parse_unsigned_spec(decimal(n), n) == Some(n),
    decreases n,
{
    if n < 10 {
        let c = ((n + 48) as u32) as char;
        assert(decimal(n) == seq![c]);
        assert(c as u32 == n + 48);
        assert(seq![c].drop_last() =~= Seq::<char>::empty());
        assert(digits_value(seq![c]) == digits_value(Seq::<char>::empty()) * 10 + digit_value(c));
    } else {
        lemma_decimal_spells(n / 10);
        let c = (((n % 10) + 48) as u32) as char;
        let d = decimal(n / 10);
        assert(decimal(n) == d.push(c));
        assert(c as u32 == (n % 10) + 48);
        assert(is_digit(c));
        lemma_digits_grow(d, c);
        assert(d.push(c)[0] == d[0]);
        assert forall|i: int| 0 <= i < d.push(c).len() implies is_digit(#[trigger] d.push(c)[i]) by {
            if i < d.len() {
                assert(d.push(c)[i] == d[i]);
            }
        }
    }
    let t = decimal(n);
    assert(t[0] != '+') by {
        assert(is_digit(t[0]));
    }
}

/// Appends the decimal digits of `n` to `s`.
pub fn push_decimal(s: &mut String, n: u64)
    ensures
        final(s)@ == old(s)@ + decimal(n as nat),
    decreases n,
{
    if n < 10 {
        let c = char_of_digit(n);
        push_char(s, c);
        assert(old(s)@.push(c) =~= old(s)@ + decimal(n as nat));
    } else {
        push_decimal(s, n / 10);
        let c = char_of_digit(n % 10);
        push_char(s, c);
        assert(final(s)@ =~= old(s)@ + decimal(n as nat)) by {
            assert(decimal(n as nat) == decimal((n / 10) as nat).push(c));
        }
    }
}

fn char_of_digit(d: u64) -> (c: char)
    requires
        d < 10,
    ensures
        c == ((d + 48) as u32) as char,
{
    match d {
        0 => '0',
        1 => '1',
        2 => '2',
        3 => '3',
        4 => '4',
        5 => '5',
        6 => '6',
        7 => '7',
        8 => '8',
        _ => '9',
    }
}


/// What `str::parse::<i32>` gives: an optional sign, then at least one ASCII digit and nothing
/// else, for a number in `i32`'s range.
pub open spec fn parse_i32_spec(s: Seq<char>) -> Option<int> {
    if s.len() > 0 && s[0] == '-' {
        let d = s.drop_first();
        if d.len() > 0 && all_digits(d) && digits_value(d) <= 0x8000_0000 {
            Some(-digits_value(d))
        } else {
            None
        }
    } else {
        match parse_unsigned_spec(s, i32::MAX as nat) {
            Some(v) => Some(v as int),
            None => None,
        }
    }
}

/// Parses `s[lo..hi]` as `str::parse::<i32>` would.
pub fn parse_i32(s: &Vec<char>, lo: usize, hi: usize) -> (r: Option<i32>)
    requires
        lo <= hi <= s.len(),
    ensures
        match r {
            Some(v) => parse_i32_spec(s@.subrange(lo as int, hi as int)) == Some(v as int),
            None => parse_i32_spec(s@.subrange(lo as int, hi as int)) is None,
        },
{
    let ghost sub = s@.subrange(lo as int, hi as int);
    if lo < hi && s[lo] == '-' {
        let ghost d = s@.subrange(lo + 1, hi as int);
        assert(sub.drop_first() =~= d);
        if lo + 1 == hi {
            return None;
        }
        if s[lo + 1] == '+' {
            assert(!all_digits(d)) by {
                assert(d[0] == '+');
            }
            return None;
        }
        assert(parse_unsigned_spec(d, 0x8000_0000) == if d.len() > 0 && all_digits(d) && digits_value(d)
            <= 0x8000_0000 {
            Some(digits_value(d))
        } else {
            None::<nat>
        });
        match parse_unsigned(s, lo + 1, hi, 0x8000_0000) {
            Some(v) => {
                if v == 0x8000_0000 {
                    Some(i32::MIN)
                } else {
                    Some(-(v as i32))
                }
            },
            None => None,
        }
    } else {
        match parse_unsigned(s, lo, hi, 0x7fff_ffff) {
            Some(v) => Some(v as i32),
            None => None,
        }
    }
}

} // verus!
