//! Turning the brightness slider into a backlight duty cycle, and back.
//!
//! Duty maps to emitted light roughly linearly, but what the eye reads as one step is a ratio.
//! The slider's steps are therefore spaced by ratio: position `b` of `0..=100` gives the duty
//! nearest `100^(b/100)`, so 0 gives 1, 50 gives 10 and 100 gives 100, and every press is the
//! same multiple of the last.
use vstd::prelude::*;


verus! {

/// The top of the slider's own scale.
pub const SLIDER_MAX: u8 = 100;

/// The duty for each slider position: the whole number nearest `100^(b/100)` for position `b`.
pub open spec fn duty_table() -> Seq<u32> {
    seq![
        1u32, 1, 1, 1, 1, 1, 1, 1, 1, 2, 2, 2, 2, 2, 2, 2, 2, 2, 2, 2, 3, 3, 3, 3, 3, 3, 3, 3, 4,
        4, 4, 4, 4, 5, 5, 5, 5, 5, 6, 6, 6, 7, 7, 7, 8, 8, 8, 9, 9, 10, 10, 10, 11, 11, 12, 13, 13,
        14, 14, 15, 16, 17, 17, 18, 19, 20, 21, 22, 23, 24, 25, 26, 28, 29, 30, 32, 33, 35, 36, 38,
        40, 42, 44, 46, 48, 50, 52, 55, 58, 60, 63, 66, 69, 72, 76, 79, 83, 87, 91, 95, 100,
    ]
}

/// The slider position for each duty from 1 to 100, at index `duty - 1`: the whole number
/// nearest `100 * log_100(duty)`.
pub open spec fn position_table() -> Seq<u8> {
    seq![
        0u8, 15, 24, 30, 35, 39, 42, 45, 48, 50, 52, 54, 56, 57, 59, 60, 62, 63, 64, 65, 66, 67, 68,
        69, 70, 71, 72, 72, 73, 74, 75, 75, 76, 77, 77, 78, 78, 79, 80, 80, 81, 81, 82, 82, 83, 83,
        84, 84, 85, 85, 85, 86, 86, 87, 87, 87, 88, 88, 89, 89, 89, 90, 90, 90, 91, 91, 91, 92, 92,
        92, 93, 93, 93, 93, 94, 94, 94, 95, 95, 95, 95, 96, 96, 96, 96, 97, 97, 97, 97, 98, 98, 98,
        98, 99, 99, 99, 99, 100, 100, 100,
    ]
}

fn duty_table_exec() -> (t: Vec<u32>)
    ensures
        t@ == duty_table(),
{
    let t = vec![
        1u32, 1, 1, 1, 1, 1, 1, 1, 1, 2, 2, 2, 2, 2, 2, 2, 2, 2, 2, 2, 3, 3, 3, 3, 3, 3, 3, 3, 4,
        4, 4, 4, 4, 5, 5, 5, 5, 5, 6, 6, 6, 7, 7, 7, 8, 8, 8, 9, 9, 10, 10, 10, 11, 11, 12, 13, 13,
        14, 14, 15, 16, 17, 17, 18, 19, 20, 21, 22, 23, 24, 25, 26, 28, 29, 30, 32, 33, 35, 36, 38,
        40, 42, 44, 46, 48, 50, 52, 55, 58, 60, 63, 66, 69, 72, 76, 79, 83, 87, 91, 95, 100,
    ];
    assert(t@ =~= duty_table());
    t
}

fn position_table_exec() -> (t: Vec<u8>)
    ensures
        t@ == position_table(),
{
    let t = vec![
        0u8, 15, 24, 30, 35, 39, 42, 45, 48, 50, 52, 54, 56, 57, 59, 60, 62, 63, 64, 65, 66, 67, 68,
        69, 70, 71, 72, 72, 73, 74, 75, 75, 76, 77, 77, 78, 78, 79, 80, 80, 81, 81, 82, 82, 83, 83,
        84, 84, 85, 85, 85, 86, 86, 87, 87, 87, 88, 88, 89, 89, 89, 90, 90, 90, 91, 91, 91, 92, 92,
        92, 93, 93, 93, 93, 94, 94, 94, 95, 95, 95, 95, 96, 96, 96, 96, 97, 97, 97, 97, 98, 98, 98,
        98, 99, 99, 99, 99, 100, 100, 100,
    ];
    assert(t@ =~= position_table());
    t
}

/// The duty for a slider position, positions past the top reading as the top.
pub open spec fn duty_spec(brightness: u8) -> u32 {
    duty_table()[if brightness > SLIDER_MAX {
        SLIDER_MAX as int
    } else {
        brightness as int
    }]
}

/// The slider position for a duty, duties outside `1..=100` reading as the nearer end.
pub open spec fn position_spec(duty: u32) -> u8 {
    position_table()[if duty < 1 {
        0
    } else if duty > 100 {
        99
    } else {
        duty - 1
    }]
}

/// The duty cycle for a slider position: the nearest whole duty to `100^(b/100)` for the
/// position `b` clamped to the slider, so 0 gives 1 (dim but still lit), 50 gives 10 and 100
/// gives 100.
pub fn duty_for(brightness: u8) -> (d: u32)
    ensures
        d == duty_spec(brightness),
{
    let b = if brightness > SLIDER_MAX {
        SLIDER_MAX
    } else {
        brightness
    };
    let t = duty_table_exec();
    t[b as usize]
}

/// The slider position `duty_for` turns into `duty`: the position nearest `100 * log_100(c)`
/// for the duty `c` clamped to `1..=100`. Reading the panel back is how brightness survives
/// suspend, so the two have to agree.
pub fn brightness_for(duty: u32) -> (b: u8)
    ensures
        b == position_spec(duty),
{
    let c = if duty < 1 {
        1
    } else if duty > 100 {
        100
    } else {
        duty
    };
    let t = position_table_exec();
    t[(c - 1) as usize]
}

/// A brighter slider position never gives a dimmer duty.
pub proof fn lemma_brighter_is_never_dimmer(a: u8, b: u8)
    requires
        a <= b,
    ensures
        duty_spec(a) <= duty_spec(b),
{
    lemma_steps_never_dim();
    let lo = if a > SLIDER_MAX {
        SLIDER_MAX as int
    } else {
        a as int
    };
    let hi = if b > SLIDER_MAX {
        SLIDER_MAX as int
    } else {
        b as int
    };
    lemma_table_monotone(lo, hi);
}

proof fn lemma_steps_never_dim()
    ensures
        forall|i: int| 0 <= i < 100 ==> duty_table()[i] <= #[trigger] duty_table()[i + 1],
{
    let t = duty_table();
    assert forall|i: int| 0 <= i < 100 implies t[i] <= #[trigger] t[i + 1] by {
        if i == 0 {
            assert(t[0] == 1 && t[1] == 1);
        } else if i == 1 {
            assert(t[1] == 1 && t[2] == 1);
        } else if i == 2 {
            assert(t[2] == 1 && t[3] == 1);
        } else if i == 3 {
            assert(t[3] == 1 && t[4] == 1);
        } else if i == 4 {
            assert(t[4] == 1 && t[5] == 1);
        } else if i == 5 {
            assert(t[5] == 1 && t[6] == 1);
        } else if i == 6 {
            assert(t[6] == 1 && t[7] == 1);
        } else if i == 7 {
            assert(t[7] == 1 && t[8] == 1);
        } else if i == 8 {
            assert(t[8] == 1 && t[9] == 2);
        } else if i == 9 {
            assert(t[9] == 2 && t[10] == 2);
        } else if i == 10 {
            assert(t[10] == 2 && t[11] == 2);
        } else if i == 11 {
            assert(t[11] == 2 && t[12] == 2);
        } else if i == 12 {
            assert(t[12] == 2 && t[13] == 2);
        } else if i == 13 {
            assert(t[13] == 2 && t[14] == 2);
        } else if i == 14 {
            assert(t[14] == 2 && t[15] == 2);
        } else if i == 15 {
            assert(t[15] == 2 && t[16] == 2);
        } else if i == 16 {
            assert(t[16] == 2 && t[17] == 2);
        } else if i == 17 {
            assert(t[17] == 2 && t[18] == 2);
        } else if i == 18 {
            assert(t[18] == 2 && t[19] == 2);
        } else if i == 19 {
            assert(t[19] == 2 && t[20] == 3);
        } else if i == 20 {
            assert(t[20] == 3 && t[21] == 3);
        } else if i == 21 {
            assert(t[21] == 3 && t[22] == 3);
        } else if i == 22 {
            assert(t[22] == 3 && t[23] == 3);
        } else if i == 23 {
            assert(t[23] == 3 && t[24] == 3);
        } else if i == 24 {
            assert(t[24] == 3 && t[25] == 3);
        } else if i == 25 {
            assert(t[25] == 3 && t[26] == 3);
        } else if i == 26 {
            assert(t[26] == 3 && t[27] == 3);
        } else if i == 27 {
            assert(t[27] == 3 && t[28] == 4);
        } else if i == 28 {
            assert(t[28] == 4 && t[29] == 4);
        } else if i == 29 {
            assert(t[29] == 4 && t[30] == 4);
        } else if i == 30 {
            assert(t[30] == 4 && t[31] == 4);
        } else if i == 31 {
            assert(t[31] == 4 && t[32] == 4);
        } else if i == 32 {
            assert(t[32] == 4 && t[33] == 5);
        } else if i == 33 {
            assert(t[33] == 5 && t[34] == 5);
        } else if i == 34 {
            assert(t[34] == 5 && t[35] == 5);
        } else if i == 35 {
            assert(t[35] == 5 && t[36] == 5);
        } else if i == 36 {
            assert(t[36] == 5 && t[37] == 5);
        } else if i == 37 {
            assert(t[37] == 5 && t[38] == 6);
        } else if i == 38 {
            assert(t[38] == 6 && t[39] == 6);
        } else if i == 39 {
            assert(t[39] == 6 && t[40] == 6);
        } else if i == 40 {
            assert(t[40] == 6 && t[41] == 7);
        } else if i == 41 {
            assert(t[41] == 7 && t[42] == 7);
        } else if i == 42 {
            assert(t[42] == 7 && t[43] == 7);
        } else if i == 43 {
            assert(t[43] == 7 && t[44] == 8);
        } else if i == 44 {
            assert(t[44] == 8 && t[45] == 8);
        } else if i == 45 {
            assert(t[45] == 8 && t[46] == 8);
        } else if i == 46 {
            assert(t[46] == 8 && t[47] == 9);
        } else if i == 47 {
            assert(t[47] == 9 && t[48] == 9);
        } else if i == 48 {
            assert(t[48] == 9 && t[49] == 10);
        } else if i == 49 {
            assert(t[49] == 10 && t[50] == 10);
        } else if i == 50 {
            assert(t[50] == 10 && t[51] == 10);
        } else if i == 51 {
            assert(t[51] == 10 && t[52] == 11);
        } else if i == 52 {
            assert(t[52] == 11 && t[53] == 11);
        } else if i == 53 {
            assert(t[53] == 11 && t[54] == 12);
        } else if i == 54 {
            assert(t[54] == 12 && t[55] == 13);
        } else if i == 55 {
            assert(t[55] == 13 && t[56] == 13);
        } else if i == 56 {
            assert(t[56] == 13 && t[57] == 14);
        } else if i == 57 {
            assert(t[57] == 14 && t[58] == 14);
        } else if i == 58 {
            assert(t[58] == 14 && t[59] == 15);
        } else if i == 59 {
            assert(t[59] == 15 && t[60] == 16);
        } else if i == 60 {
            assert(t[60] == 16 && t[61] == 17);
        } else if i == 61 {
            assert(t[61] == 17 && t[62] == 17);
        } else if i == 62 {
            assert(t[62] == 17 && t[63] == 18);
        } else if i == 63 {
            assert(t[63] == 18 && t[64] == 19);
        } else if i == 64 {
            assert(t[64] == 19 && t[65] == 20);
        } else if i == 65 {
            assert(t[65] == 20 && t[66] == 21);
        } else if i == 66 {
            assert(t[66] == 21 && t[67] == 22);
        } else if i == 67 {
            assert(t[67] == 22 && t[68] == 23);
        } else if i == 68 {
            assert(t[68] == 23 && t[69] == 24);
        } else if i == 69 {
            assert(t[69] == 24 && t[70] == 25);
        } else if i == 70 {
            assert(t[70] == 25 && t[71] == 26);
        } else if i == 71 {
            assert(t[71] == 26 && t[72] == 28);
        } else if i == 72 {
            assert(t[72] == 28 && t[73] == 29);
        } else if i == 73 {
            assert(t[73] == 29 && t[74] == 30);
        } else if i == 74 {
            assert(t[74] == 30 && t[75] == 32);
        } else if i == 75 {
            assert(t[75] == 32 && t[76] == 33);
        } else if i == 76 {
            assert(t[76] == 33 && t[77] == 35);
        } else if i == 77 {
            assert(t[77] == 35 && t[78] == 36);
        } else if i == 78 {
            assert(t[78] == 36 && t[79] == 38);
        } else if i == 79 {
            assert(t[79] == 38 && t[80] == 40);
        } else if i == 80 {
            assert(t[80] == 40 && t[81] == 42);
        } else if i == 81 {
            assert(t[81] == 42 && t[82] == 44);
        } else if i == 82 {
            assert(t[82] == 44 && t[83] == 46);
        } else if i == 83 {
            assert(t[83] == 46 && t[84] == 48);
        } else if i == 84 {
            assert(t[84] == 48 && t[85] == 50);
        } else if i == 85 {
            assert(t[85] == 50 && t[86] == 52);
        } else if i == 86 {
            assert(t[86] == 52 && t[87] == 55);
        } else if i == 87 {
            assert(t[87] == 55 && t[88] == 58);
        } else if i == 88 {
            assert(t[88] == 58 && t[89] == 60);
        } else if i == 89 {
            assert(t[89] == 60 && t[90] == 63);
        } else if i == 90 {
            assert(t[90] == 63 && t[91] == 66);
        } else if i == 91 {
            assert(t[91] == 66 && t[92] == 69);
        } else if i == 92 {
            assert(t[92] == 69 && t[93] == 72);
        } else if i == 93 {
            assert(t[93] == 72 && t[94] == 76);
        } else if i == 94 {
            assert(t[94] == 76 && t[95] == 79);
        } else if i == 95 {
            assert(t[95] == 79 && t[96] == 83);
        } else if i == 96 {
            assert(t[96] == 83 && t[97] == 87);
        } else if i == 97 {
            assert(t[97] == 87 && t[98] == 91);
        } else if i == 98 {
            assert(t[98] == 91 && t[99] == 95);
        } else if i == 99 {
            assert(t[99] == 95 && t[100] == 100);
        }
    }
}

proof fn lemma_table_monotone(lo: int, hi: int)
    requires
        0 <= lo <= hi <= 100,
        forall|i: int| 0 <= i < 100 ==> duty_table()[i] <= #[trigger] duty_table()[i + 1],
    ensures
        duty_table()[lo] <= duty_table()[hi],
    decreases hi - lo,
{
    if lo < hi {
        lemma_table_monotone(lo, hi - 1);
        assert(duty_table()[hi - 1] <= duty_table()[hi - 1 + 1]);
    }
}

/// Reading a duty back and setting it again changes nothing: the position `brightness_for` gives
/// for the duty of any position has that same duty, so suspend and resume never drift.
pub proof fn lemma_duty_round_trips(brightness: u8)
    ensures
        duty_spec(position_spec(duty_spec(brightness))) == duty_spec(brightness),
{
    let b = if brightness > SLIDER_MAX {
        SLIDER_MAX as int
    } else {
        brightness as int
    };
    let d = duty_table();
    let p = position_table();
    if b == 0 {
        assert(d[0] == 1 && p[0] == 0 && d[0] == 1);
    } else if b == 1 {
        assert(d[1] == 1 && p[0] == 0 && d[0] == 1);
    } else if b == 2 {
        assert(d[2] == 1 && p[0] == 0 && d[0] == 1);
    } else if b == 3 {
        assert(d[3] == 1 && p[0] == 0 && d[0] == 1);
    } else if b == 4 {
        assert(d[4] == 1 && p[0] == 0 && d[0] == 1);
    } else if b == 5 {
        assert(d[5] == 1 && p[0] == 0 && d[0] == 1);
    } else if b == 6 {
        assert(d[6] == 1 && p[0] == 0 && d[0] == 1);
    } else if b == 7 {
        assert(d[7] == 1 && p[0] == 0 && d[0] == 1);
    } else if b == 8 {
        assert(d[8] == 1 && p[0] == 0 && d[0] == 1);
    } else if b == 9 {
        assert(d[9] == 2 && p[1] == 15 && d[15] == 2);
    } else if b == 10 {
        assert(d[10] == 2 && p[1] == 15 && d[15] == 2);
    } else if b == 11 {
        assert(d[11] == 2 && p[1] == 15 && d[15] == 2);
    } else if b == 12 {
        assert(d[12] == 2 && p[1] == 15 && d[15] == 2);
    } else if b == 13 {
        assert(d[13] == 2 && p[1] == 15 && d[15] == 2);
    } else if b == 14 {
        assert(d[14] == 2 && p[1] == 15 && d[15] == 2);
    } else if b == 15 {
        assert(d[15] == 2 && p[1] == 15 && d[15] == 2);
    } else if b == 16 {
        assert(d[16] == 2 && p[1] == 15 && d[15] == 2);
    } else if b == 17 {
        assert(d[17] == 2 && p[1] == 15 && d[15] == 2);
    } else if b == 18 {
        assert(d[18] == 2 && p[1] == 15 && d[15] == 2);
    } else if b == 19 {
        assert(d[19] == 2 && p[1] == 15 && d[15] == 2);
    } else if b == 20 {
        assert(d[20] == 3 && p[2] == 24 && d[24] == 3);
    } else if b == 21 {
        assert(d[21] == 3 && p[2] == 24 && d[24] == 3);
    } else if b == 22 {
        assert(d[22] == 3 && p[2] == 24 && d[24] == 3);
    } else if b == 23 {
        assert(d[23] == 3 && p[2] == 24 && d[24] == 3);
    } else if b == 24 {
        assert(d[24] == 3 && p[2] == 24 && d[24] == 3);
    } else if b == 25 {
        assert(d[25] == 3 && p[2] == 24 && d[24] == 3);
    } else if b == 26 {
        assert(d[26] == 3 && p[2] == 24 && d[24] == 3);
    } else if b == 27 {
        assert(d[27] == 3 && p[2] == 24 && d[24] == 3);
    } else if b == 28 {
        assert(d[28] == 4 && p[3] == 30 && d[30] == 4);
    } else if b == 29 {
        assert(d[29] == 4 && p[3] == 30 && d[30] == 4);
    } else if b == 30 {
        assert(d[30] == 4 && p[3] == 30 && d[30] == 4);
    } else if b == 31 {
        assert(d[31] == 4 && p[3] == 30 && d[30] == 4);
    } else if b == 32 {
        assert(d[32] == 4 && p[3] == 30 && d[30] == 4);
    } else if b == 33 {
        assert(d[33] == 5 && p[4] == 35 && d[35] == 5);
    } else if b == 34 {
        assert(d[34] == 5 && p[4] == 35 && d[35] == 5);
    } else if b == 35 {
        assert(d[35] == 5 && p[4] == 35 && d[35] == 5);
    } else if b == 36 {
        assert(d[36] == 5 && p[4] == 35 && d[35] == 5);
    } else if b == 37 {
        assert(d[37] == 5 && p[4] == 35 && d[35] == 5);
    } else if b == 38 {
        assert(d[38] == 6 && p[5] == 39 && d[39] == 6);
    } else if b == 39 {
        assert(d[39] == 6 && p[5] == 39 && d[39] == 6);
    } else if b == 40 {
        assert(d[40] == 6 && p[5] == 39 && d[39] == 6);
    } else if b == 41 {
        assert(d[41] == 7 && p[6] == 42 && d[42] == 7);
    } else if b == 42 {
        assert(d[42] == 7 && p[6] == 42 && d[42] == 7);
    } else if b == 43 {
        assert(d[43] == 7 && p[6] == 42 && d[42] == 7);
    } else if b == 44 {
        assert(d[44] == 8 && p[7] == 45 && d[45] == 8);
    } else if b == 45 {
        assert(d[45] == 8 && p[7] == 45 && d[45] == 8);
    } else if b == 46 {
        assert(d[46] == 8 && p[7] == 45 && d[45] == 8);
    } else if b == 47 {
        assert(d[47] == 9 && p[8] == 48 && d[48] == 9);
    } else if b == 48 {
        assert(d[48] == 9 && p[8] == 48 && d[48] == 9);
    } else if b == 49 {
        assert(d[49] == 10 && p[9] == 50 && d[50] == 10);
    } else if b == 50 {
        assert(d[50] == 10 && p[9] == 50 && d[50] == 10);
    } else if b == 51 {
        assert(d[51] == 10 && p[9] == 50 && d[50] == 10);
    } else if b == 52 {
        assert(d[52] == 11 && p[10] == 52 && d[52] == 11);
    } else if b == 53 {
        assert(d[53] == 11 && p[10] == 52 && d[52] == 11);
    } else if b == 54 {
        assert(d[54] == 12 && p[11] == 54 && d[54] == 12);
    } else if b == 55 {
        assert(d[55] == 13 && p[12] == 56 && d[56] == 13);
    } else if b == 56 {
        assert(d[56] == 13 && p[12] == 56 && d[56] == 13);
    } else if b == 57 {
        assert(d[57] == 14 && p[13] == 57 && d[57] == 14);
    } else if b == 58 {
        assert(d[58] == 14 && p[13] == 57 && d[57] == 14);
    } else if b == 59 {
        assert(d[59] == 15 && p[14] == 59 && d[59] == 15);
    } else if b == 60 {
        assert(d[60] == 16 && p[15] == 60 && d[60] == 16);
    } else if b == 61 {
        assert(d[61] == 17 && p[16] == 62 && d[62] == 17);
    } else if b == 62 {
        assert(d[62] == 17 && p[16] == 62 && d[62] == 17);
    } else if b == 63 {
        assert(d[63] == 18 && p[17] == 63 && d[63] == 18);
    } else if b == 64 {
        assert(d[64] == 19 && p[18] == 64 && d[64] == 19);
    } else if b == 65 {
        assert(d[65] == 20 && p[19] == 65 && d[65] == 20);
    } else if b == 66 {
        assert(d[66] == 21 && p[20] == 66 && d[66] == 21);
    } else if b == 67 {
        assert(d[67] == 22 && p[21] == 67 && d[67] == 22);
    } else if b == 68 {
        assert(d[68] == 23 && p[22] == 68 && d[68] == 23);
    } else if b == 69 {
        assert(d[69] == 24 && p[23] == 69 && d[69] == 24);
    } else if b == 70 {
        assert(d[70] == 25 && p[24] == 70 && d[70] == 25);
    } else if b == 71 {
        assert(d[71] == 26 && p[25] == 71 && d[71] == 26);
    } else if b == 72 {
        assert(d[72] == 28 && p[27] == 72 && d[72] == 28);
    } else if b == 73 {
        assert(d[73] == 29 && p[28] == 73 && d[73] == 29);
    } else if b == 74 {
        assert(d[74] == 30 && p[29] == 74 && d[74] == 30);
    } else if b == 75 {
        assert(d[75] == 32 && p[31] == 75 && d[75] == 32);
    } else if b == 76 {
        assert(d[76] == 33 && p[32] == 76 && d[76] == 33);
    } else if b == 77 {
        assert(d[77] == 35 && p[34] == 77 && d[77] == 35);
    } else if b == 78 {
        assert(d[78] == 36 && p[35] == 78 && d[78] == 36);
    } else if b == 79 {
        assert(d[79] == 38 && p[37] == 79 && d[79] == 38);
    } else if b == 80 {
        assert(d[80] == 40 && p[39] == 80 && d[80] == 40);
    } else if b == 81 {
        assert(d[81] == 42 && p[41] == 81 && d[81] == 42);
    } else if b == 82 {
        assert(d[82] == 44 && p[43] == 82 && d[82] == 44);
    } else if b == 83 {
        assert(d[83] == 46 && p[45] == 83 && d[83] == 46);
    } else if b == 84 {
        assert(d[84] == 48 && p[47] == 84 && d[84] == 48);
    } else if b == 85 {
        assert(d[85] == 50 && p[49] == 85 && d[85] == 50);
    } else if b == 86 {
        assert(d[86] == 52 && p[51] == 86 && d[86] == 52);
    } else if b == 87 {
        assert(d[87] == 55 && p[54] == 87 && d[87] == 55);
    } else if b == 88 {
        assert(d[88] == 58 && p[57] == 88 && d[88] == 58);
    } else if b == 89 {
        assert(d[89] == 60 && p[59] == 89 && d[89] == 60);
    } else if b == 90 {
        assert(d[90] == 63 && p[62] == 90 && d[90] == 63);
    } else if b == 91 {
        assert(d[91] == 66 && p[65] == 91 && d[91] == 66);
    } else if b == 92 {
        assert(d[92] == 69 && p[68] == 92 && d[92] == 69);
    } else if b == 93 {
        assert(d[93] == 72 && p[71] == 93 && d[93] == 72);
    } else if b == 94 {
        assert(d[94] == 76 && p[75] == 94 && d[94] == 76);
    } else if b == 95 {
        assert(d[95] == 79 && p[78] == 95 && d[95] == 79);
    } else if b == 96 {
        assert(d[96] == 83 && p[82] == 96 && d[96] == 83);
    } else if b == 97 {
        assert(d[97] == 87 && p[86] == 97 && d[97] == 87);
    } else if b == 98 {
        assert(d[98] == 91 && p[90] == 98 && d[98] == 91);
    } else if b == 99 {
        assert(d[99] == 95 && p[94] == 99 && d[99] == 95);
    } else if b == 100 {
        assert(d[100] == 100 && p[99] == 100 && d[100] == 100);
    }
}

/// Whether `display blank` blanks the display: unless told `false`, it does, as its name says.
pub fn should_blank(argument: Option<bool>) -> (r: bool)
    ensures
        r == match argument {
            Some(b) => b,
            None => true,
        },
{
    match argument {
        Some(b) => b,
        None => true,
    }
}

} // verus!
