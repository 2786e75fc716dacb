//! The CPU clock: what the MPLL is programmed with for a clock speed, and the walk of its
//! post-divider from one setting to another.
use vstd::prelude::*;

verus! {

/// What the device boots at, and the top of its cpufreq table.
pub const STOCK_KHZ: u32 = 1_200_000;

/// The PLL's source rate, scaled as its loop filter register expects.
pub const LPF_SOURCE: u64 = 432_000_000 * 524_288;

/// The post-divider for a clock: 2 from 800 MHz up, 4 from 400, 8 from 200, else 16.
pub open spec fn post_divider_spec(khz: u32) -> u32 {
    if khz >= 800_000 {
        2
    } else if khz >= 400_000 {
        4
    } else if khz >= 200_000 {
        8
    } else {
        16
    }
}

/// The loop filter value for a clock: the source rate over the clock's rate at the post-divider,
/// computed in 32 bits as `khz * 1000 / 16 * post_div / 2` and kept to its low 32 bits.
pub open spec fn lpf_spec(khz: u32) -> u32 {
    let rate = khz * 1000 / 16 * post_divider_spec(khz) / 2;
    (LPF_SOURCE / (rate as u64)) as u32
}

/// What the MPLL is programmed with for a clock.
#[derive(Clone, Copy, Debug, PartialEq, Eq, Structural)]
pub struct MpllPlan {
    pub post_div: u32,
    pub lpf: u32,
}

/// The MPLL settings for `khz`; see [`post_divider_spec`] and [`lpf_spec`].
pub fn mpll_plan(khz: u32) -> (p: MpllPlan)
    requires
        1 <= khz,
        khz * 1000 <= u32::MAX,
    ensures
        p.post_div == post_divider_spec(khz),
        p.lpf == lpf_spec(khz),
{
    let post_div: u32 = if khz >= 800_000 {
        2
    } else if khz >= 400_000 {
        4
    } else if khz >= 200_000 {
        8
    } else {
        16
    };
    assert(khz * 1000 / 16 * post_div <= khz * 1000) by (nonlinear_arith)
        requires
            post_div <= 16,
    ;
    let rate = khz * 1000 / 16 * post_div / 2;
    assert(rate > 0) by (nonlinear_arith)
        requires
            khz >= 1,
            post_div >= 2,
            rate == khz * 1000 / 16 * post_div / 2,
    ;
    let lpf = (LPF_SOURCE / rate as u64) as u32;
    MpllPlan { post_div, lpf }
}

/// What the plan does to the clock. The post-divider brings the PLL into its band: for clocks
/// from 100 MHz to 1.6 GHz, `khz` times the post-divider lies in 1.6..3.2 GHz. And the loop
/// filter is the source rate divided by the clock's rate at that same post-divider (one
/// sixteenth of the clock in Hz, times the post-divider, halved), rounded down wherever the
/// quotient fits the register.
pub proof fn lemma_mpll_plan_sets_the_clock(khz: u32)
    requires
        1 <= khz,
        khz * 1000 <= u32::MAX,
    ensures
        post_divider_spec(khz) == 2 || post_divider_spec(khz) == 4 || post_divider_spec(khz) == 8
            || post_divider_spec(khz) == 16,
        100_000 <= khz < 1_600_000 ==> 1_600_000 <= khz * post_divider_spec(khz) < 3_200_000,
        ({
            let rate = (khz * 1000 / 16) * post_divider_spec(khz) / 2;
            &&& rate > 0
            &&& LPF_SOURCE as int / rate <= u32::MAX ==> lpf_spec(khz) * rate <= LPF_SOURCE < (lpf_spec(khz)
                + 1) * rate
        }),
{
    let p = post_divider_spec(khz) as int;
    let rate = (khz * 1000 / 16) * p / 2;
    assert(rate > 0) by (nonlinear_arith)
        requires
            khz >= 1,
            p >= 2,
            rate == (khz * 1000 / 16) * p / 2,
    ;
    assert(rate <= khz * 1000) by (nonlinear_arith)
        requires
            p <= 16,
            p >= 2,
            rate == (khz * 1000 / 16) * p / 2,
            khz >= 1,
    ;
    let q = LPF_SOURCE as int / rate;
    if q <= u32::MAX {
        assert(lpf_spec(khz) == q);
        vstd::arithmetic::div_mod::lemma_fundamental_div_mod(LPF_SOURCE as int, rate);
        vstd::arithmetic::div_mod::lemma_mod_bound(LPF_SOURCE as int, rate);
        assert(q * rate <= LPF_SOURCE < (q + 1) * rate) by (nonlinear_arith)
            requires
                LPF_SOURCE == rate * q + LPF_SOURCE as int % rate,
                0 <= LPF_SOURCE as int % rate < rate,
        ;
    }
}

/// The post-divider a register value holds: its low four bits, plus one.
pub fn current_post_divider(register: u16) -> (d: u32)
    ensures
        d == (register & 0x0F) as u32 + 1,
        1 <= d <= 16,
{
    assert(register & 0x0F <= 15) by (bit_vector);
    (register & 0x0F) as u32 + 1
}

/// The register value that sets post-divider `d`, keeping the register's other low-byte bits.
pub fn divider_bits(register: u16, d: u32) -> (r: u16)
    requires
        d >= 1,
    ensures
        r == (register & 0xF0) | ((((d - 1) as u32) & 0x0F) as u16),
{
    (register & 0xF0) | ((d - 1) & 0x0F) as u16
}

/// `cur` doubled `i` times.
pub open spec fn doubled(cur: int, i: nat) -> int
    decreases i,
{
    if i == 0 {
        cur
    } else {
        2 * doubled(cur, (i - 1) as nat)
    }
}

/// `cur` halved, rounding down, `i` times.
pub open spec fn halved(cur: int, i: nat) -> int
    decreases i,
{
    if i == 0 {
        cur
    } else {
        halved(cur, (i - 1) as nat) / 2
    }
}

/// The post-divider after step `i` of a walk from `cur`: doubling on the way up, halving on the
/// way down.
pub open spec fn walk_value(cur: int, up: bool, i: nat) -> int {
    if up {
        doubled(cur, i)
    } else {
        halved(cur, i)
    }
}

/// Whether a walk from `cur` to `target` goes up.
pub open spec fn goes_up(cur: int, target: int) -> bool {
    target > cur
}

/// The walk reaches `target` at step `k`, within the four steps it is allowed.
pub open spec fn reaches_at(cur: int, target: int, up: bool, k: nat) -> bool {
    &&& 1 <= k <= 4
    &&& walk_value(cur, up, k) == target
    &&& forall|j: nat| 1 <= j < k ==> #[trigger] walk_value(cur, up, j) != target
}

pub open spec fn reaches(cur: int, target: int, up: bool) -> bool {
    exists|k: nat| #[trigger] reaches_at(cur, target, up, k)
}

/// The post-divider values a walk writes, one per step.
pub open spec fn walk_values(cur: int, up: bool, n: nat) -> Seq<u32> {
    Seq::new(n, |i: int| walk_value(cur, up, (i + 1) as nat) as u32)
}

proof fn lemma_doubled_bounds(cur: int, i: nat)
    requires
        1 <= cur,
        i <= 4,
    ensures
        cur <= doubled(cur, i) <= cur * 16,
{
    reveal_with_fuel(doubled, 5);
}

/// Whether halving `cur` reaches `target` within the four steps a walk down is allowed: what
/// [`divider_walk`] asks of a walk down before it takes one.
pub fn walk_down_reaches(cur: u32, target: u32) -> (b: bool)
    ensures
        b == reaches(cur as int, target as int, false),
{
    let mut value = cur;
    let mut i: u32 = 0;
    while i < 4
        invariant
            i <= 4,
            value == halved(cur as int, i as nat),
            forall|j: nat| 1 <= j <= i ==> #[trigger] walk_value(cur as int, false, j) != target,
        decreases 4 - i,
    {
        value = value / 2;
        i += 1;
        assert(halved(cur as int, i as nat) == halved(cur as int, (i - 1) as nat) / 2);
        if value == target {
            assert(reaches_at(cur as int, target as int, false, i as nat));
            return true;
        }
    }
    assert forall|k: nat| !#[trigger] reaches_at(cur as int, target as int, false, k) by {
        if 1 <= k <= 4 {
            assert(walk_value(cur as int, false, k) != target);
        }
    }
    false
}

/// Walks the post-divider from `cur` to `target` a power of two at a time, as the clock may only
/// step down on the way to a new rate: up before the new rate is set, down after it. Each step's
/// new value is written as it is taken. The walk gives up after a fifth step; a walk up that has
/// not arrived by then stops with the five values written. A walk down that cannot arrive would
/// reach zero, which has no register value, so it is left out.
pub fn divider_walk(cur: u32, target: u32) -> (r: Result<Vec<u32>, Vec<u32>>)
    requires
        1 <= cur <= 16,
        1 <= target <= 16,
        target < cur ==> reaches(cur as int, target as int, false),
    ensures
        target == cur ==> (r matches Ok(v) && v@.len() == 0),
        target != cur ==> match r {
            Ok(v) => exists|k: nat|
                #[trigger] reaches_at(cur as int, target as int, goes_up(cur as int, target as int), k)
                    && v@ == walk_values(cur as int, goes_up(cur as int, target as int), k),
            Err(v) => target > cur && !reaches(cur as int, target as int, true) && v@
                == walk_values(cur as int, true, 5),
        },
{
    let up = target > cur;
    let mut tmp = cur;
    let mut values: Vec<u32> = Vec::new();
    let mut steps: u32 = 0;
    while tmp != target
        invariant
            1 <= cur <= 16,
            1 <= target <= 16,
            up == (target > cur),
            !up && target != cur ==> reaches(cur as int, target as int, false),
            steps <= 4,
            target == cur ==> steps == 0,
            tmp == walk_value(cur as int, up, steps as nat),
            values@ == walk_values(cur as int, up, steps as nat),
            forall|j: nat| 1 <= j < steps ==> #[trigger] walk_value(cur as int, up, j) != target,
            up ==> tmp <= cur * 16,
        decreases 5 - steps,
    {
        proof {
            if up {
                lemma_doubled_bounds(cur as int, steps as nat);
                if steps < 4 {
                    lemma_doubled_bounds(cur as int, (steps + 1) as nat);
                }
            }
        }
        if up {
            tmp = tmp * 2;
        } else {
            tmp = tmp / 2;
        }
        assert(tmp == walk_value(cur as int, up, (steps + 1) as nat));
        proof {
            if !up {
                let k = choose|k: nat| reaches_at(cur as int, target as int, false, k);
                if tmp == 0 {
                    assert(walk_value(cur as int, false, k) >= 1);
                    assert(false) by {
                        lemma_halved_stays_zero(cur as int, (steps + 1) as nat, k);
                    }
                }
            }
        }
        values.push(tmp);
        assert(values@ =~= walk_values(cur as int, up, (steps + 1) as nat));
        steps = steps + 1;
        if steps > 4 {
            return Err(values);
        }
    }
    if steps == 0 {
        return Ok(values);
    }
    assert(up == goes_up(cur as int, target as int));
    assert(reaches_at(cur as int, target as int, goes_up(cur as int, target as int), steps as nat));
    Ok(values)
}

proof fn lemma_halved_stays_zero(cur: int, i: nat, k: nat)
    requires
        halved(cur, i) == 0,
        i <= k,
        0 <= cur,
    ensures
        halved(cur, k) == 0,
    decreases k - i,
{
    if i < k {
        lemma_halved_stays_zero(cur, i, (k - 1) as nat);
    }
}

} // verus!
