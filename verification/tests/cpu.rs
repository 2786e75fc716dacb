use allium::cpu::{
    current_post_divider, divider_bits, divider_walk, mpll_plan, walk_down_reaches, STOCK_KHZ,
};

#[test]
fn the_stock_clock_uses_the_smallest_divider() {
    let plan = mpll_plan(STOCK_KHZ);
    assert_eq!(plan.post_div, 2);
    // 432 MHz * 2^19 over (1.2 GHz / 16 * 2 / 2)
    assert_eq!(plan.lpf, (432_000_000u64 * 524_288 / 75_000_000) as u32);
}

#[test]
fn slower_clocks_take_larger_dividers() {
    assert_eq!(mpll_plan(800_000).post_div, 2);
    assert_eq!(mpll_plan(799_999).post_div, 4);
    assert_eq!(mpll_plan(400_000).post_div, 4);
    assert_eq!(mpll_plan(200_000).post_div, 8);
    assert_eq!(mpll_plan(100_000).post_div, 16);
}

#[test]
fn the_register_holds_the_divider_less_one() {
    assert_eq!(current_post_divider(0x31), 2);
    assert_eq!(current_post_divider(0xFF), 16);
    assert_eq!(divider_bits(0x3F1, 4), 0xF3);
}

#[test]
fn the_divider_walks_by_powers_of_two() {
    assert_eq!(divider_walk(2, 8), Ok(vec![4, 8]));
    assert_eq!(divider_walk(16, 2), Ok(vec![8, 4, 2]));
    assert_eq!(divider_walk(4, 4), Ok(vec![]));
}

#[test]
fn a_divider_that_cannot_be_reached_gives_up_after_five_steps() {
    assert_eq!(divider_walk(3, 16), Err(vec![6, 12, 24, 48, 96]));
}

#[test]
fn a_walk_down_reaches_only_what_halving_does() {
    assert!(walk_down_reaches(16, 1));
    assert!(walk_down_reaches(8, 4));
    assert!(walk_down_reaches(12, 3));
    assert!(!walk_down_reaches(12, 5));
    assert!(!walk_down_reaches(8, 8));
    assert!(walk_down_reaches(3, 0));
}
