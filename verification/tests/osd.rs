use allium::menu::Rect;
use allium::osd::{
    draw_text, glyph_index, text_band, Font, Osd, Refresh, ShowPlan, Tick, FALLBACK_INDEX,
    FIRST_CHAR, HIDE_TIMEOUT_MS, SHADOW,
};

const WIDTH: u32 = 640;
const HEIGHT: u32 = 480;
/// What the launcher's button hints reserve with the default theme
const INSET: u32 = 44;

fn bottom(r: Rect) -> i32 {
    r.y + r.h as i32
}

#[test]
fn band_sits_above_whatever_the_app_reserves() {
    let flush = text_band(WIDTH, HEIGHT, 0);
    assert_eq!((flush.x, flush.y, flush.w, flush.h), (12, 450, 616, 26));
    let band = text_band(WIDTH, HEIGHT, INSET);
    assert_eq!((band.x, band.y, band.w, band.h), (12, 406, 616, 26));
    assert!(
        bottom(band) <= (HEIGHT - INSET) as i32,
        "the line would land on the button hints"
    );
}

/// A font of two glyphs: a full block for ' ' and a single dot for '!', the fallback.
fn font() -> Font {
    Font {
        first: ' ',
        glyphs: vec![[0xFC; 12], {
            let mut g = [0u8; 12];
            g[0] = 0x80;
            g
        }],
        fallback: 1,
    }
}

fn inside(band: Rect, x: u32, y: u32) -> bool {
    (band.x..band.x + band.w as i32).contains(&(x as i32))
        && (band.y..band.y + band.h as i32).contains(&(y as i32))
}

#[test]
fn ink_stays_inside_the_band() {
    let band = text_band(WIDTH, HEIGHT, INSET);
    let mut pixels = vec![7u32; (WIDTH * HEIGHT) as usize];
    draw_text(&mut pixels, WIDTH, HEIGHT, band, &font(), &" ".repeat(200), 1, 2);
    let mut whites = 0;
    for y in 0..HEIGHT {
        for x in 0..WIDTH {
            let p = pixels[(y * WIDTH + x) as usize];
            if !inside(band, x, y) {
                assert_eq!(p, 7, "({x}, {y}) outside the band was written");
            } else if p == 1 {
                whites += 1;
            }
        }
    }
    assert!(whites > 0, "nothing drawn");
}

#[test]
fn shadows_sit_under_and_right_of_the_ink() {
    let band = Rect { x: 0, y: 0, w: 40, h: 26 };
    let mut pixels = vec![0u32; 40 * 30];
    draw_text(&mut pixels, 40, 30, band, &font(), "!", 1, 2);
    assert_eq!(pixels[0], 1);
    assert_eq!(pixels[1], 1);
    assert_eq!(pixels[40], 1);
    assert_eq!(pixels[(2 * 40 + 2) as usize], 2);
    assert_eq!(pixels[(SHADOW * 40 + SHADOW + 1) as usize], 2);
}

#[test]
fn a_dot_is_four_white_pixels_over_four_black() {
    let band = Rect { x: 0, y: 0, w: 40, h: 26 };
    let mut pixels = vec![0u32; 40 * 30];
    draw_text(&mut pixels, 40, 30, band, &font(), "!", 1, 2);
    let whites: Vec<usize> = (0..pixels.len()).filter(|i| pixels[*i] == 1).collect();
    let blacks: Vec<usize> = (0..pixels.len()).filter(|i| pixels[*i] == 2).collect();
    assert_eq!(whites, vec![0, 1, 40, 41]);
    assert_eq!(blacks, vec![82, 83, 122, 123]);
}

#[test]
fn unknown_characters_draw_the_fallback_glyph() {
    assert_eq!(glyph_index('\u{263e}', ' ', 2, 1), 1);
    assert_eq!(glyph_index(' ', ' ', 2, 1), 0);
    assert_eq!(glyph_index('\u{1}', ' ', 2, 1), 1);
    let band = Rect { x: 0, y: 0, w: 40, h: 26 };
    let mut a = vec![0u32; 40 * 30];
    let mut b = vec![0u32; 40 * 30];
    draw_text(&mut a, 40, 30, band, &font(), "\u{263e}", 1, 2);
    draw_text(&mut b, 40, 30, band, &font(), "!", 1, 2);
    assert_eq!(a, b);
}

#[test]
fn a_printable_ascii_font_falls_back_to_the_question_mark() {
    let mut glyphs = vec![[0u8; 12]; 95];
    glyphs[(b'?' - b' ') as usize] = [0x30; 12];
    let f = Font::printable_ascii(glyphs);
    assert_eq!((f.first, f.fallback), (FIRST_CHAR, FALLBACK_INDEX));
    assert_eq!(glyph_index('\u{263e}', f.first, f.glyphs.len(), f.fallback), 31);
    assert_eq!(glyph_index('A', f.first, f.glyphs.len(), f.fallback), 33);
    let band = Rect { x: 0, y: 0, w: 80, h: 26 };
    let mut a = vec![0u32; 80 * 30];
    let mut b = vec![0u32; 80 * 30];
    draw_text(&mut a, 80, 30, band, &f, "A \u{263e}", 1, 2);
    draw_text(&mut b, 80, 30, band, &f, "A ?", 1, 2);
    assert_eq!(a, b);
    assert!(a.iter().any(|&p| p == 1));
}

#[test]
fn a_display_too_small_for_the_band_draws_nothing() {
    let mut pixels = vec![5u32; 20 * 10];
    draw_text(&mut pixels, 20, 10, text_band(20, 10, INSET), &font(), "x", 1, 2);
    assert!(pixels.iter().all(|p| *p == 5));
}

#[test]
fn the_line_is_reused_only_while_its_refresh_suits() {
    let mut osd = Osd::new(INSET);
    assert_eq!(osd.next_wake(), None);
    assert_eq!(osd.plan_show(false), ShowPlan::Rebuild);
    osd.rebuilt(1000, false);
    assert_eq!(osd.next_wake(), Some(1016));
    assert_eq!(osd.plan_show(false), ShowPlan::Reuse { flush: true });
    assert_eq!(osd.plan_show(true), ShowPlan::Rebuild);
    osd.reused(2000, true);
    assert_eq!(osd.shown.unwrap().hide_at, 2000 + HIDE_TIMEOUT_MS);
    assert_eq!(osd.tick(2010), Tick::Flush);
    assert_eq!(osd.tick(5000), Tick::Hide);
    assert_eq!(osd.take_down(), Some(Refresh::Periodic { next_redraw: 2026 }));
    assert_eq!(osd.tick(6000), Tick::Nothing);
}

#[test]
fn a_stamped_line_only_wakes_to_go() {
    let mut osd = Osd::new(0);
    osd.rebuilt(0, true);
    assert_eq!(osd.next_wake(), Some(HIDE_TIMEOUT_MS));
    assert_eq!(osd.plan_show(true), ShowPlan::Reuse { flush: false });
    assert_eq!(osd.tick(10), Tick::Nothing);
    osd.reused(20, false);
    assert_eq!(osd.next_wake(), Some(HIDE_TIMEOUT_MS), "an unrefreshed hold keeps its time");
}
