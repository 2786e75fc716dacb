//! The daemon's on-screen indicator: where its line sits, and when it is drawn, refreshed and
//! taken down.
use vstd::prelude::*;

use crate::menu::Rect;
use crate::text::chars_of;

verus! {

/// Font pixels per glyph, across.
pub const GLYPH_WIDTH: u32 = 6;
/// Font pixels per glyph, down.
pub const GLYPH_HEIGHT: u32 = 12;
/// Screen pixels per font pixel.
pub const SCALE: u32 = 2;
/// The drop shadow's offset, right and down, in screen pixels.
pub const SHADOW: u32 = 2;
/// Screen pixels between the left edge and the first glyph: one glyph stride.
pub const LEFT_MARGIN: u32 = 12;
/// Screen pixels between the shadow's last row and the bottom edge.
pub const BOTTOM_MARGIN: u32 = 4;
/// One glyph cell at scale plus the rows the shadow overhangs.
pub const BAND_H: u32 = 26;
/// How long the line stays up after the last change, in milliseconds.
pub const HIDE_TIMEOUT_MS: u64 = 3000;
/// How often the band is flushed again when nothing else repaints it, in milliseconds.
pub const UI_REDRAW_PERIOD_MS: u64 = 16;

/// The strip the line is drawn in: the left margin in, full width less both margins, one glyph
/// cell plus its shadow tall, and above whatever the app underneath keeps at the bottom for
/// itself (`bottom_inset`) by the bottom margin, or at the top of a screen too short for that.
pub open spec fn text_band_spec(width: u32, height: u32, bottom_inset: u32) -> Rect {
    let above = bottom_inset + BOTTOM_MARGIN + BAND_H;
    Rect {
        x: LEFT_MARGIN as i32,
        y: (if height >= above {
            (height - above) as u32
        } else {
            0u32
        }) as i32,
        w: (if width >= 2 * LEFT_MARGIN {
            (width - 2 * LEFT_MARGIN) as u32
        } else {
            0u32
        }),
        h: BAND_H,
    }
}

/// The strip the line is drawn in; see [`text_band_spec`].
pub fn text_band(width: u32, height: u32, bottom_inset: u32) -> (r: Rect)
    requires
        bottom_inset + BOTTOM_MARGIN + BAND_H <= u32::MAX,
    ensures
        r == text_band_spec(width, height, bottom_inset),
{
    Rect {
        x: LEFT_MARGIN as i32,
        y: height.saturating_sub(bottom_inset + BOTTOM_MARGIN + BAND_H) as i32,
        w: width.saturating_sub(2 * LEFT_MARGIN),
        h: BAND_H,
    }
}

/// The band never reaches into what the app keeps at the bottom: on a screen tall enough for
/// it, its bottom edge is the bottom margin above the inset.
pub proof fn lemma_band_clears_the_inset(width: u32, height: u32, bottom_inset: u32)
    requires
        bottom_inset + BOTTOM_MARGIN + BAND_H <= height <= i32::MAX,
    ensures
        text_band_spec(width, height, bottom_inset).y + BAND_H + BOTTOM_MARGIN + bottom_inset == height,
{
}

/// The index of the glyph drawn for `c` in a font of `count` glyphs starting at `first`: its
/// offset from `first`, or the fallback for a character the font lacks.
pub open spec fn glyph_index_spec(c: char, first: char, count: usize, fallback: usize) -> usize {
    if (c as u32) >= (first as u32) && ((c as u32) - (first as u32)) < count {
        ((c as u32) - (first as u32)) as usize
    } else {
        fallback
    }
}

/// The index of the glyph to draw for `c`; see [`glyph_index_spec`].
pub fn glyph_index(c: char, first: char, count: usize, fallback: usize) -> (i: usize)
    ensures
        i == glyph_index_spec(c, first, count, fallback),
{
    let code = c as u32;
    let start = first as u32;
    if code >= start && ((code - start) as usize) < count {
        (code - start) as usize
    } else {
        fallback
    }
}

/// How many whole glyphs, with the shadow of the last, fit across a band `w` wide: each takes
/// `GLYPH_WIDTH * SCALE`, twelve pixels.
pub open spec fn max_glyphs_spec(w: u32) -> u32 {
    (if w >= SHADOW {
        (w - SHADOW) as u32
    } else {
        0u32
    }) / 12u32
}

pub fn max_glyphs(w: u32) -> (n: u32)
    ensures
        n == max_glyphs_spec(w),
        n * 12 + SHADOW <= w || n == 0,
{
    let n = w.saturating_sub(SHADOW) / (GLYPH_WIDTH * SCALE);
    assert(n * 12 <= w.saturating_sub(SHADOW)) by (nonlinear_arith)
        requires
            n == w.saturating_sub(SHADOW) / 12,
    ;
    n
}

/// How the line is kept on screen while it is up.
#[derive(Clone, Copy, Debug, PartialEq, Eq, Structural)]
pub enum Refresh {
    /// Nothing repaints under the line: it is flushed again at this time, and the background is
    /// put back when it goes.
    Periodic { next_redraw: u64 },
    /// The app rewrites the whole frame, so a stamper holds the band.
    Continuous,
}

/// The line while it is up: when it goes, and how it is kept there.
#[derive(Clone, Copy, Debug, PartialEq, Eq, Structural)]
pub struct Shown {
    pub hide_at: u64,
    pub refresh: Refresh,
}

/// How to show a new line.
#[derive(Clone, Copy, Debug, PartialEq, Eq, Structural)]
pub enum ShowPlan {
    /// Draw over the line that is up, flushing it when the refresh is periodic.
    Reuse { flush: bool },
    /// Take down what is up and build a new surface.
    Rebuild,
}

/// What a timer tick calls for.
#[derive(Clone, Copy, Debug, PartialEq, Eq, Structural)]
pub enum Tick {
    Nothing,
    /// The line's time is up.
    Hide,
    /// Flush the band again.
    Flush,
}

/// The one-line indicator's timing: whether it is up, until when, and how it is refreshed.
pub struct Osd {
    pub shown: Option<Shown>,
    pub bottom_inset: u32,
}

impl Osd {
    pub fn new(bottom_inset: u32) -> (o: Osd)
        ensures
            o.shown is None,
            o.bottom_inset == bottom_inset,
    {
        Osd { shown: None, bottom_inset }
    }

    /// When a tick is next due: the earlier of hiding and the next flush for a periodic line,
    /// hiding alone under a stamper, and never while hidden.
    pub fn next_wake(&self) -> (r: Option<u64>)
        ensures
            r == match self.shown {
                None => None,
                Some(s) => match s.refresh {
                    Refresh::Periodic { next_redraw } => Some(
                        if s.hide_at <= next_redraw {
                            s.hide_at
                        } else {
                            next_redraw
                        },
                    ),
                    Refresh::Continuous => Some(s.hide_at),
                },
            },
    {
        match self.shown {
            None => None,
            Some(s) => match s.refresh {
                Refresh::Periodic { next_redraw } => Some(
                    if s.hide_at <= next_redraw {
                        s.hide_at
                    } else {
                        next_redraw
                    },
                ),
                Refresh::Continuous => Some(s.hide_at),
            },
        }
    }

    /// How to show a line, `repainting` saying whether the app underneath repaints the frame:
    /// the line that is up is drawn over when its refresh still suits, which avoids tearing the
    /// surface down and leaving the band undefended while a key repeats.
    pub fn plan_show(&self, repainting: bool) -> (p: ShowPlan)
        ensures
            p == match self.shown {
                Some(s) => match s.refresh {
                    Refresh::Continuous => if repainting {
                        ShowPlan::Reuse { flush: false }
                    } else {
                        ShowPlan::Rebuild
                    },
                    Refresh::Periodic { .. } => if repainting {
                        ShowPlan::Rebuild
                    } else {
                        ShowPlan::Reuse { flush: true }
                    },
                },
                None => ShowPlan::Rebuild,
            },
    {
        match self.shown {
            Some(s) => match s.refresh {
                Refresh::Continuous => if repainting {
                    ShowPlan::Reuse { flush: false }
                } else {
                    ShowPlan::Rebuild
                },
                Refresh::Periodic { .. } => if repainting {
                    ShowPlan::Rebuild
                } else {
                    ShowPlan::Reuse { flush: true }
                },
            },
            None => ShowPlan::Rebuild,
        }
    }

    /// The line that was up has been drawn over at `now`. `refreshed` is false when a stamper
    /// could not take the new pixels, in which case nothing changes here and the surface is
    /// rebuilt instead; otherwise the line stays up for the full timeout again.
    pub fn reused(&mut self, now: u64, refreshed: bool)
        requires
            old(self).shown is Some,
            now + HIDE_TIMEOUT_MS <= u64::MAX,
        ensures
            final(self).bottom_inset == old(self).bottom_inset,
            !refreshed ==> final(self).shown == old(self).shown,
            refreshed ==> final(self).shown == Some(
                Shown {
                    hide_at: (now + HIDE_TIMEOUT_MS) as u64,
                    refresh: match old(self).shown->0.refresh {
                        Refresh::Periodic { .. } => Refresh::Periodic {
                            next_redraw: (now + UI_REDRAW_PERIOD_MS) as u64,
                        },
                        Refresh::Continuous => Refresh::Continuous,
                    },
                },
            ),
    {
        if refreshed {
            let s = self.shown.unwrap();
            let refresh = match s.refresh {
                Refresh::Periodic { .. } => Refresh::Periodic { next_redraw: now + UI_REDRAW_PERIOD_MS },
                Refresh::Continuous => Refresh::Continuous,
            };
            self.shown = Some(Shown { hide_at: now + HIDE_TIMEOUT_MS, refresh });
        }
    }

    /// A new surface has been built and drawn on at `now`. `continuous` says whether a stamper
    /// now holds the band; without one, the band is flushed periodically.
    pub fn rebuilt(&mut self, now: u64, continuous: bool)
        requires
            now + HIDE_TIMEOUT_MS <= u64::MAX,
        ensures
            final(self).bottom_inset == old(self).bottom_inset,
            final(self).shown == Some(
                Shown {
                    hide_at: (now + HIDE_TIMEOUT_MS) as u64,
                    refresh: if continuous {
                        Refresh::Continuous
                    } else {
                        Refresh::Periodic { next_redraw: (now + UI_REDRAW_PERIOD_MS) as u64 }
                    },
                },
            ),
    {
        let refresh = if continuous {
            Refresh::Continuous
        } else {
            Refresh::Periodic { next_redraw: now + UI_REDRAW_PERIOD_MS }
        };
        self.shown = Some(Shown { hide_at: now + HIDE_TIMEOUT_MS, refresh });
    }

    /// A tick at `now`: hide once the time is up, else flush a periodic band again and set its
    /// next flush.
    pub fn tick(&mut self, now: u64) -> (t: Tick)
        requires
            now + UI_REDRAW_PERIOD_MS <= u64::MAX,
        ensures
            final(self).bottom_inset == old(self).bottom_inset,
            match old(self).shown {
                None => t == Tick::Nothing && final(self).shown is None,
                Some(s) => if now >= s.hide_at {
                    t == Tick::Hide && final(self).shown == old(self).shown
                } else {
                    match s.refresh {
                        Refresh::Periodic { .. } => t == Tick::Flush && final(self).shown == Some(
                            Shown {
                                hide_at: s.hide_at,
                                refresh: Refresh::Periodic {
                                    next_redraw: (now + UI_REDRAW_PERIOD_MS) as u64,
                                },
                            },
                        ),
                        Refresh::Continuous => t == Tick::Nothing && final(self).shown
                            == old(self).shown,
                    }
                },
            },
    {
        match self.shown {
            None => Tick::Nothing,
            Some(s) => {
                if now >= s.hide_at {
                    Tick::Hide
                } else {
                    match s.refresh {
                        Refresh::Periodic { .. } => {
                            self.shown = Some(
                                Shown {
                                    hide_at: s.hide_at,
                                    refresh: Refresh::Periodic {
                                        next_redraw: now + UI_REDRAW_PERIOD_MS,
                                    },
                                },
                            );
                            Tick::Flush
                        },
                        Refresh::Continuous => Tick::Nothing,
                    }
                }
            },
        }
    }

    /// Takes the line down, returning how it was kept up: a periodic band has its background put
    /// back, a stamper is simply stopped.
    pub fn take_down(&mut self) -> (r: Option<Refresh>)
        ensures
            final(self).shown is None,
            final(self).bottom_inset == old(self).bottom_inset,
            r == match old(self).shown {
                Some(s) => Some(s.refresh),
                None => None,
            },
    {
        match self.shown.take() {
            Some(s) => Some(s.refresh),
            None => None,
        }
    }
}

/// A bitmap font: each glyph is `GLYPH_HEIGHT` rows of bits, the leftmost pixel in the high bit,
/// for consecutive characters from `first`; `fallback` is the glyph for a character it lacks.
pub struct Font {
    pub first: char,
    pub glyphs: Vec<[u8; 12]>,
    pub fallback: usize,
}

/// The character the indicator's font starts at: the space, the first printable ASCII character.
pub const FIRST_CHAR: char = ' ';
/// Where `'?'` sits in a font starting at [`FIRST_CHAR`]: the glyph drawn for a character the
/// font lacks.
pub const FALLBACK_INDEX: usize = 31;

impl Font {
    /// The indicator's font layout: `glyphs` holds consecutive characters from the space on, and
    /// a character it lacks draws `'?'`.
    pub fn printable_ascii(glyphs: Vec<[u8; 12]>) -> (f: Font)
        requires
            glyphs@.len() > FALLBACK_INDEX,
        ensures
            f.first == FIRST_CHAR,
            f.fallback == FALLBACK_INDEX,
            f.fallback == ('?' as u32) - (FIRST_CHAR as u32),
            f.glyphs@ == glyphs@,
    {
        Font { first: FIRST_CHAR, glyphs, fallback: FALLBACK_INDEX }
    }
}

/// Whether pixel `(x, y)` lies in `band`.
pub open spec fn in_band(band: Rect, x: int, y: int) -> bool {
    band.x <= x < band.x + band.w && band.y <= y < band.y + band.h
}

/// Whether `band` lies within a `width` by `height` screen and is tall enough for a line.
pub open spec fn band_fits(band: Rect, width: u32, height: u32) -> bool {
    &&& band.x >= 0
    &&& band.y >= 0
    &&& band.x + band.w <= width
    &&& band.y + band.h <= height
    &&& band.h >= GLYPH_HEIGHT * SCALE + SHADOW
}

/// Two pixels of a `width`-wide screen share an index only if they are the same pixel.
proof fn lemma_pixel_index_unique(width: int, x: int, y: int, a: int, b: int)
    requires
        0 <= x < width,
        0 <= a < width,
        0 <= y,
        0 <= b,
        y * width + x == b * width + a,
    ensures
        x == a && y == b,
{
    if y < b {
        assert(y * width + x < b * width + a) by (nonlinear_arith)
            requires
                y < b,
                0 <= x < width,
                0 <= a,
        ;
    } else if y > b {
        assert(y * width + x > b * width + a) by (nonlinear_arith)
            requires
                y > b,
                0 <= a < width,
                0 <= x,
        ;
    }
}

/// Every pixel outside `band` is as it was.
pub open spec fn outside_kept(now: Seq<u32>, before: Seq<u32>, width: u32, height: u32, band: Rect) -> bool {
    &&& now.len() == before.len()
    &&& forall|x: int, y: int|
        0 <= x < width && 0 <= y < height && !in_band(band, x, y) ==> #[trigger] now[y * width + x]
            == before[y * width + x]
}

/// Whether font pixel `(col, row)` of the glyph drawn for `c` is set.
pub open spec fn glyph_pixel(font: Font, c: char, row: int, col: int) -> bool {
    let g = glyph_index_spec(c, font.first, font.glyphs.len(), font.fallback);
    font.glyphs@[g as int]@[row] & (0x80u8 >> (col as u32)) != 0
}

/// How many glyphs of a text `len` characters long are drawn in a band `w` wide.
pub open spec fn glyph_count(len: int, w: u32) -> int {
    if len < max_glyphs_spec(w) {
        len
    } else {
        max_glyphs_spec(w) as int
    }
}

/// Whether the pass that starts the line at `(x0 + d, y0 + d)` inks pixel `(x, y)`: it lies in
/// the 2x2 block of a set font pixel of one of the first `n` glyphs, each glyph a 12 by 24 cell.
pub open spec fn inked(font: Font, chars: Seq<char>, n: int, x0: int, y0: int, d: int, x: int, y: int) -> bool {
    let rx = x - x0 - d;
    let ry = y - y0 - d;
    &&& 0 <= rx < 12 * n
    &&& 0 <= ry < 24
    &&& glyph_pixel(font, chars[rx / 12], ry / 2, (rx % 12) / 2)
}

/// The colour pixel `(x, y)` ends up with once `chars` is drawn into `band`: white where the
/// text inks it, else black where its shadow does, else what it was.
pub open spec fn painted(
    before: Seq<u32>,
    width: u32,
    band: Rect,
    font: Font,
    chars: Seq<char>,
    white: u32,
    black: u32,
    x: int,
    y: int,
) -> u32 {
    let n = glyph_count(chars.len() as int, band.w);
    if inked(font, chars, n, band.x as int, band.y as int, 0, x, y) {
        white
    } else if inked(font, chars, n, band.x as int, band.y as int, SHADOW as int, x, y) {
        black
    } else {
        before[y * width + x]
    }
}

/// Ink only ever falls in the text's box: `n` cells from `(x0 + d, y0 + d)`.
proof fn lemma_inked_in_box(font: Font, chars: Seq<char>, n: int, x0: int, y0: int, d: int, x: int, y: int)
    requires
        inked(font, chars, n, x0, y0, d, x, y),
    ensures
        x0 + d <= x < x0 + d + 12 * n,
        y0 + d <= y < y0 + d + 24,
{
}

/// Whether the glyph cell at `(rx, ry)` from the start of a pass is inked; see [`inked`].
fn ink(font: &Font, chars: &Vec<char>, n: usize, rx: u32, ry: u32) -> (r: bool)
    requires
        n <= chars.len(),
        n * 12 <= u32::MAX,
        font.fallback < font.glyphs.len(),
    ensures
        r == inked(*font, chars@, n as int, 0, 0, 0, rx as int, ry as int),
{
    if (rx as usize) >= n * 12 || ry >= 24 {
        return false;
    }
    let i = (rx / 12) as usize;
    let row = (ry / 2) as usize;
    let col = (rx % 12) / 2;
    let g = glyph_index(chars[i], font.first, font.glyphs.len(), font.fallback);
    let rows = font.glyphs[g];
    rows[row] & (0x80u8 >> col) != 0
}

/// Writes `color` at pixel `(x, y)`, leaving every other pixel as it was.
fn set_pixel(pixels: &mut Vec<u32>, width: u32, height: u32, x: u32, y: u32, color: u32)
    requires
        old(pixels)@.len() == width * height,
        x < width,
        y < height,
    ensures
        final(pixels)@.len() == old(pixels)@.len(),
        final(pixels)@[y * width + x] == color,
        forall|a: int, b: int|
            0 <= a < width && 0 <= b < height && (a != x || b != y) ==> #[trigger] final(pixels)@[b
                * width + a] == old(pixels)@[b * width + a],
{
    let ghost w = width as int;
    assert((y as int) * w + (x as int) < w * (height as int)) by (nonlinear_arith)
        requires
            0 <= x < w,
            0 <= y < height,
    ;
    assert((y as int) * w <= (y as int) * w + (x as int));
    assert((y as int) * w + (x as int) < pixels.len());
    let i = (y as usize) * (width as usize) + (x as usize);
    pixels.set(i, color);
    assert forall|a: int, b: int|
        0 <= a < width && 0 <= b < height && (a != x || b != y) implies #[trigger] pixels@[b * w
        + a] == old(pixels)@[b * w + a] by {
        if b * w + a == (y as int) * w + (x as int) {
            lemma_pixel_index_unique(w, a, b, x as int, y as int);
        }
        assert(0 <= b * w + a < w * (height as int)) by (nonlinear_arith)
            requires
                0 <= a < w,
                0 <= b < height,
        ;
    }
}

/// Paints `text` into `band` of a `width` by `height` screen the way RetroArch's driver does: each
/// font pixel a 2x2 block of `white`, over a 2x2 `black` shadow two pixels right and down. Whole
/// glyphs only, as many as fit with their shadow; a character the font lacks draws its fallback.
/// See [`painted`] for the colour each pixel ends up with. Nothing outside the band is written,
/// and nothing at all when the band does not fit the screen or is too short for a line.
pub fn draw_text(
    pixels: &mut Vec<u32>,
    width: u32,
    height: u32,
    band: Rect,
    font: &Font,
    text: &str,
    white: u32,
    black: u32,
)
    requires
        old(pixels)@.len() == width * height,
        font.fallback < font.glyphs.len(),
    ensures
        final(pixels)@.len() == old(pixels)@.len(),
        outside_kept(final(pixels)@, old(pixels)@, width, height, band),
        !band_fits(band, width, height) ==> final(pixels)@ == old(pixels)@,
        band_fits(band, width, height) ==> forall|x: int, y: int|
            0 <= x < width && 0 <= y < height ==> #[trigger] final(pixels)@[y * width + x] == painted(
                old(pixels)@,
                width,
                band,
                *font,
                text@,
                white,
                black,
                x,
                y,
            ),
{
    let ghost before = pixels@;
    if band.x < 0 || band.y < 0 || (band.x as i64) + (band.w as i64) > (width as i64) || (band.y as i64)
        + (band.h as i64) > (height as i64) || band.h < GLYPH_HEIGHT * SCALE + SHADOW {
        return;
    }
    let x0 = band.x as u32;
    let y0 = band.y as u32;
    let chars = chars_of(text);
    let fit = max_glyphs(band.w) as usize;
    let n = if chars.len() < fit {
        chars.len()
    } else {
        fit
    };
    let ghost bx = band.x as int;
    let ghost by = band.y as int;
    let ghost gn = glyph_count(text@.len() as int, band.w);
    assert(n == gn);
    // Nothing is inked outside the box the text's cells and their shadow cover.
    assert forall|x: int, y: int|
        0 <= x < width && 0 <= y < height && !(x0 <= x < x0 + 12 * n + SHADOW && y0 <= y < y0 + BAND_H)
            implies #[trigger] painted(before, width, band, *font, text@, white, black, x, y)
        == before[y * width + x] by {
        if inked(*font, text@, gn, bx, by, 0, x, y) {
            lemma_inked_in_box(*font, text@, gn, bx, by, 0, x, y);
        }
        if inked(*font, text@, gn, bx, by, SHADOW as int, x, y) {
            lemma_inked_in_box(*font, text@, gn, bx, by, SHADOW as int, x, y);
        }
    }
    if n == 0 {
        assert forall|x: int, y: int| 0 <= x < width && 0 <= y < height implies #[trigger] pixels@[y
            * width + x] == painted(before, width, band, *font, text@, white, black, x, y) by {
            assert(!inked(*font, text@, gn, bx, by, 0, x, y));
            assert(!inked(*font, text@, gn, bx, by, SHADOW as int, x, y));
        }
        return;
    }
    let x1 = x0 + (n as u32) * 12 + SHADOW;
    let y1 = y0 + BAND_H;
    let mut y = y0;
    while y < y1
        invariant
            y0 <= y <= y1,
            y1 == y0 + BAND_H,
            x1 == x0 + 12 * n + SHADOW,
            x1 <= width,
            y1 <= height,
            n == gn,
            gn == glyph_count(text@.len() as int, band.w),
            x0 == bx,
            y0 == by,
            bx == band.x as int,
            by == band.y as int,
            chars@ == text@,
            band_fits(band, width, height),
            font.fallback < font.glyphs.len(),
            n <= chars.len(),
            pixels@.len() == width * height,
            forall|a: int, b: int|
                0 <= a < width && 0 <= b < height ==> #[trigger] pixels@[b * width + a] == if b
                    < y {
                    painted(before, width, band, *font, text@, white, black, a, b)
                } else {
                    before[b * width + a]
                },
            forall|a: int, b: int|
                0 <= a < width && 0 <= b < height && !(x0 <= a < x1 && y0 <= b < y1) ==> #[trigger] painted(
                    before,
                    width,
                    band,
                    *font,
                    text@,
                    white,
                    black,
                    a,
                    b,
                ) == before[b * width + a],
        decreases y1 - y,
    {
        let mut x = x0;
        while x < x1
            invariant
                y0 <= y < y1,
                x0 <= x <= x1,
                y1 == y0 + BAND_H,
                x1 == x0 + 12 * n + SHADOW,
                x1 <= width,
                y1 <= height,
                n == gn,
                gn == glyph_count(text@.len() as int, band.w),
                x0 == bx,
                y0 == by,
                bx == band.x as int,
                by == band.y as int,
                chars@ == text@,
                band_fits(band, width, height),
                font.fallback < font.glyphs.len(),
                n <= chars.len(),
                pixels@.len() == width * height,
                forall|a: int, b: int|
                    0 <= a < width && 0 <= b < height ==> #[trigger] pixels@[b * width + a] == if b
                        < y || (b == y && x0 <= a < x) {
                        painted(before, width, band, *font, text@, white, black, a, b)
                    } else {
                        before[b * width + a]
                    },
                forall|a: int, b: int|
                    0 <= a < width && 0 <= b < height && !(x0 <= a < x1 && y0 <= b < y1) ==> #[trigger] painted(
                        before,
                        width,
                        band,
                        *font,
                        text@,
                        white,
                        black,
                        a,
                        b,
                    ) == before[b * width + a],
            decreases x1 - x,
        {
            let lit = ink(font, &chars, n, x - x0, y - y0);
            let shade = x >= x0 + SHADOW && y >= y0 + SHADOW && ink(
                font,
                &chars,
                n,
                x - x0 - SHADOW,
                y - y0 - SHADOW,
            );
            assert(lit == inked(*font, text@, gn, bx, by, 0, x as int, y as int));
            assert(shade == inked(*font, text@, gn, bx, by, SHADOW as int, x as int, y as int));
            let ghost prev = pixels@;
            let ghost target = painted(before, width, band, *font, text@, white, black, x as int, y as int);
            assert(prev[y * width + x] == before[y * width + x]);
            if lit {
                set_pixel(pixels, width, height, x, y, white);
                assert(pixels@[y * width + x] == target);
            } else if shade {
                set_pixel(pixels, width, height, x, y, black);
                assert(pixels@[y * width + x] == target);
            } else {
                assert(pixels@[y * width + x] == target);
            }
            assert(pixels@[y * width + x] == painted(
                before,
                width,
                band,
                *font,
                text@,
                white,
                black,
                x as int,
                y as int,
            ));
            x += 1;
        }
        y += 1;
    }
    assert forall|x: int, y: int|
        0 <= x < width && 0 <= y < height && !in_band(band, x, y) implies #[trigger] pixels@[y * width
        + x] == before[y * width + x] by {
        assert(!(x0 <= x < x1 && y0 <= y < y1));
    }
}

} // verus!
