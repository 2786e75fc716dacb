//! The framebuffer: which pixels of a rectangle are on screen, where each lands in the panel's
//! upside-down, byte-ordered frame, copying pixels into and out of the frame, and when the stamper
//! repaints a held rectangle.
use vstd::prelude::*;

use crate::menu::Rect;
use vstd::arithmetic::div_mod::lemma_fundamental_div_mod_converse;

verus! {

/// A vblank wait shorter than this many nanoseconds is not waiting on a panel...
pub const VBLANK_MIN_NS: u64 = 4_000_000;
/// ...and one longer than this is not a frame worth chasing.
pub const VBLANK_MAX_NS: u64 = 40_000_000;
/// The stamper repaints at least this often, in nanoseconds, even when no page flip is seen.
pub const STAMP_FLOOR_NS: u64 = 8_000_000;

/// The on-screen part of a rectangle: columns `x0..x1` and rows `y0..y1`.
#[derive(Clone, Copy, Debug, PartialEq, Eq, Structural)]
pub struct Clip {
    pub x0: usize,
    pub y0: usize,
    pub x1: usize,
    pub y1: usize,
}

pub open spec fn clamp_low(v: int) -> int {
    if v < 0 {
        0
    } else {
        v
    }
}

pub open spec fn min_int(a: int, b: int) -> int {
    if a < b {
        a
    } else {
        b
    }
}

/// The part of `rect` on a `width` by `height` screen: its edges clamped at zero, its far edges
/// also at the screen's size.
pub open spec fn clip_spec(rect: Rect, width: usize, height: usize) -> Clip {
    Clip {
        x0: clamp_low(rect.x as int) as usize,
        y0: clamp_low(rect.y as int) as usize,
        x1: min_int(clamp_low(rect.x + rect.w), width as int) as usize,
        y1: min_int(clamp_low(rect.y + rect.h), height as int) as usize,
    }
}

/// The part of `rect` on screen; see [`clip_spec`].
pub fn clip_rect(rect: Rect, width: usize, height: usize) -> (c: Clip)
    requires
        rect.w <= i32::MAX,
        rect.h <= i32::MAX,
        rect.x + rect.w <= i32::MAX,
        rect.y + rect.h <= i32::MAX,
    ensures
        c == clip_spec(rect, width, height),
        c.x1 <= width,
        c.y1 <= height,
{
    let right = rect.x + rect.w as i32;
    let bottom = rect.y + rect.h as i32;
    let x0 = if rect.x < 0 {
        0
    } else {
        rect.x as usize
    };
    let y0 = if rect.y < 0 {
        0
    } else {
        rect.y as usize
    };
    let r = if right < 0 {
        0
    } else {
        right as usize
    };
    let b = if bottom < 0 {
        0
    } else {
        bottom as usize
    };
    Clip {
        x0,
        y0,
        x1: if r < width {
            r
        } else {
            width
        },
        y1: if b < height {
            b
        } else {
            height
        },
    }
}

/// Where pixel `(x, y)` of the screen starts in the frame: the panel is mounted upside down, so
/// both axes run backwards, from `location`, `bpp` bytes a pixel.
pub open spec fn frame_index_spec(location: int, width: int, height: int, bpp: int, x: int, y: int) -> int {
    location + ((height - 1 - y) * width + (width - 1 - x)) * bpp
}

/// Where pixel `(x, y)` starts in the frame; see [`frame_index_spec`]. Every byte of it lies
/// within a frame that holds the whole screen from `location`.
pub fn frame_index(location: usize, width: usize, height: usize, bpp: usize, x: usize, y: usize) -> (i: usize)
    requires
        x < width,
        y < height,
        1 <= bpp,
        location + width * height * bpp <= usize::MAX,
    ensures
        i == frame_index_spec(location as int, width as int, height as int, bpp as int, x as int, y as int),
        i + bpp <= location + width * height * bpp,
{
    let fy = height - 1 - y;
    let fx = width - 1 - x;
    assert(fy * width + fx < width * height) by (nonlinear_arith)
        requires
            fy < height,
            fx < width,
    ;
    assert((fy * width + fx) * bpp + bpp <= width * height * bpp) by (nonlinear_arith)
        requires
            fy * width + fx < width * height,
    ;
    assert(width * height <= width * height * bpp) by (nonlinear_arith)
        requires
            1 <= bpp,
    ;
    assert(fy * width <= fy * width + fx);
    location + (fy * width + fx) * bpp
}

/// Whether a measured vblank period is a real panel's: neither so short that the wait did not
/// block nor so long that it is not worth chasing.
pub fn vblank_period_ok(period_ns: u64) -> (r: bool)
    ensures
        r == (VBLANK_MIN_NS <= period_ns <= VBLANK_MAX_NS),
{
    VBLANK_MIN_NS <= period_ns && period_ns <= VBLANK_MAX_NS
}

/// How long after vblank the panel reaches a held rectangle whose bottom edge is at `bottom`: the
/// panel is upside down, so it scans `height - bottom` rows (within the screen) before it.
pub open spec fn pre_scanout_spec(frame_ns: u64, height: u32, bottom: i32) -> int {
    let h = if height < 1 {
        1
    } else {
        height as int
    };
    let first_row = if h - bottom < 0 {
        0
    } else if h - bottom > h {
        h
    } else {
        h - bottom
    };
    (frame_ns * first_row) / h
}

pub fn pre_scanout(frame_ns: u64, height: u32, bottom: i32) -> (r: u64)
    requires
        frame_ns <= VBLANK_MAX_NS,
    ensures
        r == pre_scanout_spec(frame_ns, height, bottom),
        r <= frame_ns,
{
    let h: u32 = if height < 1 {
        1
    } else {
        height
    };
    let diff: i64 = (h as i64) - (bottom as i64);
    let first_row: u64 = if diff < 0 {
        0
    } else if diff > h as i64 {
        h as u64
    } else {
        diff as u64
    };
    assert(frame_ns * first_row <= frame_ns * (h as u64)) by (nonlinear_arith)
        requires
            first_row <= h,
    ;
    assert(frame_ns * (h as u64) <= 40_000_000 * 4_294_967_295u64) by (nonlinear_arith)
        requires
            frame_ns <= 40_000_000,
            h <= 4_294_967_295u64,
    ;
    let hh = h as u64;
    let r = frame_ns * first_row / hh;
    assert(r <= frame_ns) by (nonlinear_arith)
        requires
            r == (frame_ns * first_row) as int / hh as int,
            first_row <= hh,
            hh >= 1,
    ;
    r
}

/// Whether the page-polling stamper repaints now: when the app has flipped to another page, and
/// otherwise (including when the page offset cannot be read, `None`) once the floor has passed
/// since the last repaint.
pub fn stamp_due(flipped: Option<bool>, since_last_blit_ns: u64) -> (r: bool)
    ensures
        r == (flipped == Some(true) || since_last_blit_ns >= STAMP_FLOOR_NS),
{
    match flipped {
        Some(true) => true,
        _ => since_last_blit_ns >= STAMP_FLOOR_NS,
    }
}

/// The screen pixel, and the byte of it, that frame byte `k` holds in a frame whose screen
/// starts at `location`: `(x, y, o)`, byte `o` of pixel `(x, y)`. The panel is upside down, so
/// the frame runs from the bottom right pixel backwards.
pub open spec fn frame_cell(location: int, width: int, height: int, bpp: int, k: int) -> (int, int, int) {
    let rel = k - location;
    let c = rel / bpp;
    (width - 1 - c % width, height - 1 - c / width, rel % bpp)
}

/// Byte `o` of a red, green, blue, alpha pixel as the frame stores it: blue, green, red, alpha.
pub open spec fn bgra_byte(p: [u8; 4], o: int) -> u8 {
    if o == 0 {
        p@[2]
    } else if o == 1 {
        p@[1]
    } else if o == 2 {
        p@[0]
    } else {
        p@[3]
    }
}

/// Whether frame byte `k` is one of the four bytes of a pixel of `clip`.
pub open spec fn clip_byte(location: int, width: int, height: int, bpp: int, clip: Clip, k: int) -> bool {
    let (x, y, o) = frame_cell(location, width, height, bpp, k);
    &&& location <= k < location + width * height * bpp
    &&& o < 4
    &&& clip.x0 <= x < clip.x1
    &&& clip.y0 <= y < clip.y1
}

/// Frame byte `k` once the pixels of `clip` are written into a screen that starts at
/// `location`: a written pixel's first four bytes hold it in blue, green, red, alpha order, and
/// every other byte is as it was.
pub open spec fn written_byte(
    before: Seq<u8>,
    pixels: Seq<[u8; 4]>,
    location: int,
    width: int,
    height: int,
    bpp: int,
    clip: Clip,
    k: int,
) -> u8 {
    let (x, y, o) = frame_cell(location, width, height, bpp, k);
    if clip_byte(location, width, height, bpp, clip, k) {
        bgra_byte(pixels[y * width + x], o)
    } else {
        before[k]
    }
}

/// Where byte `o` of pixel `(x, y)` sits, read back.
proof fn lemma_cell_of_byte(location: int, width: int, height: int, bpp: int, x: int, y: int, o: int)
    requires
        0 <= x < width,
        0 <= y < height,
        0 <= o < bpp,
    ensures
        frame_cell(
            location,
            width,
            height,
            bpp,
            location + ((height - 1 - y) * width + (width - 1 - x)) * bpp + o,
        ) == (x, y, o),
        location <= location + ((height - 1 - y) * width + (width - 1 - x)) * bpp + o < location
            + width * height * bpp,
{
    let c = (height - 1 - y) * width + (width - 1 - x);
    lemma_fundamental_div_mod_converse(c * bpp + o, bpp, c, o);
    lemma_fundamental_div_mod_converse(c, width, height - 1 - y, width - 1 - x);
    assert(0 <= c < width * height) by (nonlinear_arith)
        requires
            c == (height - 1 - y) * width + (width - 1 - x),
            0 <= x < width,
            0 <= y < height,
    ;
    assert(0 <= c * bpp + o < width * height * bpp) by (nonlinear_arith)
        requires
            0 <= c < width * height,
            0 <= o < bpp,
    ;
}

/// Every byte of the screen's span of the frame is a byte of some pixel.
proof fn lemma_byte_of_cell(location: int, width: int, height: int, bpp: int, k: int)
    requires
        1 <= width,
        1 <= height,
        1 <= bpp,
        location <= k < location + width * height * bpp,
    ensures
        ({
            let (x, y, o) = frame_cell(location, width, height, bpp, k);
            &&& 0 <= x < width
            &&& 0 <= y < height
            &&& 0 <= o < bpp
            &&& k == location + ((height - 1 - y) * width + (width - 1 - x)) * bpp + o
        }),
{
    let rel = k - location;
    let c = rel / bpp;
    assert(rel == c * bpp + rel % bpp && 0 <= rel % bpp < bpp) by (nonlinear_arith)
        requires
            bpp >= 1,
            c == rel / bpp,
    ;
    assert(0 <= c < width * height) by (nonlinear_arith)
        requires
            0 <= rel < width * height * bpp,
            c == rel / bpp,
            bpp >= 1,
    ;
    assert(c == (c / width) * width + c % width && 0 <= c % width < width) by (nonlinear_arith)
        requires
            width >= 1,
    ;
    assert(0 <= c / width < height) by (nonlinear_arith)
        requires
            0 <= c < width * height,
            width >= 1,
    ;
}

/// Writes the pixels of `rect` that are on screen into the frame, for a screen that starts at
/// page offset `(xoffset, yoffset)`: see [`written_byte`]. A frame too short for the whole
/// screen at that offset is left alone.
pub fn write_rect_at(
    frame: &mut Vec<u8>,
    pixels: &Vec<[u8; 4]>,
    width: usize,
    height: usize,
    bpp: usize,
    xoffset: usize,
    yoffset: usize,
    rect: Rect,
)
    requires
        pixels@.len() == width * height,
        bpp >= 4,
        (yoffset * width + xoffset) * bpp + width * height * bpp <= usize::MAX,
        rect.w <= i32::MAX,
        rect.h <= i32::MAX,
        rect.x + rect.w <= i32::MAX,
        rect.y + rect.h <= i32::MAX,
    ensures
        final(frame)@.len() == old(frame)@.len(),
        (yoffset * width + xoffset) * bpp + width * height * bpp > old(frame)@.len() ==> final(frame)@
            == old(frame)@,
        (yoffset * width + xoffset) * bpp + width * height * bpp <= old(frame)@.len() ==> forall|k: int|
            0 <= k < old(frame)@.len() ==> #[trigger] final(frame)@[k] == written_byte(
                old(frame)@,
                pixels@,
                (yoffset * width + xoffset) * bpp,
                width as int,
                height as int,
                bpp as int,
                clip_spec(rect, width, height),
                k,
            ),
{
    let ghost before = frame@;
    assert((yoffset * width + xoffset) * bpp <= usize::MAX) by (nonlinear_arith)
        requires
            (yoffset * width + xoffset) * bpp + width * height * bpp <= usize::MAX,
            0 <= width * height * bpp,
    ;
    assert(yoffset * width + xoffset <= usize::MAX) by (nonlinear_arith)
        requires
            (yoffset * width + xoffset) * bpp <= usize::MAX,
            bpp >= 4,
            0 <= yoffset * width + xoffset,
    ;
    assert(yoffset * width <= usize::MAX) by (nonlinear_arith)
        requires
            yoffset * width + xoffset <= usize::MAX,
    ;
    assert(width * height <= usize::MAX) by (nonlinear_arith)
        requires
            (yoffset * width + xoffset) * bpp + width * height * bpp <= usize::MAX,
            bpp >= 4,
            0 <= (yoffset * width + xoffset) * bpp,
    ;
    let location = (yoffset * width + xoffset) * bpp;
    let span = width * height * bpp;
    if location + span > frame.len() {
        return;
    }
    let clip = clip_rect(rect, width, height);
    let ghost L = location as int;
    let ghost W = width as int;
    let ghost H = height as int;
    let ghost B = bpp as int;
    let mut y = clip.y0;
    while y < clip.y1
        invariant
            clip == clip_spec(rect, width, height),
            clip.x1 <= width,
            clip.y1 <= height,
            clip.y0 <= y,
            y <= clip.y1 || clip.y1 < clip.y0,
            L == location,
            W == width,
            H == height,
            B == bpp,
            bpp >= 4,
            location + width * height * bpp <= frame@.len(),
            location + width * height * bpp <= usize::MAX,
            width * height <= usize::MAX,
            pixels@.len() == width * height,
            frame@.len() == before.len(),
            forall|k: int|
                0 <= k < frame@.len() ==> #[trigger] frame@[k] == if clip_byte(L, W, H, B, clip, k)
                    && frame_cell(L, W, H, B, k).1 < y {
                    written_byte(before, pixels@, L, W, H, B, clip, k)
                } else {
                    before[k]
                },
        decreases clip.y1 - y,
    {
        let mut x = clip.x0;
        while x < clip.x1
            invariant
                clip == clip_spec(rect, width, height),
                clip.x1 <= width,
                clip.y1 <= height,
                clip.y0 <= y < clip.y1,
                clip.x0 <= x,
                x <= clip.x1 || clip.x1 < clip.x0,
                L == location,
                W == width,
                H == height,
                B == bpp,
                bpp >= 4,
                location + width * height * bpp <= frame@.len(),
                location + width * height * bpp <= usize::MAX,
                width * height <= usize::MAX,
                pixels@.len() == width * height,
                frame@.len() == before.len(),
                forall|k: int|
                    0 <= k < frame@.len() ==> #[trigger] frame@[k] == if clip_byte(L, W, H, B, clip, k)
                        && (frame_cell(L, W, H, B, k).1 < y || (frame_cell(L, W, H, B, k).1 == y
                        && frame_cell(L, W, H, B, k).0 < x)) {
                        written_byte(before, pixels@, L, W, H, B, clip, k)
                    } else {
                        before[k]
                    },
            decreases clip.x1 - x,
        {
            assert(y * width + x < width * height) by (nonlinear_arith)
                requires
                    x < width,
                    y < height,
            ;
            let p = pixels[y * width + x];
            let base = frame_index(location, width, height, bpp, x, y);
            let ghost prev = frame@;
            frame.set(base, p[2]);
            frame.set(base + 1, p[1]);
            frame.set(base + 2, p[0]);
            frame.set(base + 3, p[3]);
            proof {
                assert forall|k: int| 0 <= k < frame@.len() implies #[trigger] frame@[k] == if clip_byte(
                    L,
                    W,
                    H,
                    B,
                    clip,
                    k,
                ) && (frame_cell(L, W, H, B, k).1 < y || (frame_cell(L, W, H, B, k).1 == y
                    && frame_cell(L, W, H, B, k).0 < x + 1)) {
                    written_byte(before, pixels@, L, W, H, B, clip, k)
                } else {
                    before[k]
                } by {
                    if base <= k < base + 4 {
                        lemma_cell_of_byte(L, W, H, B, x as int, y as int, k - base);
                        assert(frame_cell(L, W, H, B, k) == (x as int, y as int, k - base));
                    } else {
                        assert(frame@[k] == prev[k]);
                        if L <= k < L + W * H * B {
                            lemma_byte_of_cell(L, W, H, B, k);
                            let (a, b, o) = frame_cell(L, W, H, B, k);
                            if a == x && b == y && o < 4 {
                                assert(k == base + o);
                            }
                        }
                    }
                }
            }
            x += 1;
        }
        y += 1;
    }
    proof {
        assert forall|k: int| 0 <= k < frame@.len() implies #[trigger] frame@[k] == written_byte(
            before,
            pixels@,
            L,
            W,
            H,
            B,
            clip,
            k,
        ) by {
            if clip_byte(L, W, H, B, clip, k) {
                assert(frame_cell(L, W, H, B, k).1 < clip.y1);
            }
        }
    }
}

/// Whether `p` is the pixel that frame bytes `k..k+4` hold, which are in blue, green, red,
/// alpha order.
pub open spec fn read_from(p: [u8; 4], frame: Seq<u8>, k: int) -> bool {
    p@ == seq![frame[k + 2], frame[k + 1], frame[k], frame[k + 3]]
}

/// Reading back a written pixel gives the pixel: in a frame whose bytes are those
/// [`write_rect_at`] leaves (see [`written_byte`]), the four bytes [`read_frame_rect`] reads for a
/// pixel of the clip hold that pixel again.
pub proof fn lemma_written_pixel_reads_back(
    before: Seq<u8>,
    after: Seq<u8>,
    pixels: Seq<[u8; 4]>,
    location: int,
    width: int,
    height: int,
    bpp: int,
    clip: Clip,
    x: int,
    y: int,
)
    requires
        bpp >= 4,
        0 <= location,
        location + width * height * bpp <= before.len(),
        after.len() == before.len(),
        forall|k: int|
            0 <= k < before.len() ==> #[trigger] after[k] == written_byte(
                before,
                pixels,
                location,
                width,
                height,
                bpp,
                clip,
                k,
            ),
        clip.x0 <= x < clip.x1 <= width,
        clip.y0 <= y < clip.y1 <= height,
    ensures
        read_from(
            pixels[y * width + x],
            after,
            frame_index_spec(location, width, height, bpp, x, y),
        ),
{
    let k = frame_index_spec(location, width, height, bpp, x, y);
    lemma_cell_of_byte(location, width, height, bpp, x, y, 0);
    lemma_cell_of_byte(location, width, height, bpp, x, y, 1);
    lemma_cell_of_byte(location, width, height, bpp, x, y, 2);
    lemma_cell_of_byte(location, width, height, bpp, x, y, 3);
    assert(after[k] == bgra_byte(pixels[y * width + x], 0));
    assert(after[k + 1] == bgra_byte(pixels[y * width + x], 1));
    assert(after[k + 2] == bgra_byte(pixels[y * width + x], 2));
    assert(after[k + 3] == bgra_byte(pixels[y * width + x], 3));
    assert(pixels[y * width + x]@ =~= seq![after[k + 2], after[k + 1], after[k], after[k + 3]]);
}

/// Copies the pixels of `rect` that are on screen out of the frame, for a screen that starts at
/// page offset `(xoffset, yoffset)`: each becomes the pixel its frame bytes hold (see
/// [`frame_index`]), and every other pixel is left as it was.
pub fn read_frame_rect(
    pixels: &mut Vec<[u8; 4]>,
    frame: &Vec<u8>,
    width: usize,
    height: usize,
    bpp: usize,
    xoffset: usize,
    yoffset: usize,
    rect: Rect,
)
    requires
        old(pixels)@.len() == width * height,
        bpp >= 4,
        (yoffset * width + xoffset) * bpp + width * height * bpp <= frame@.len(),
        rect.w <= i32::MAX,
        rect.h <= i32::MAX,
        rect.x + rect.w <= i32::MAX,
        rect.y + rect.h <= i32::MAX,
    ensures
        final(pixels)@.len() == old(pixels)@.len(),
        forall|i: int|
            0 <= i < width * height ==> {
                let (x, y) = (i % width as int, i / width as int);
                let c = clip_spec(rect, width, height);
                if c.x0 <= x < c.x1 && c.y0 <= y < c.y1 {
                    read_from(
                        #[trigger] final(pixels)@[i],
                        frame@,
                        frame_index_spec(
                            (yoffset * width + xoffset) * bpp,
                            width as int,
                            height as int,
                            bpp as int,
                            x,
                            y,
                        ),
                    )
                } else {
                    final(pixels)@[i] == old(pixels)@[i]
                }
            },
{
    let ghost before = pixels@;
    // Both buffers' lengths fit a usize, which bounds the index arithmetic below
    let _frame_len = frame.len();
    let _pixel_count = pixels.len();
    assert((yoffset * width + xoffset) * bpp <= usize::MAX) by (nonlinear_arith)
        requires
            (yoffset * width + xoffset) * bpp + width * height * bpp <= usize::MAX,
            0 <= width * height * bpp,
    ;
    assert(yoffset * width + xoffset <= usize::MAX) by (nonlinear_arith)
        requires
            (yoffset * width + xoffset) * bpp <= usize::MAX,
            bpp >= 4,
            0 <= yoffset * width + xoffset,
    ;
    assert(yoffset * width <= usize::MAX) by (nonlinear_arith)
        requires
            yoffset * width + xoffset <= usize::MAX,
    ;
    let location = (yoffset * width + xoffset) * bpp;
    let clip = clip_rect(rect, width, height);
    let ghost L = location as int;
    let ghost W = width as int;
    let mut y = clip.y0;
    while y < clip.y1
        invariant
            clip == clip_spec(rect, width, height),
            clip.x1 <= width,
            clip.y1 <= height,
            clip.y0 <= y,
            L == location,
            W == width,
            bpp >= 4,
            location + width * height * bpp <= frame@.len(),
            location + width * height * bpp <= usize::MAX,
            width * height <= usize::MAX,
            pixels@.len() == width * height,
            forall|i: int|
                0 <= i < width * height ==> if clip.x0 <= i % W < clip.x1 && clip.y0 <= i / W < clip.y1
                    && i / W < y {
                    read_from(
                        #[trigger] pixels@[i],
                        frame@,
                        frame_index_spec(L, W, height as int, bpp as int, i % W, i / W),
                    )
                } else {
                    pixels@[i] == before[i]
                },
        decreases clip.y1 - y,
    {
        let mut x = clip.x0;
        while x < clip.x1
            invariant
                clip == clip_spec(rect, width, height),
                clip.x1 <= width,
                clip.y1 <= height,
                clip.y0 <= y < clip.y1,
                clip.x0 <= x,
                L == location,
                W == width,
                bpp >= 4,
                location + width * height * bpp <= frame@.len(),
                location + width * height * bpp <= usize::MAX,
                width * height <= usize::MAX,
                pixels@.len() == width * height,
                forall|i: int|
                    0 <= i < width * height ==> if clip.x0 <= i % W < clip.x1 && clip.y0 <= i / W
                        < clip.y1 && (i / W < y || (i / W == y && i % W < x)) {
                        read_from(
                            #[trigger] pixels@[i],
                            frame@,
                            frame_index_spec(L, W, height as int, bpp as int, i % W, i / W),
                        )
                    } else {
                        pixels@[i] == before[i]
                    },
            decreases clip.x1 - x,
        {
            assert(y * width + x < width * height) by (nonlinear_arith)
                requires
                    x < width,
                    y < height,
            ;
            let base = frame_index(location, width, height, bpp, x, y);
            let p: [u8; 4] = [frame[base + 2], frame[base + 1], frame[base], frame[base + 3]];
            let i0 = y * width + x;
            let ghost prev = pixels@;
            pixels.set(i0, p);
            proof {
                lemma_fundamental_div_mod_converse(i0 as int, W, y as int, x as int);
                assert(read_from(p, frame@, base as int));
                assert forall|i: int| 0 <= i < width * height implies if clip.x0 <= i % W < clip.x1
                    && clip.y0 <= i / W < clip.y1 && (i / W < y || (i / W == y && i % W < x + 1)) {
                    read_from(
                        #[trigger] pixels@[i],
                        frame@,
                        frame_index_spec(L, W, height as int, bpp as int, i % W, i / W),
                    )
                } else {
                    pixels@[i] == before[i]
                } by {
                    if i != i0 {
                        assert(pixels@[i] == prev[i]);
                        if i / W == y && i % W == x {
                            assert(i == (i / W) * W + i % W) by (nonlinear_arith)
                                requires
                                    W >= 1,
                            ;
                        }
                    }
                }
            }
            x += 1;
        }
        y += 1;
    }
}

/// The part of `rect` a saved screen is copied back into: `rect` itself when it lies on a
/// `width` by `height` screen, else its near edges clamped at zero and its size cut to the screen.
pub open spec fn restore_area(rect: Rect, width: u32, height: u32) -> Rect {
    if rect.x < 0 || rect.y < 0 || rect.x + rect.w > width || rect.y + rect.h > height {
        let x = clamp_low(rect.x as int);
        let y = clamp_low(rect.y as int);
        Rect {
            x: x as i32,
            y: y as i32,
            w: min_int(rect.w as int, width - x) as u32,
            h: min_int(rect.h as int, height - y) as u32,
        }
    } else {
        rect
    }
}

/// Copies the part of `rect` on screen (see [`restore_area`]) back from `saved`, a copy of the
/// whole `width` by `height` screen; every other pixel is left as it was.
pub fn restore_rect(pixels: &mut Vec<[u8; 4]>, saved: &Vec<[u8; 4]>, width: u32, height: u32, rect: Rect)
    requires
        old(pixels)@.len() == width * height,
        saved@.len() == width * height,
        rect.x >= 0 && rect.y >= 0 ==> rect.x + rect.w <= u32::MAX,
        rect.x >= 0 && rect.y >= 0 && rect.x + rect.w <= width ==> rect.y + rect.h <= u32::MAX,
        clamp_low(rect.x as int) <= width,
        clamp_low(rect.y as int) <= height,
    ensures
        final(pixels)@.len() == old(pixels)@.len(),
        forall|i: int|
            0 <= i < width * height ==> #[trigger] final(pixels)@[i] == {
                let a = restore_area(rect, width, height);
                if a.x <= i % (width as int) < a.x + a.w && a.y <= i / (width as int) < a.y + a.h {
                    saved@[i]
                } else {
                    old(pixels)@[i]
                }
            },
{
    let ghost before = pixels@;
    let _pixel_count = pixels.len();
    let mut x0 = rect.x;
    let mut y0 = rect.y;
    let mut w = rect.w;
    let mut h = rect.h;
    if rect.x < 0 || rect.y < 0 || rect.x as u32 + rect.w > width || rect.y as u32 + rect.h > height {
        x0 = if rect.x < 0 {
            0
        } else {
            rect.x
        };
        y0 = if rect.y < 0 {
            0
        } else {
            rect.y
        };
        let room_w = width - x0 as u32;
        let room_h = height - y0 as u32;
        w = if rect.w < room_w {
            rect.w
        } else {
            room_w
        };
        h = if rect.h < room_h {
            rect.h
        } else {
            room_h
        };
    }
    let ghost a = restore_area(rect, width, height);
    assert(a == (Rect { x: x0, y: y0, w, h }));
    let ghost W = width as int;
    let mut dy: u32 = 0;
    while dy < h
        invariant
            a == (Rect { x: x0, y: y0, w, h }),
            0 <= x0,
            0 <= y0,
            x0 + w <= width,
            y0 + h <= height,
            W == width,
            dy <= h,
            width * height <= usize::MAX,
            pixels@.len() == width * height,
            saved@.len() == width * height,
            forall|i: int|
                0 <= i < width * height ==> #[trigger] pixels@[i] == if x0 <= i % W < x0 + w && y0
                    <= i / W < y0 + dy {
                    saved@[i]
                } else {
                    before[i]
                },
        decreases h - dy,
    {
        let mut dx: u32 = 0;
        while dx < w
            invariant
                a == (Rect { x: x0, y: y0, w, h }),
                0 <= x0,
                0 <= y0,
                x0 + w <= width,
                y0 + h <= height,
                W == width,
                dy < h,
                dx <= w,
                width * height <= usize::MAX,
                pixels@.len() == width * height,
                saved@.len() == width * height,
                forall|i: int|
                    0 <= i < width * height ==> #[trigger] pixels@[i] == if x0 <= i % W < x0 + w && (y0
                        <= i / W < y0 + dy || (i / W == y0 + dy && i % W < x0 + dx)) {
                        saved@[i]
                    } else {
                        before[i]
                    },
            decreases w - dx,
        {
            let x = x0 as u32 + dx;
            let y = y0 as u32 + dy;
            assert((y as int) * W + (x as int) < W * (height as int)) by (nonlinear_arith)
                requires
                    0 <= x < W,
                    0 <= y < height,
            ;
            let idx = (y as usize) * (width as usize) + (x as usize);
            let ghost prev = pixels@;
            pixels.set(idx, saved[idx]);
            proof {
                lemma_fundamental_div_mod_converse(idx as int, W, y as int, x as int);
                assert forall|i: int| 0 <= i < width * height implies #[trigger] pixels@[i] == if x0
                    <= i % W < x0 + w && (y0 <= i / W < y0 + dy || (i / W == y0 + dy && i % W < x0
                    + dx + 1)) {
                    saved@[i]
                } else {
                    before[i]
                } by {
                    if i != idx {
                        assert(pixels@[i] == prev[i]);
                        if i / W == y && i % W == x {
                            assert(i == (i / W) * W + i % W) by (nonlinear_arith)
                                requires
                                    W >= 1,
                            ;
                        }
                    }
                }
            }
            dx += 1;
        }
        dy += 1;
    }
}

/// One row of a stamp: where it goes within a page of the frame, and its slice of the stamp's
/// bytes.
#[derive(Clone, Copy, Debug, PartialEq, Eq, Structural)]
pub struct StampRow {
    pub offset: usize,
    pub start: usize,
    pub len: usize,
}

/// A held rectangle packed in frame byte order, so repainting it is only copying: its rows back
/// to back, each row's place within a page, and how many pages the app may flip between.
pub struct Stamp {
    pub bytes: Vec<u8>,
    pub rows: Vec<StampRow>,
    pub pages: usize,
    pub page_stride: usize,
}

/// The columns row `t` of `clip` keeps once `inset` is trimmed from both ends for the rounded
/// corners: `lo..hi`.
pub open spec fn row_span(clip: Clip, insets: Seq<usize>, t: int) -> (int, int) {
    (clip.x0 + insets[t], clip.x1 - insets[t])
}

/// Whether row `t` keeps any column.
pub open spec fn row_kept(clip: Clip, insets: Seq<usize>, t: int) -> bool {
    row_span(clip, insets, t).0 < row_span(clip, insets, t).1
}

/// How many of the first `t` rows keep a column, and how many bytes they pack into.
pub open spec fn packed_before(clip: Clip, insets: Seq<usize>, t: nat) -> (nat, nat)
    decreases t,
{
    if t == 0 {
        (0, 0)
    } else {
        let (n, b) = packed_before(clip, insets, (t - 1) as nat);
        if row_kept(clip, insets, t - 1) {
            let (lo, hi) = row_span(clip, insets, t - 1);
            (n + 1, b + 4 * (hi - lo) as nat)
        } else {
            (n, b)
        }
    }
}

/// How many pages the app may flip between: the virtual height over the screen's, from one to
/// three.
pub open spec fn stamp_pages(yres_virtual: usize, height: usize) -> usize {
    let q = yres_virtual / (if height < 1 {
        1usize
    } else {
        height
    });
    if q < 1 {
        1
    } else if q > 3 {
        3
    } else {
        q
    }
}

/// What `Stamp::pack` makes of row `t`, when it keeps a column: the row's place in a page (the
/// panel is upside down, so the row is `height - 1 - y` down and starts `width - hi` pixels in),
/// and its bytes' place in the stamp.
pub open spec fn packed_row(clip: Clip, insets: Seq<usize>, width: int, height: int, bpp: int, stride: int, t: int) -> StampRow {
    let (lo, hi) = row_span(clip, insets, t);
    StampRow {
        offset: ((height - 1 - (clip.y0 + t)) * stride + (width - hi) * bpp) as usize,
        start: packed_before(clip, insets, t as nat).1 as usize,
        len: (4 * (hi - lo)) as usize,
    }
}

proof fn lemma_packed_before_grows(clip: Clip, insets: Seq<usize>, t: nat, u: nat)
    requires
        t <= u,
    ensures
        packed_before(clip, insets, t).0 <= packed_before(clip, insets, u).0,
        packed_before(clip, insets, t).1 <= packed_before(clip, insets, u).1,
        packed_before(clip, insets, t).0 < packed_before(clip, insets, u).0 || packed_before(clip, insets, t).1
            == packed_before(clip, insets, u).1,
    decreases u - t,
{
    if t < u {
        lemma_packed_before_grows(clip, insets, t, (u - 1) as nat);
    }
}

impl Stamp {
    /// Packs the part `clip` of a `width` by `height` screen for holding, with row `t` trimmed by
    /// `insets[t]` at both ends: each kept row's pixels right to left, as the panel is upside down,
    /// in blue, green, red, alpha order; see [`packed_row`]. `None` when the clip is empty or
    /// every row is trimmed away.
    pub fn pack(
        pixels: &Vec<[u8; 4]>,
        width: usize,
        height: usize,
        bpp: usize,
        stride: usize,
        yres_virtual: usize,
        clip: Clip,
        insets: &Vec<usize>,
    ) -> (r: Option<Stamp>)
        requires
            pixels@.len() == width * height,
            clip.x1 <= width,
            clip.y1 <= height,
            clip.y0 < clip.y1 ==> insets@.len() == clip.y1 - clip.y0,
            forall|t: int| 0 <= t < insets@.len() ==> #[trigger] insets@[t] <= clip.x1,
            width * height * 4 <= usize::MAX,
            height * stride + width * bpp <= usize::MAX,
        ensures
            (r is None) <==> (clip.x0 >= clip.x1 || clip.y0 >= clip.y1 || packed_before(
                clip,
                insets@,
                (clip.y1 - clip.y0) as nat,
            ).0 == 0),
            r matches Some(st) ==> {
                let n = (clip.y1 - clip.y0) as nat;
                &&& st.rows@.len() == packed_before(clip, insets@, n).0
                &&& st.bytes@.len() == packed_before(clip, insets@, n).1
                &&& st.pages == stamp_pages(yres_virtual, height)
                &&& st.page_stride == stride * height
                &&& forall|t: int|
                    0 <= t < n && row_kept(clip, insets@, t) ==> st.rows@[packed_before(
                        clip,
                        insets@,
                        t as nat,
                    ).0 as int] == #[trigger] packed_row(
                        clip,
                        insets@,
                        width as int,
                        height as int,
                        bpp as int,
                        stride as int,
                        t,
                    )
                &&& forall|t: int, j: int, c: int|
                    0 <= t < n && row_kept(clip, insets@, t) && 0 <= j < row_span(clip, insets@, t).1
                        - row_span(clip, insets@, t).0 && 0 <= c < 4 ==> st.bytes@[packed_before(
                        clip,
                        insets@,
                        t as nat,
                    ).1 + 4 * j + c] == #[trigger] bgra_byte(
                        pixels@[(clip.y0 + t) * width + (row_span(clip, insets@, t).1 - 1 - j)],
                        c,
                    )
            },
    {
        if clip.x0 >= clip.x1 || clip.y0 >= clip.y1 {
            return None;
        }
        let n = clip.y1 - clip.y0;
        let mut bytes: Vec<u8> = Vec::new();
        let mut rows: Vec<StampRow> = Vec::new();
        let mut t: usize = 0;
        while t < n
            invariant
                n == clip.y1 - clip.y0,
                clip.x0 < clip.x1 <= width,
                clip.y0 < clip.y1 <= height,
                insets@.len() == n,
                forall|u: int| 0 <= u < insets@.len() ==> #[trigger] insets@[u] <= clip.x1,
                pixels@.len() == width * height,
                width * height * 4 <= usize::MAX,
                height * stride + width * bpp <= usize::MAX,
                t <= n,
                rows@.len() == packed_before(clip, insets@, t as nat).0,
                bytes@.len() == packed_before(clip, insets@, t as nat).1,
                packed_before(clip, insets@, t as nat).1 <= 4 * width * t,
                forall|u: int|
                    0 <= u < t && row_kept(clip, insets@, u) ==> rows@[packed_before(
                        clip,
                        insets@,
                        u as nat,
                    ).0 as int] == #[trigger] packed_row(
                        clip,
                        insets@,
                        width as int,
                        height as int,
                        bpp as int,
                        stride as int,
                        u,
                    ),
                forall|u: int, j: int, c: int|
                    0 <= u < t && row_kept(clip, insets@, u) && 0 <= j < row_span(clip, insets@, u).1
                        - row_span(clip, insets@, u).0 && 0 <= c < 4 ==> bytes@[packed_before(
                        clip,
                        insets@,
                        u as nat,
                    ).1 + 4 * j + c] == #[trigger] bgra_byte(
                        pixels@[(clip.y0 + u) * width + (row_span(clip, insets@, u).1 - 1 - j)],
                        c,
                    ),
            decreases n - t,
        {
            let y = clip.y0 + t;
            assert(width * 4 <= width * height * 4) by (nonlinear_arith)
                requires
                    height >= 1,
            ;
            let lo = clip.x0 + insets[t];
            let hi = clip.x1 - insets[t];
            if lo < hi {
                let start = bytes.len();
                assert(start + 4 * (hi - lo) <= 4 * width * (t + 1)) by (nonlinear_arith)
                    requires
                        start <= 4 * width * t,
                        hi - lo <= width,
                ;
                let ghost before_row = bytes@;
                let mut x = hi;
                while x > lo
                    invariant
                        lo < hi <= width,
                        y < height,
                        lo <= x <= hi,
                        start == before_row.len(),
                        pixels@.len() == width * height,
                        width * height * 4 <= usize::MAX,
                        start + 4 * (hi - lo) <= 4 * width * (t + 1),
                        t < n,
                        bytes@.len() == start + 4 * (hi - x),
                        bytes@.subrange(0, start as int) == before_row,
                        forall|j: int, c: int|
                            0 <= j < hi - x && 0 <= c < 4 ==> bytes@[start + 4 * j + c]
                                == #[trigger] bgra_byte(pixels@[y * width + (hi - 1 - j)], c),
                    decreases x - lo,
                {
                    x = x - 1;
                    assert(y * width + x < width * height) by (nonlinear_arith)
                        requires
                            x < width,
                            y < height,
                    ;
                    let p = pixels[y * width + x];
                    let ghost mid = bytes@;
                    bytes.push(p[2]);
                    bytes.push(p[1]);
                    bytes.push(p[0]);
                    bytes.push(p[3]);
                    proof {
                        assert forall|j: int, c: int| 0 <= j < hi - x && 0 <= c < 4 implies bytes@[start
                            + 4 * j + c] == #[trigger] bgra_byte(pixels@[y * width + (hi - 1 - j)], c) by {
                            if j < hi - x - 1 {
                                assert(bytes@[start + 4 * j + c] == mid[start + 4 * j + c]);
                            } else {
                                assert(hi - 1 - j == x);
                            }
                        }
                        assert(bytes@.subrange(0, start as int) =~= before_row);
                    }
                }
                let fb_y = height - 1 - y;
                let fb_x0 = width - hi;
                assert(fb_y * stride + fb_x0 * bpp <= height * stride + width * bpp) by (nonlinear_arith)
                    requires
                        fb_y < height,
                        fb_x0 <= width,
                ;
                rows.push(StampRow { offset: fb_y * stride + fb_x0 * bpp, start, len: bytes.len() - start });
                proof {
                    assert(packed_before(clip, insets@, (t + 1) as nat).1 == start + 4 * (hi - lo));
                    assert forall|u: int, j: int, c: int|
                        0 <= u < t + 1 && row_kept(clip, insets@, u) && 0 <= j < row_span(clip, insets@, u).1
                            - row_span(clip, insets@, u).0 && 0 <= c < 4 implies bytes@[packed_before(
                            clip,
                            insets@,
                            u as nat,
                        ).1 + 4 * j + c] == #[trigger] bgra_byte(
                            pixels@[(clip.y0 + u) * width + (row_span(clip, insets@, u).1 - 1 - j)],
                            c,
                        ) by {
                        if u < t {
                            lemma_packed_before_grows(clip, insets@, (u + 1) as nat, t as nat);
                            assert(packed_before(clip, insets@, u as nat).1 + 4 * (row_span(
                                clip,
                                insets@,
                                u,
                            ).1 - row_span(clip, insets@, u).0) <= start);
                            assert(bytes@[packed_before(clip, insets@, u as nat).1 + 4 * j + c]
                                == before_row[packed_before(clip, insets@, u as nat).1 + 4 * j + c]);
                        }
                    }
                    assert forall|u: int|
                        0 <= u < t + 1 && row_kept(clip, insets@, u) implies rows@[packed_before(
                            clip,
                            insets@,
                            u as nat,
                        ).0 as int] == #[trigger] packed_row(
                            clip,
                            insets@,
                            width as int,
                            height as int,
                            bpp as int,
                            stride as int,
                            u,
                        ) by {
                        if u < t {
                            lemma_packed_before_grows(clip, insets@, (u + 1) as nat, t as nat);
                        }
                    }
                }
            } else {
                proof {
                    assert(4 * width * t <= 4 * width * (t + 1)) by (nonlinear_arith);
                    assert forall|u: int|
                        0 <= u < t + 1 && row_kept(clip, insets@, u) implies rows@[packed_before(
                            clip,
                            insets@,
                            u as nat,
                        ).0 as int] == #[trigger] packed_row(
                            clip,
                            insets@,
                            width as int,
                            height as int,
                            bpp as int,
                            stride as int,
                            u,
                        ) by {}
                }
            }
            t += 1;
        }
        if rows.len() == 0 {
            return None;
        }
        let h = if height < 1 {
            1
        } else {
            height
        };
        let q = yres_virtual / h;
        let pages = if q < 1 {
            1
        } else if q > 3 {
            3
        } else {
            q
        };
        assert(stride * height <= usize::MAX) by (nonlinear_arith)
            requires
                height * stride + width * bpp <= usize::MAX,
        ;
        Some(Stamp { bytes, rows, pages, page_stride: stride * height })
    }
}

/// The frame after `row` of a stamp is copied into the page starting at byte `base`: its bytes
/// over the frame's from `base + row.offset`, when the whole row fits in the frame; otherwise the
/// frame as it was.
pub open spec fn row_copied(frame: Seq<u8>, bytes: Seq<u8>, row: StampRow, base: int) -> Seq<u8> {
    let at = base + row.offset;
    if at + row.len <= frame.len() {
        Seq::new(
            frame.len(),
            |k: int|
                if at <= k < at + row.len {
                    bytes[row.start + (k - at)]
                } else {
                    frame[k]
                },
        )
    } else {
        frame
    }
}

/// The frame after the first `n` rows are copied, in order, into the page starting at `base`.
pub open spec fn rows_copied(frame: Seq<u8>, bytes: Seq<u8>, rows: Seq<StampRow>, base: int, n: nat) -> Seq<u8>
    decreases n,
{
    if n == 0 {
        frame
    } else {
        row_copied(rows_copied(frame, bytes, rows, base, (n - 1) as nat), bytes, rows[n - 1], base)
    }
}

/// The frame after every row is copied into each of the first `p` pages, `stride` bytes apart.
pub open spec fn pages_copied(frame: Seq<u8>, bytes: Seq<u8>, rows: Seq<StampRow>, stride: int, p: nat) -> Seq<u8>
    decreases p,
{
    if p == 0 {
        frame
    } else {
        rows_copied(
            pages_copied(frame, bytes, rows, stride, (p - 1) as nat),
            bytes,
            rows,
            (p - 1) * stride,
            rows.len(),
        )
    }
}

impl Stamp {
    /// Paints the stamp into every page of the frame, row by row; a row that would run past the
    /// end of the frame is skipped. See [`pages_copied`].
    pub fn blit(&self, frame: &mut Vec<u8>)
        requires
            forall|i: int| 0 <= i < self.rows@.len() ==> #[trigger] self.rows@[i].start + self.rows@[i].len
                <= self.bytes@.len(),
            self.pages >= 1 ==> (self.pages - 1) * self.page_stride <= usize::MAX,
            self.pages >= 1 ==> forall|i: int|
                0 <= i < self.rows@.len() ==> (self.pages - 1) * self.page_stride + #[trigger] self.rows@[i].offset
                    + self.rows@[i].len <= usize::MAX,
        ensures
            final(frame)@ == pages_copied(
                old(frame)@,
                self.bytes@,
                self.rows@,
                self.page_stride as int,
                self.pages as nat,
            ),
    {
        // The stamp's length fits a usize, which bounds the copying below
        let _byte_count = self.bytes.len();
        let mut page: usize = 0;
        while page < self.pages
            invariant
                page <= self.pages,
                self.bytes@.len() <= usize::MAX,
                self.pages >= 1 ==> (self.pages - 1) * self.page_stride <= usize::MAX,
                forall|i: int| 0 <= i < self.rows@.len() ==> #[trigger] self.rows@[i].start
                    + self.rows@[i].len <= self.bytes@.len(),
                self.pages >= 1 ==> forall|i: int|
                    0 <= i < self.rows@.len() ==> (self.pages - 1) * self.page_stride
                        + #[trigger] self.rows@[i].offset + self.rows@[i].len <= usize::MAX,
                frame@ == pages_copied(
                    old(frame)@,
                    self.bytes@,
                    self.rows@,
                    self.page_stride as int,
                    page as nat,
                ),
            decreases self.pages - page,
        {
            assert(page * self.page_stride <= (self.pages - 1) * self.page_stride) by (nonlinear_arith)
                requires
                    page < self.pages,
            ;
            let ghost start_of_page = frame@;
            let base = page * self.page_stride;
            let mut r: usize = 0;
            while r < self.rows.len()
                invariant
                    page < self.pages,
                    base == page * self.page_stride,
                    base <= (self.pages - 1) * self.page_stride,
                    self.bytes@.len() <= usize::MAX,
                    r <= self.rows@.len(),
                    forall|i: int| 0 <= i < self.rows@.len() ==> #[trigger] self.rows@[i].start
                        + self.rows@[i].len <= self.bytes@.len(),
                    forall|i: int|
                        0 <= i < self.rows@.len() ==> (self.pages - 1) * self.page_stride
                            + #[trigger] self.rows@[i].offset + self.rows@[i].len <= usize::MAX,
                    frame@ == rows_copied(start_of_page, self.bytes@, self.rows@, base as int, r as nat),
                decreases self.rows@.len() - r,
            {
                let row = self.rows[r];
                assert(self.rows@[r as int].start + self.rows@[r as int].len <= self.bytes@.len());
                let at = base + row.offset;
                let ghost before_row = frame@;
                if at + row.len <= frame.len() {
                    let mut i: usize = 0;
                    while i < row.len
                        invariant
                            i <= row.len,
                            at + row.len <= frame@.len(),
                            at + row.len <= usize::MAX,
                            row.start + row.len <= self.bytes@.len(),
                            self.bytes@.len() <= usize::MAX,
                            frame@.len() == before_row.len(),
                            forall|k: int|
                                0 <= k < frame@.len() ==> #[trigger] frame@[k] == if at <= k < at + i {
                                    self.bytes@[row.start + (k - at)]
                                } else {
                                    before_row[k]
                                },
                        decreases row.len - i,
                    {
                        frame.set(at + i, self.bytes[row.start + i]);
                        i += 1;
                    }
                    assert(frame@ =~= row_copied(before_row, self.bytes@, row, base as int));
                }
                r += 1;
            }
            page += 1;
        }
    }
}

/// Moves the page the app left showing, `size` bytes from `location`, to the front of the frame,
/// where drawing assumes the visible page starts; bytes past the first `size` are as they were.
pub fn page_to_front(frame: &mut Vec<u8>, location: usize, size: usize)
    requires
        location + size <= old(frame)@.len(),
    ensures
        final(frame)@.len() == old(frame)@.len(),
        forall|k: int|
            0 <= k < old(frame)@.len() ==> #[trigger] final(frame)@[k] == if k < size {
                old(frame)@[location + k]
            } else {
                old(frame)@[k]
            },
{
    let ghost before = frame@;
    // The frame's length fits a usize, which bounds the indices below
    let _frame_len = frame.len();
    let mut k: usize = 0;
    while k < size
        invariant
            k <= size,
            location + size <= before.len(),
            before.len() <= usize::MAX,
            frame@.len() == before.len(),
            forall|i: int|
                0 <= i < before.len() ==> #[trigger] frame@[i] == if i < k {
                    before[location + i]
                } else {
                    before[i]
                },
        decreases size - k,
    {
        let b = frame[location + k];
        assert(b == before[location + k]);
        frame.set(k, b);
        k += 1;
    }
}

} // verus!
