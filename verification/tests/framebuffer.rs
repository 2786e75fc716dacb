use allium::framebuffer::{
    clip_rect, frame_index, page_to_front, pre_scanout, read_frame_rect, restore_rect, stamp_due,
    vblank_period_ok, write_rect_at, Clip, Stamp, StampRow,
};
use allium::menu::Rect;

#[test]
fn rects_are_clipped_to_the_screen() {
    let c = clip_rect(Rect { x: -5, y: 10, w: 20, h: 500 }, 640, 480);
    assert_eq!(c, Clip { x0: 0, y0: 10, x1: 15, y1: 480 });
    let off = clip_rect(Rect { x: -50, y: -50, w: 10, h: 10 }, 640, 480);
    assert_eq!((off.x1, off.y1), (0, 0));
}

#[test]
fn the_panel_is_upside_down() {
    // The top-left pixel is the frame's last, the bottom-right its first
    assert_eq!(frame_index(0, 4, 3, 4, 0, 0), (2 * 4 + 3) * 4);
    assert_eq!(frame_index(0, 4, 3, 4, 3, 2), 0);
    assert_eq!(frame_index(100, 4, 3, 4, 3, 2), 100);
}

#[test]
fn only_a_blocking_vblank_counts() {
    assert!(!vblank_period_ok(1_000_000));
    assert!(vblank_period_ok(16_666_666));
    assert!(!vblank_period_ok(50_000_000));
}

#[test]
fn the_sweep_ends_where_the_panel_reaches_the_rect() {
    // A rect at the bottom of an upside-down panel is scanned first
    assert_eq!(pre_scanout(16_000_000, 480, 480), 0);
    assert_eq!(pre_scanout(16_000_000, 480, 240), 8_000_000);
    assert_eq!(pre_scanout(16_000_000, 480, -10), 16_000_000);
}

#[test]
fn the_stamper_repaints_on_a_flip_or_the_floor() {
    assert!(stamp_due(Some(true), 0));
    assert!(!stamp_due(Some(false), 1_000_000));
    assert!(stamp_due(None, 8_000_000));
}

fn numbered() -> Vec<[u8; 4]> {
    vec![[1, 2, 3, 4], [5, 6, 7, 8], [9, 10, 11, 12], [13, 14, 15, 16]]
}

#[test]
fn pixels_land_upside_down_in_bgra_order() {
    let mut frame = vec![0u8; 16];
    let rect = Rect { x: 0, y: 0, w: 2, h: 2 };
    write_rect_at(&mut frame, &numbered(), 2, 2, 4, 0, 0, rect);
    assert_eq!(frame, vec![15, 14, 13, 16, 11, 10, 9, 12, 7, 6, 5, 8, 3, 2, 1, 4]);
}

#[test]
fn only_the_part_on_screen_is_written() {
    let mut frame = vec![0u8; 16];
    let rect = Rect { x: -1, y: 0, w: 2, h: 1 };
    write_rect_at(&mut frame, &numbered(), 2, 2, 4, 0, 0, rect);
    assert_eq!(frame, vec![0, 0, 0, 0, 0, 0, 0, 0, 0, 0, 0, 0, 3, 2, 1, 4]);
}

#[test]
fn a_frame_too_short_for_the_page_is_left_alone() {
    let mut frame = vec![9u8; 16];
    let rect = Rect { x: 0, y: 0, w: 2, h: 2 };
    write_rect_at(&mut frame, &numbered(), 2, 2, 4, 0, 1, rect);
    assert_eq!(frame, vec![9u8; 16]);
}

#[test]
fn the_second_page_starts_a_screen_further_on() {
    let mut frame = vec![0u8; 32];
    let rect = Rect { x: 0, y: 0, w: 1, h: 1 };
    write_rect_at(&mut frame, &numbered(), 2, 2, 4, 0, 2, rect);
    assert_eq!(&frame[28..32], &[3, 2, 1, 4]);
    assert!(frame[..28].iter().all(|b| *b == 0));
}

#[test]
fn reading_back_what_was_written_gives_the_pixels() {
    let mut frame = vec![0u8; 16];
    let rect = Rect { x: 0, y: 0, w: 2, h: 2 };
    write_rect_at(&mut frame, &numbered(), 2, 2, 4, 0, 0, rect);
    let mut pixels = vec![[0u8; 4]; 4];
    read_frame_rect(&mut pixels, &frame, 2, 2, 4, 0, 0, rect);
    assert_eq!(pixels, numbered());
}

#[test]
fn a_restore_is_cut_to_the_screen() {
    let mut pixels = vec![[0u8; 4]; 4];
    restore_rect(&mut pixels, &numbered(), 2, 2, Rect { x: 1, y: 0, w: 5, h: 1 });
    assert_eq!(pixels, vec![[0, 0, 0, 0], [5, 6, 7, 8], [0, 0, 0, 0], [0, 0, 0, 0]]);
    let mut pixels = vec![[0u8; 4]; 4];
    restore_rect(&mut pixels, &numbered(), 2, 2, Rect { x: 0, y: 1, w: 2, h: 1 });
    assert_eq!(pixels, vec![[0, 0, 0, 0], [0, 0, 0, 0], [9, 10, 11, 12], [13, 14, 15, 16]]);
}

fn full() -> Clip {
    Clip { x0: 0, y0: 0, x1: 2, y1: 2 }
}

#[test]
fn a_stamp_packs_rows_in_frame_order() {
    let stamp = Stamp::pack(&numbered(), 2, 2, 4, 8, 4, full(), &vec![0, 0]).unwrap();
    assert_eq!(stamp.bytes, vec![7, 6, 5, 8, 3, 2, 1, 4, 15, 14, 13, 16, 11, 10, 9, 12]);
    assert_eq!(
        stamp.rows,
        vec![
            StampRow { offset: 8, start: 0, len: 8 },
            StampRow { offset: 0, start: 8, len: 8 },
        ]
    );
    assert_eq!((stamp.pages, stamp.page_stride), (2, 16));
}

#[test]
fn a_stamp_paints_every_page_as_a_write_would() {
    let stamp = Stamp::pack(&numbered(), 2, 2, 4, 8, 4, full(), &vec![0, 0]).unwrap();
    let mut frame = vec![0u8; 32];
    stamp.blit(&mut frame);
    let page = vec![15, 14, 13, 16, 11, 10, 9, 12, 7, 6, 5, 8, 3, 2, 1, 4];
    assert_eq!(&frame[..16], &page[..]);
    assert_eq!(&frame[16..], &page[..]);
}

#[test]
fn rows_past_the_end_of_the_frame_are_skipped() {
    let stamp = Stamp::pack(&numbered(), 2, 2, 4, 8, 4, full(), &vec![0, 0]).unwrap();
    let mut frame = vec![0u8; 20];
    stamp.blit(&mut frame);
    assert_eq!(&frame[..16], &[15, 14, 13, 16, 11, 10, 9, 12, 7, 6, 5, 8, 3, 2, 1, 4]);
    assert_eq!(&frame[16..], &[0, 0, 0, 0]);
}

#[test]
fn trimmed_rows_are_left_out() {
    let stamp = Stamp::pack(&numbered(), 2, 2, 4, 8, 2, full(), &vec![1, 0]).unwrap();
    assert_eq!(stamp.rows, vec![StampRow { offset: 0, start: 0, len: 8 }]);
    assert_eq!(stamp.pages, 1);
    assert!(Stamp::pack(&numbered(), 2, 2, 4, 8, 2, full(), &vec![1, 1]).is_none());
    let empty = Clip { x0: 1, y0: 0, x1: 1, y1: 2 };
    assert!(Stamp::pack(&numbered(), 2, 2, 4, 8, 2, empty, &vec![0, 0]).is_none());
}

#[test]
fn the_showing_page_moves_to_the_front() {
    let mut frame: Vec<u8> = (0..12).collect();
    page_to_front(&mut frame, 4, 6);
    assert_eq!(frame, vec![4, 5, 6, 7, 8, 9, 6, 7, 8, 9, 10, 11]);
}
