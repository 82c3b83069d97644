use ze2::framebuffer::{
    scrollbar_layout, Attributes, Framebuffer, IndexedColor, ScrollbarLayout, INDEXED_COLORS_COUNT,
};
use ze2::helpers::{Point, Rect, Size};
use ze2::oklab::StraightRgba;

#[test]
fn attributes_combine_and_test_bits() {
    let both = Attributes::bold() | Attributes::italic();
    assert_eq!(both, Attributes(3));
    assert!(both.is(Attributes::bold()));
    assert!(both.is(Attributes::italic()));
    assert!(!both.is(Attributes::underlined()));
    assert!(both.is(Attributes::none()));
    assert_eq!(both ^ Attributes::bold(), Attributes::italic());
    assert_eq!(Attributes::all(), Attributes(15));
    assert_eq!(Attributes::strikethrough(), Attributes(8));
}

#[test]
fn indexed_colors_from_bytes_use_the_low_nibble() {
    assert_eq!(IndexedColor::from(0u8), IndexedColor::Black);
    assert_eq!(IndexedColor::from(0x13u8), IndexedColor::Yellow);
    assert_eq!(IndexedColor::from(15u8), IndexedColor::BrightWhite);
    assert_eq!(IndexedColor::Foreground.index(), 17);
    assert_eq!(INDEXED_COLORS_COUNT, 18);
}

#[test]
fn default_palette_and_fills() {
    let fb = Framebuffer::new();
    assert_eq!(fb.indexed(IndexedColor::Red), StraightRgba::from_be(0xbe2c21ff));
    assert_eq!(fb.indexed(IndexedColor::Background), StraightRgba::from_be(0x000000ff));
    assert_eq!(fb.background_fill, fb.indexed(IndexedColor::Background));
    assert_eq!(fb.foreground_fill, fb.indexed(IndexedColor::Foreground));
    let half = fb.indexed_alpha(IndexedColor::BrightWhite, 1, 2);
    assert_eq!(half.alpha(), 127);
    assert_eq!(half.red(), 255);
}

#[test]
fn flip_blanks_the_back_frame() {
    let mut fb = Framebuffer::new();
    fb.flip(Size { width: 4, height: 3 });
    assert_eq!(fb.frame_counter, 1);
    let back = fb.back();
    assert_eq!(back.text.lines.len(), 3);
    assert!(back.text.lines.iter().all(|l| l == b"    "));
    assert!(back.bg_bitmap.data.iter().all(|c| *c == fb.background_fill));
    assert!(back.fg_bitmap.data.iter().all(|c| *c == fb.foreground_fill));
    assert!(back.attributes.data.iter().all(|a| *a == Attributes::none()));
    assert_eq!(back.cursor.pos, Point { x: -1, y: -1 });
    // The shown frame was rebuilt and marked for a full redraw.
    let front = fb.front();
    assert!(front.fg_bitmap.data.iter().all(|c| *c == StraightRgba::from_le(1)));
    assert_eq!(front.cursor.pos, Point { x: isize::MIN, y: isize::MIN });

    // Same size: the old back frame becomes the front one.
    fb.set_cursor(Point { x: 2, y: 1 }, true);
    fb.flip(Size { width: 4, height: 3 });
    assert_eq!(fb.front().cursor.pos, Point { x: 2, y: 1 });
    assert!(fb.front().cursor.overtype);
    assert_eq!(fb.back().cursor.pos, Point { x: -1, y: -1 });
}

#[test]
fn attributes_and_colors_change_only_inside_the_target() {
    let mut fb = Framebuffer::new();
    fb.flip(Size { width: 4, height: 3 });
    let red = StraightRgba::from_be(0xff0000ff);
    let blue = StraightRgba::from_be(0x0000ffff);
    fb.replace_attr(Rect { left: 1, top: 1, right: 3, bottom: 9 }, Attributes::all(), Attributes::bold());
    fb.replace_attr(Rect { left: 0, top: 0, right: 2, bottom: 3 }, Attributes::none(), Attributes::italic());
    fb.fill_bg(Rect { left: -5, top: 0, right: 1, bottom: 1 }, red);
    fb.fill_fg(Rect { left: 3, top: 2, right: 9, bottom: 9 }, blue);
    let back = fb.back();
    let attr = |x: usize, y: usize| back.attributes.data[y * 4 + x];
    assert_eq!(attr(0, 0), Attributes::italic());
    assert_eq!(attr(1, 1), Attributes(3));
    assert_eq!(attr(2, 2), Attributes::bold());
    assert_eq!(attr(3, 1), Attributes::none());
    assert_eq!(attr(3, 0), Attributes::none());
    assert_eq!(back.bg_bitmap.data[0], red);
    assert_eq!(back.bg_bitmap.data[1], fb.background_fill);
    assert_eq!(back.fg_bitmap.data[11], blue);
    assert_eq!(back.fg_bitmap.data[10], fb.foreground_fill);

    let bg = fb.background_fill;
    let fg = fb.foreground_fill;
    fb.reverse(Rect { left: 0, top: 0, right: 2, bottom: 1 });
    let back = fb.back();
    assert_eq!(back.bg_bitmap.data[0], fg);
    assert_eq!(back.fg_bitmap.data[0], red);
    assert_eq!(back.bg_bitmap.data[1], fg);
    assert_eq!(back.fg_bitmap.data[1], bg);
    assert_eq!(back.bg_bitmap.data[2], bg);
}

#[test]
fn scrollbar_thumb_follows_the_offset() {
    let track = Rect { left: 10, top: 0, right: 11, bottom: 10 };
    assert_eq!(
        scrollbar_layout(track, track, 0, 100),
        Some(ScrollbarLayout {
            track,
            thumb_top: 0,
            thumb_bottom: 1,
            top_fract: 0,
            bottom_fract: 0,
            thumb_rows: 1,
        })
    );
    assert_eq!(
        scrollbar_layout(track, track, 45, 100),
        Some(ScrollbarLayout {
            track,
            thumb_top: 5,
            thumb_bottom: 5,
            top_fract: 4,
            bottom_fract: 4,
            thumb_rows: 1,
        })
    );
    // An offset beyond the end is clamped: the thumb sits at the bottom.
    let end = scrollbar_layout(track, track, 1000, 100).unwrap();
    assert_eq!((end.thumb_top, end.thumb_bottom), (9, 10));
    // Content that fits needs no scrollbar; neither does a clipped-away track.
    assert_eq!(scrollbar_layout(track, track, 0, 5), None);
    assert_eq!(scrollbar_layout(Rect { left: 0, top: 0, right: 5, bottom: 5 }, track, 0, 100), None);
    // Half the content visible: a thumb of half the track.
    let half = scrollbar_layout(track, track, 0, 20).unwrap();
    assert_eq!(half.thumb_rows, 5);
    assert_eq!((half.thumb_top, half.thumb_bottom), (0, 5));
}
