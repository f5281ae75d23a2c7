//! Cursors, the diagnostics panel and window borders.

use shoestring_wm::cursor::load_named;
use shoestring_wm::cursor::nearest_frame;
use shoestring_wm::cursor::Cursor;
use shoestring_wm::cursor::Frame;
use shoestring_wm::cursor::DEFAULT_ICON;
use shoestring_wm::cursor::DEFAULT_SIZE;
use shoestring_wm::decorations::border_elements;
use shoestring_wm::decorations::ring_rects;
use shoestring_wm::diag_overlay::blit_alpha;
use shoestring_wm::diag_overlay::diag_overlay_max_rows;
use shoestring_wm::diag_overlay::fill;
use shoestring_wm::diag_overlay::rasterize;
use shoestring_wm::diag_overlay::DiagOverlay;
use shoestring_wm::diag_overlay::Glyph;
use shoestring_wm::diag_overlay::Panel;
use shoestring_wm::diag_overlay::PADDING;
use shoestring_wm::geometry::rect;
use shoestring_wm::geometry::Point;
use shoestring_wm::geometry::Size;
use shoestring_wm::layout::Placed;
use shoestring_wm::layout::Space;
use shoestring_wm::layout::Window;

/// A cursor file with one image of four by four pixels, half clear.
fn cursor_file() -> Vec<u8> {
    let mut f: Vec<u8> = Vec::new();
    let words: [u32; 16] = [
        // header
        0x7275_6358, 16, 0x1_0000, 1, // table of contents
        0xfffd_0002, 4, 28, // image
        36, 0xfffd_0002, 4, 1, 4, 4, 1, 1, 1,
    ];
    for w in words {
        f.extend_from_slice(&w.to_le_bytes());
    }
    for _ in 0..16 {
        f.extend_from_slice(&0x8000_0000u32.to_le_bytes());
    }
    f
}

#[test]
fn cursor_file_is_read() {
    let frames = load_named(&vec![None, Some(cursor_file())]).unwrap();
    assert_eq!(frames.len(), 1);
    assert_eq!(
        (frames[0].size, frames[0].width, frames[0].height),
        (4, 4, 4)
    );
    assert_eq!(
        (frames[0].xhot, frames[0].yhot, frames[0].delay),
        (1, 1, 1)
    );
    assert_eq!(frames[0].pixels_rgba.len(), 64);
    assert_eq!(frames[0].pixels_rgba[..4].to_vec(), vec![0, 0, 0, 128]);
    assert!(load_named(&vec![None, None]).is_none());
    assert!(load_named(&vec![Some(b"no cursor".to_vec())]).is_none());
}

fn frame(size: u32, delay: u32) -> Frame {
    Frame {
        size,
        width: size,
        height: size,
        xhot: 0,
        yhot: 0,
        delay,
        pixels_rgba: Vec::new(),
    }
}

#[test]
fn animation_goes_round() {
    let frames = vec![frame(24, 10), frame(48, 99), frame(24, 20), frame(24, 30)];
    // Three frames of one size take sixty milliseconds.
    assert_eq!(nearest_frame(20, 0, &frames), 0);
    assert_eq!(nearest_frame(20, 9, &frames), 0);
    assert_eq!(nearest_frame(20, 10, &frames), 2);
    assert_eq!(nearest_frame(20, 30, &frames), 3);
    for t in 0..60 {
        assert_eq!(
            nearest_frame(20, t, &frames),
            nearest_frame(20, t + 60, &frames)
        );
    }
    assert_eq!(nearest_frame(47, 500, &frames), 1);
}

#[test]
fn still_frames_show_the_first() {
    let frames = vec![frame(24, 0), frame(24, 0)];
    assert_eq!(nearest_frame(24, 1234, &frames), 0);
}

#[test]
fn missing_icon_shows_the_default_one() {
    let (mut c, theme) = Cursor::load(Some("Adwaita".to_string()), Some("32"));
    assert_eq!(theme, "Adwaita");
    assert_eq!(c.size, 32);
    let (plain, name) = Cursor::load(None, Some("big"));
    assert_eq!((plain.size, name.as_str()), (DEFAULT_SIZE, "default"));
    assert!(c.missing(DEFAULT_ICON));
    assert_eq!(c.frame_to_show(5, 1, 0), None);
    c.store(DEFAULT_ICON, &vec![Some(cursor_file())]);
    c.store(5, &vec![None]);
    assert!(!c.missing(5));
    assert_eq!(c.frame_to_show(5, 1, 0), Some((DEFAULT_ICON, 0)));
    assert_eq!(c.frame_to_show(DEFAULT_ICON, 2, 77), Some((DEFAULT_ICON, 0)));
}

#[test]
fn rasterize_produces_a_padded_panel() {
    // Four lines of a text that is two hundred pixels wide at this size, with
    // one mark of full coverage.
    let mark = Glyph {
        x: 2 * PADDING,
        y: 2 * PADDING,
        width: 2,
        height: 1,
        coverage: vec![255, 255],
    };
    let p: Panel = rasterize(
        200,
        18,
        4,
        2,
        &vec![mark],
        [224, 224, 224, 255],
        [28, 31, 38, 224],
    );
    let (w, h, px) = (p.width, p.height, p.pixels);
    assert!(
        w > 2 * (PADDING * 2) as u32,
        "panel wider than padding: {w}"
    );
    assert!(
        h > 2 * (PADDING * 2) as u32,
        "panel taller than padding: {h}"
    );
    assert_eq!(px.len() as u32, w * h * 4);
    // The background is translucent (alpha 224), so corner pixels carry
    // that exact alpha — proof the fill + premultiply ran.
    assert_eq!(px[3], 224, "top-left pixel keeps the background alpha");
    // The colour scaled by 224 / 255 and cut off, in blue, green, red.
    assert_eq!(px[..3].to_vec(), vec![33, 27, 24]);
    let at = ((2 * PADDING as u32 * w + 2 * PADDING as u32) * 4) as usize;
    assert_eq!(px[at], 224);
}

#[test]
fn glyphs_are_clipped_to_the_panel() {
    let mut buf = fill(2, 1, [0, 0, 0, 255]);
    assert_eq!(buf, vec![0, 0, 0, 255, 0, 0, 0, 255]);
    let g = Glyph {
        x: -1,
        y: 0,
        width: 2,
        height: 2,
        coverage: vec![255, 255, 255, 255],
    };
    blit_alpha(&mut buf, 2, 1, &g, [100, 0, 0, 255]);
    assert_eq!(buf[0], 100);
    assert_eq!(buf[4], 0);
}

#[test]
fn panel_rows_fit_the_output() {
    let rows = diag_overlay_max_rows(Some(1080), 18);
    assert!(rows as i32 * 18 <= 1080);
    assert!(rows > 40);
    assert!(diag_overlay_max_rows(Some(1), 18) >= 1);
    assert_eq!(
        diag_overlay_max_rows(None, 18),
        diag_overlay_max_rows(Some(720), 18)
    );
}

#[test]
fn panel_is_drawn_anew_for_another_text_or_scale() {
    let mut o = DiagOverlay::default();
    // Without a font there is nothing to draw.
    assert!(o.wants_font());
    assert!(!o.wants("x", 1));
    o.ensure_font(true);
    assert!(!o.wants_font());
    assert!(o.wants("x", 1));
    assert_eq!(o.element(1), None);
    o.update(
        "x".to_string(),
        1,
        Panel {
            width: 1,
            height: 1,
            pixels: vec![0; 4],
        },
    );
    assert!(!o.wants("x", 1));
    assert!(o.wants("y", 1));
    assert!(o.wants("x", 2));
    assert_eq!(o.element(2), Some(Point { x: 16, y: 16 }));
}

#[test]
fn ring_and_inside_make_up_the_frame() {
    let bars = ring_rects(rect(10, 20, 100, 50), 3).unwrap();
    let area: i64 = bars.iter().map(|b| b.size.w as i64 * b.size.h as i64).sum();
    assert_eq!(area, 100 * 50 - 94 * 44);
    assert!(bars.contains(&rect(10, 20, 100, 3)));
    assert_eq!(ring_rects(rect(0, 0, 5, 50), 3), None);
    assert_eq!(ring_rects(rect(0, 0, 100, 50), 0), None);
}

#[test]
fn borders_stand_around_windows_of_the_output() {
    let space = Space {
        elements: vec![
            Placed {
                window: Window {
                    id: 1,
                    size: Size { w: 100, h: 100 },
                },
                loc: Point { x: 10, y: 10 },
                outputs: vec![1],
            },
            Placed {
                window: Window {
                    id: 2,
                    size: Size { w: 100, h: 100 },
                },
                loc: Point { x: 5000, y: 10 },
                outputs: vec![2],
            },
        ],
        outputs: Vec::new(),
    };
    let all = border_elements(&space, Some(rect(0, 0, 1920, 1080)), Some(1), 2);
    assert_eq!(all.len(), 1);
    assert_eq!(all[0].window, 1);
    assert!(all[0].focused);
    // An output without a place leaves no window out.
    assert_eq!(border_elements(&space, None, Some(1), 2).len(), 2);
    assert!(border_elements(&space, None, Some(1), 0).is_empty());
    assert!(border_elements(&space, None, Some(1), -1).is_empty());
}

#[test]
fn bytes_behind_the_picture_are_kept() {
    let mut buf = fill(2, 1, [0, 0, 0, 255]);
    buf.extend_from_slice(&[9, 8, 7]);
    let g = Glyph {
        x: 1,
        y: 0,
        width: 1,
        height: 1,
        coverage: vec![255],
    };
    blit_alpha(&mut buf, 2, 1, &g, [100, 0, 0, 255]);
    assert_eq!(buf, vec![0, 0, 0, 255, 100, 0, 0, 255, 9, 8, 7]);
    // A picture without width has nothing to draw on.
    let mut none = vec![1, 2, 3, 4];
    blit_alpha(&mut none, 0, 1, &g, [100, 0, 0, 255]);
    assert_eq!(none, vec![1, 2, 3, 4]);
}
