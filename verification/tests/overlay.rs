//! The diagnostics panel and window borders.

use shoestring_wm::decorations::ring_rects;
use shoestring_wm::diag_overlay::format_metrics;
use shoestring_wm::diag_overlay::premultiply_to_bgra;
use shoestring_wm::diag_overlay::DiagOverlay;
use shoestring_wm::diag_overlay::MetricValue;
use shoestring_wm::diag_overlay::Panel;
use shoestring_wm::geometry::rect;

fn snap() -> Vec<(String, MetricValue)> {
    vec![
        ("render.fps".into(), MetricValue::Gauge { value: 60 }),
        (
            "render.frames_total".into(),
            MetricValue::Counter { value: 1234 },
        ),
        ("wm.windows".into(), MetricValue::Gauge { value: 3 }),
    ]
}

#[test]
fn format_includes_title_and_each_metric() {
    let text = format_metrics(&snap(), 100);
    let lines: Vec<&str> = text.lines().collect();
    assert_eq!(lines[0], "shoestring-wm diagnostics");
    // In the order of the names: render.fps, render.frames_total, wm.windows.
    assert_eq!(lines[1], "render.fps = 60");
    assert_eq!(lines[2], "render.frames_total = 1234");
    assert_eq!(lines[3], "wm.windows = 3");
    assert_eq!(lines.len(), 4);
}

#[test]
fn format_clips_to_max_rows_with_more_note() {
    // 1 title + 3 metrics = 4 lines, clipped to 3 → 2 shown + a "more" row.
    let text = format_metrics(&snap(), 3);
    let lines: Vec<&str> = text.lines().collect();
    assert_eq!(lines.len(), 3);
    assert_eq!(lines[0], "shoestring-wm diagnostics");
    assert_eq!(lines[1], "render.fps = 60");
    assert!(
        lines[2].starts_with("…"),
        "last row summarizes the rest: {:?}",
        lines[2]
    );
    assert!(lines[2].contains("more"));
}

#[test]
fn toggle_flips_and_resets_throttle() {
    let mut o = DiagOverlay::default();
    assert!(!o.enabled);
    o.last_build = Some(1_000);
    assert!(o.toggle());
    assert!(o.enabled);
    assert!(o.last_build.is_none());
    assert!(!o.toggle());
}

#[test]
fn due_when_unbuilt_and_on_scale_change() {
    let mut o = DiagOverlay::default();
    // Nothing built yet → always due.
    assert!(o.due(1, 1_000));
    // Stand in a picture built at scale 1 just now.
    o.key = Some(("x".into(), 1));
    o.buffer = Some(Panel {
        width: 1,
        height: 1,
        pixels: vec![0u8; 4],
    });
    o.last_build = Some(1_000);
    // Same scale, fresh build → not due (throttled).
    assert!(!o.due(1, 1_000));
    // Different scale → due regardless of throttle.
    assert!(o.due(2, 1_000));
}

#[test]
fn premultiply_matches_alpha() {
    // Straight white at 50% alpha → premultiplied ~127 in BGR, A=128.
    let mut buf = vec![255u8, 255, 255, 128];
    premultiply_to_bgra(&mut buf);
    assert_eq!(buf[3], 128);
    assert_eq!(buf[0], 128); // 255*128/255 = 128
    assert_eq!(buf[1], 128);
    assert_eq!(buf[2], 128);
}

#[test]
fn ring_too_small_returns_none() {
    // width 0 disables; window smaller than 2*width can't hold the ring.
    let r = rect(0, 0, 100, 100);
    assert!(ring_rects(r, 0).is_none());
    assert!(ring_rects(r, 60).is_none()); // 100 < 2*60
    let thin = rect(0, 0, 3, 100);
    assert!(ring_rects(thin, 2).is_none()); // width 3 < 2*2
}

#[test]
fn ring_partitions_the_frame() {
    // A 2px ring inside a 100x80 window at (10, 20).
    let r = rect(10, 20, 100, 80);
    let [top, bottom, left, right] = ring_rects(r, 2).unwrap();

    // Top/bottom span the full width at the very top/bottom edges.
    assert_eq!(top, rect(10, 20, 100, 2));
    assert_eq!(bottom, rect(10, 98, 100, 2));
    // Left/right are the gap between the bars, full-thickness wide.
    assert_eq!(left, rect(10, 22, 2, 76));
    assert_eq!(right, rect(108, 22, 2, 76));

    // Every edge stays within the window's own rect (no bleed onto a
    // neighbor) — the whole point of drawing the border inside the rect.
    for edge in [top, bottom, left, right] {
        assert!(edge.loc.x >= r.loc.x && edge.loc.y >= r.loc.y);
        assert!(edge.loc.x + edge.size.w <= r.loc.x + r.size.w);
        assert!(edge.loc.y + edge.size.h <= r.loc.y + r.size.h);
    }
}

#[test]
fn one_row_tells_how_many_are_left_out() {
    let text = format_metrics(&snap(), 1);
    assert_eq!(text.lines().count(), 1);
    assert!(text.contains("more"));
    let all = format_metrics(&snap(), 0);
    assert_eq!(all.lines().count(), 4);
}

#[test]
fn bytes_behind_the_last_pixel_are_not_scaled() {
    let mut buf = vec![255, 100, 0, 128, 255, 100, 0];
    premultiply_to_bgra(&mut buf);
    assert_eq!(buf, vec![0, 50, 128, 128, 255, 100, 0]);
}
