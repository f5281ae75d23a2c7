//! Tiling, fullscreen, minimizing, moving and resizing.

use shoestring_wm::geometry::intersection;
use shoestring_wm::geometry::rect;
use shoestring_wm::geometry::Point;
use shoestring_wm::geometry::Rect;
use shoestring_wm::geometry::Size;
use shoestring_wm::grabs::move_grab::Coord;
use shoestring_wm::grabs::move_grab::MoveSurfaceGrab;
use shoestring_wm::grabs::popup_touch::PopupTouchGrab;
use shoestring_wm::grabs::resize_grab::edges_for_pointer;
use shoestring_wm::grabs::resize_grab::handle_commit;
use shoestring_wm::grabs::resize_grab::ResizeEdge;
use shoestring_wm::grabs::resize_grab::ResizeSurfaceGrab;
use shoestring_wm::grabs::resize_grab::ResizeSurfaceState;
use shoestring_wm::layout::fullscreen_window_on;
use shoestring_wm::layout::set_fullscreen;
use shoestring_wm::layout::set_layout;
use shoestring_wm::layout::tiled_rect;
use shoestring_wm::layout::unset_fullscreen;
use shoestring_wm::layout::usable_rect_for;
use shoestring_wm::layout::LayoutManager;
use shoestring_wm::layout::LayoutState;
use shoestring_wm::layout::OutputArea;
use shoestring_wm::layout::Placed;
use shoestring_wm::layout::Space;
use shoestring_wm::layout::Window;

fn window(id: u64) -> Window {
    Window {
        id,
        size: Size { w: 400, h: 300 },
    }
}

/// One output of 1920x1080 with a bar of 30 pixels, and one window on it.
fn one_output() -> Space {
    Space {
        elements: vec![Placed {
            window: window(7),
            loc: Point { x: 100, y: 120 },
            outputs: vec![1],
        }],
        outputs: vec![OutputArea {
            id: 1,
            geometry: Some(rect(0, 0, 1920, 1080)),
            zone: rect(0, 30, 1920, 1050),
        }],
    }
}

#[test]
fn halves_make_up_the_free_area() {
    let usable = rect(0, 30, 1921, 1050);
    let left = tiled_rect(usable, LayoutState::TiledLeft).unwrap();
    let right = tiled_rect(usable, LayoutState::TiledRight).unwrap();
    assert_eq!(left, rect(0, 30, 960, 1050));
    assert_eq!(right, rect(960, 30, 961, 1050));
    assert_eq!(tiled_rect(usable, LayoutState::Maximized), Some(usable));
    assert_eq!(tiled_rect(usable, LayoutState::Floating), None);
    assert_eq!(intersection(left, right), None);
}

#[test]
fn tiling_twice_restores_the_floating_rectangle() {
    let space = one_output();
    let mut layout = LayoutManager::new();
    let w = window(7);
    let tiled = set_layout(&space, &mut layout, w, LayoutState::TiledLeft).unwrap();
    assert_eq!(tiled.rect, rect(0, 30, 960, 1050));
    assert!(!tiled.maximized && !tiled.fullscreen);
    assert_eq!(layout.layout_state(7), LayoutState::TiledLeft);
    let back = set_layout(&space, &mut layout, w, LayoutState::TiledLeft).unwrap();
    assert_eq!(back.rect, rect(100, 120, 400, 300));
    assert_eq!(layout.layout_state(7), LayoutState::Floating);
}

#[test]
fn another_tile_keeps_the_floating_rectangle() {
    let space = one_output();
    let mut layout = LayoutManager::new();
    let w = window(7);
    set_layout(&space, &mut layout, w, LayoutState::TiledLeft);
    let max = set_layout(&space, &mut layout, w, LayoutState::Maximized).unwrap();
    assert_eq!(max.rect, rect(0, 30, 1920, 1050));
    assert!(max.maximized);
    let back = set_layout(&space, &mut layout, w, LayoutState::Maximized).unwrap();
    assert_eq!(back.rect, rect(100, 120, 400, 300));
}

#[test]
fn fullscreen_covers_bars_and_comes_back_to_the_tile() {
    let space = one_output();
    let mut layout = LayoutManager::new();
    let w = window(7);
    set_layout(&space, &mut layout, w, LayoutState::TiledRight);
    let full = set_fullscreen(&space, &mut layout, w, rect(0, 0, 1920, 1080));
    assert_eq!(full.rect, rect(0, 0, 1920, 1080));
    assert!(full.fullscreen);
    assert_eq!(fullscreen_window_on(&space, &layout, 1), Some(7));
    assert_eq!(fullscreen_window_on(&space, &layout, 2), None);
    let back = unset_fullscreen(&space, &mut layout, w).unwrap();
    assert_eq!(back.rect, rect(960, 30, 960, 1050));
    assert_eq!(layout.layout_state(7), LayoutState::TiledRight);
    assert_eq!(fullscreen_window_on(&space, &layout, 1), None);
}

#[test]
fn minimized_windows_come_back_last_first() {
    let mut layout = LayoutManager::new();
    layout.push_minimized(1, rect(0, 0, 10, 10));
    layout.push_minimized(2, rect(5, 5, 20, 20));
    layout.push_minimized(3, rect(7, 7, 30, 30));
    assert!(layout.is_minimized(2));
    // The last one's client is gone.
    assert_eq!(
        layout.pop_live_minimized(&vec![1, 2]),
        Some((2, rect(5, 5, 20, 20)))
    );
    assert!(!layout.is_minimized(3));
    assert_eq!(layout.take_minimized(1), Some(rect(0, 0, 10, 10)));
    assert_eq!(layout.take_minimized(1), None);
    assert_eq!(layout.pop_live_minimized(&vec![1, 2, 3]), None);
}

#[test]
fn free_area_is_that_of_the_windows_output() {
    let space = one_output();
    assert_eq!(
        usable_rect_for(&space, window(7)),
        Some(rect(0, 30, 1920, 1050))
    );
    let bare = Space {
        elements: Vec::new(),
        outputs: Vec::new(),
    };
    assert_eq!(usable_rect_for(&bare, window(7)), None);
}

#[test]
fn common_part_of_rectangles() {
    let a = rect(0, 0, 10, 10);
    let b = rect(4, 6, 10, 10);
    assert_eq!(intersection(a, b), Some(rect(4, 6, 6, 4)));
    assert_eq!(intersection(a, rect(10, 0, 5, 5)), None);
}

fn at(x: i64) -> Coord {
    Coord { floor: x, ceil: x }
}

#[test]
fn dragging_over_the_edge_crosses_one_workspace() {
    let bounds = Some(rect(0, 0, 1920, 1080));
    let mut grab = MoveSurfaceGrab::new(7, Point { x: 100, y: 100 }, at(1000));
    assert_eq!(grab.motion(bounds, at(1920), 2, 4), Some(3));
    // Until the pointer has left the edge, nothing more happens.
    grab.crossed(Some(Point { x: 50, y: 100 }));
    assert_eq!(grab.motion(bounds, at(1920), 3, 4), None);
    assert_eq!(grab.motion(bounds, at(1910), 3, 4), None);
    assert_eq!(grab.motion(bounds, at(1920), 3, 4), None);
    assert_eq!(grab.motion(bounds, at(900), 3, 4), None);
    assert_eq!(grab.motion(bounds, at(0), 3, 4), Some(2));
}

#[test]
fn dragging_stops_at_the_last_workspace() {
    let bounds = Some(rect(0, 0, 1920, 1080));
    let mut grab = MoveSurfaceGrab::new(7, Point { x: 100, y: 100 }, at(1000));
    assert_eq!(grab.motion(bounds, at(1920), 4, 4), None);
    let mut other = MoveSurfaceGrab::new(7, Point { x: 100, y: 100 }, at(1000));
    assert_eq!(other.motion(None, at(1920), 2, 4), None);
}

#[test]
fn edges_follow_the_thirds_of_the_window() {
    assert_eq!(
        edges_for_pointer(true, false, true, false),
        ResizeEdge {
            top: true,
            bottom: false,
            left: true,
            right: false
        }
    );
    // The middle resizes from the lower right corner.
    assert_eq!(
        edges_for_pointer(false, false, false, false),
        ResizeEdge {
            top: false,
            bottom: true,
            left: false,
            right: true
        }
    );
}

#[test]
fn resizing_keeps_the_far_edges_in_place() {
    let edges = ResizeEdge {
        top: true,
        bottom: false,
        left: true,
        right: false,
    };
    let mut grab = ResizeSurfaceGrab::start(7, edges, rect(100, 100, 400, 300));
    let no_max = Size { w: 0, h: 0 };
    let size = grab.motion(
        Size { w: 450, h: 340 },
        Size { w: 350, h: 260 },
        Size { w: 1, h: 1 },
        no_max,
    );
    assert_eq!(size, Size { w: 350, h: 260 });
    let mut state = grab.resizing();
    assert_eq!(
        state,
        ResizeSurfaceState::Resizing {
            edges,
            initial_rect: rect(100, 100, 400, 300),
        }
    );
    assert_eq!(grab.x11_geometry(), rect(100, 100, 350, 260));
    // The lower right corner stays at (500, 400).
    assert_eq!(
        handle_commit(&mut state, size, Point { x: 100, y: 100 }),
        Some(Point { x: 150, y: 140 })
    );
    // Once the button is up, one commit still counts.
    assert_eq!(grab.button(false), Some(size));
    let mut last = grab.released();
    let smaller = Size { w: 340, h: 250 };
    assert_eq!(
        handle_commit(&mut last, smaller, Point { x: 150, y: 140 }),
        Some(Point { x: 160, y: 150 })
    );
    assert_eq!(last, ResizeSurfaceState::Idle);
    assert_eq!(handle_commit(&mut last, size, Point { x: 160, y: 150 }), None);
}

#[test]
fn resizing_respects_the_clients_limits() {
    let edges = ResizeEdge {
        top: false,
        bottom: true,
        left: false,
        right: true,
    };
    let mut grab = ResizeSurfaceGrab::start(7, edges, rect(0, 0, 400, 300));
    let size = grab.motion(
        Size { w: 1000, h: 10 },
        Size { w: 0, h: 0 },
        Size { w: 200, h: 150 },
        Size { w: 600, h: 500 },
    );
    assert_eq!(size, Size { w: 600, h: 150 });
    assert_eq!(grab.button(true), None);
    assert_eq!(grab.button(false), Some(Size { w: 600, h: 150 }));
}

#[test]
fn touching_outside_dismisses_popups() {
    let grab = PopupTouchGrab {
        client: Some(3),
        ended: false,
        serial: 20,
        previous_serial: Some(19),
    };
    let inside = grab.down(Some(3));
    assert!(!inside.dismiss && !inside.end_grab && inside.deliver);
    let outside = grab.down(Some(4));
    assert!(outside.dismiss && outside.end_grab && outside.deliver);
    let nowhere = grab.down(None);
    assert!(nowhere.dismiss);
    assert!(!grab.motion(Some(4)).deliver);
    assert!(grab.motion(Some(3)).deliver);
    assert!(grab.unset(Some(20)));
    assert!(grab.unset(Some(19)));
    assert!(!grab.unset(Some(18)));
    assert!(!grab.unset(None));
    let over = PopupTouchGrab {
        ended: true,
        ..grab
    };
    assert!(over.up().end_grab);
    assert!(!over.down(Some(4)).dismiss);
}

#[test]
fn rectangle_is_built_from_its_numbers() {
    assert_eq!(
        rect(1, 2, 3, 4),
        Rect {
            loc: Point { x: 1, y: 2 },
            size: Size { w: 3, h: 4 }
        }
    );
}

#[test]
fn chain_of_tiles_keeps_the_floating_rectangle() {
    let mut space = one_output();
    let mut layout = LayoutManager::new();
    let chain = [
        LayoutState::TiledLeft,
        LayoutState::TiledRight,
        LayoutState::Maximized,
        LayoutState::TiledLeft,
        LayoutState::Maximized,
    ];
    for target in chain {
        let w = space.elements[0].window;
        let change = set_layout(&space, &mut layout, w, target).unwrap();
        assert_eq!(layout.layout_state(7), target);
        space.elements[0].loc = change.rect.loc;
        space.elements[0].window.size = change.rect.size;
    }
    let w = space.elements[0].window;
    set_fullscreen(&space, &mut layout, w, rect(0, 0, 1920, 1080));
    let tile = unset_fullscreen(&space, &mut layout, w).unwrap();
    assert!(tile.maximized);
    let back = set_layout(&space, &mut layout, w, LayoutState::Maximized).unwrap();
    assert_eq!(back.rect, rect(100, 120, 400, 300));
    assert_eq!(layout.layout_state(7), LayoutState::Floating);
}
