//! Resizing a window with the pointer.

use vstd::prelude::*;

use crate::geometry::Point;
use crate::geometry::Rect;
use crate::geometry::Size;

verus! {

/// The edges that follow the pointer. Never a pair of opposite edges.
#[derive(Clone, Copy, Debug, PartialEq, Eq, Structural)]
pub struct ResizeEdge {
    pub top: bool,
    pub bottom: bool,
    pub left: bool,
    pub right: bool,
}

/// The edges by which an X11 client asks to be resized.
#[derive(Clone, Copy, Debug, PartialEq, Eq, Structural)]
pub enum X11Edge {
    Top,
    Bottom,
    Left,
    Right,
    TopLeft,
    TopRight,
    BottomLeft,
    BottomRight,
}

impl ResizeEdge {
    /// The bits by which the edges are counted: top, bottom, left, right from
    /// the lowest.
    pub open spec fn bits(self) -> int {
        (if self.top {
            1int
        } else {
            0
        }) + (if self.bottom {
            2int
        } else {
            0
        }) + (if self.left {
            4int
        } else {
            0
        }) + (if self.right {
            8int
        } else {
            0
        })
    }

    /// The edges of an X11 request.
    pub fn from_x11(e: X11Edge) -> (r: ResizeEdge)
        ensures
            r.top == (e == X11Edge::Top || e == X11Edge::TopLeft || e == X11Edge::TopRight),
            r.bottom == (e == X11Edge::Bottom || e == X11Edge::BottomLeft || e
                == X11Edge::BottomRight),
            r.left == (e == X11Edge::Left || e == X11Edge::TopLeft || e == X11Edge::BottomLeft),
            r.right == (e == X11Edge::Right || e == X11Edge::TopRight || e
                == X11Edge::BottomRight),
    {
        let (top, bottom, left, right) = match e {
            X11Edge::Top => (true, false, false, false),
            X11Edge::Bottom => (false, true, false, false),
            X11Edge::Left => (false, false, true, false),
            X11Edge::Right => (false, false, false, true),
            X11Edge::TopLeft => (true, false, true, false),
            X11Edge::TopRight => (true, false, false, true),
            X11Edge::BottomLeft => (false, true, true, false),
            X11Edge::BottomRight => (false, true, false, true),
        };
        ResizeEdge { top, bottom, left, right }
    }
}

/// The edges for a pointer in one of the nine fields of a window: those of the
/// outer thirds that it is in, the bottom right ones in the middle.
pub open spec fn edges_of(
    left_third: bool,
    right_third: bool,
    top_third: bool,
    bottom_third: bool,
) -> ResizeEdge {
    let left = left_third;
    let right = !left_third && right_third;
    let top = top_third;
    let bottom = !top_third && bottom_third;
    if !left && !right && !top && !bottom {
        ResizeEdge { top: false, bottom: true, left: false, right: true }
    } else {
        ResizeEdge { top, bottom, left, right }
    }
}

/// The edges to resize by, given in which thirds of the window the pointer is.
pub fn edges_for_pointer(
    left_third: bool,
    right_third: bool,
    top_third: bool,
    bottom_third: bool,
) -> (r: ResizeEdge)
    ensures
        r == edges_of(left_third, right_third, top_third, bottom_third),
        !(r.left && r.right) && !(r.top && r.bottom),
        r.bits() != 0,
{
    let left = left_third;
    let right = !left_third && right_third;
    let top = top_third;
    let bottom = !top_third && bottom_third;
    if !left && !right && !top && !bottom {
        ResizeEdge { top: false, bottom: true, left: false, right: true }
    } else {
        ResizeEdge { top, bottom, left, right }
    }
}

/// A resize in progress.
#[derive(Clone, Copy, Debug)]
pub struct ResizeSurfaceGrab {
    pub window: u64,
    pub edges: ResizeEdge,
    pub initial_rect: Rect,
    /// The size that the client was last asked for.
    pub last_window_size: Size,
}

/// One side of a window after the pointer has moved: the side grows with the
/// pointer where the far edge follows it, shrinks where the near one does, and
/// stays otherwise.
pub open spec fn dragged_side(near: bool, far: bool, initial: i32, grown: i32, shrunk: i32) -> i32 {
    if near {
        shrunk
    } else if far {
        grown
    } else {
        initial
    }
}

/// One side brought within the client's limits. No side is below one; a limit
/// of zero above is none.
pub open spec fn limited(side: i32, min: i32, max: i32) -> int {
    crate::geometry::clamp(
        side as int,
        crate::geometry::max(min as int, 1),
        if max == 0 {
            i32::MAX as int
        } else {
            max as int
        },
    )
}

/// Whether a client's limits leave a size to choose.
pub open spec fn limits_ok(min: i32, max: i32) -> bool {
    max == 0 || crate::geometry::max(min as int, 1) <= max
}

fn limit(side: i32, min: i32, max: i32) -> (r: i32)
    requires
        limits_ok(min, max),
    ensures
        r == limited(side, min, max),
{
    let low: i32 = if min >= 1 {
        min
    } else {
        1
    };
    let high: i32 = if max == 0 {
        i32::MAX
    } else {
        max
    };
    if side < low {
        low
    } else if side > high {
        high
    } else {
        side
    }
}

impl ResizeSurfaceGrab {
    /// A resize that begins.
    pub fn start(window: u64, edges: ResizeEdge, initial_window_rect: Rect) -> (r: Self)
        ensures
            r.window == window,
            r.edges == edges,
            r.initial_rect == initial_window_rect,
            r.last_window_size == initial_window_rect.size,
    {
        ResizeSurfaceGrab {
            window,
            edges,
            initial_rect: initial_window_rect,
            last_window_size: initial_window_rect.size,
        }
    }

    /// The state of the surface while the grab lasts.
    pub fn resizing(&self) -> (r: ResizeSurfaceState)
        ensures
            r == (ResizeSurfaceState::Resizing {
                edges: self.edges,
                initial_rect: self.initial_rect,
            }),
    {
        ResizeSurfaceState::Resizing { edges: self.edges, initial_rect: self.initial_rect }
    }

    /// The state of the surface once the grab is over.
    pub fn released(&self) -> (r: ResizeSurfaceState)
        ensures
            r == (ResizeSurfaceState::WaitingForLastCommit {
                edges: self.edges,
                initial_rect: self.initial_rect,
            }),
    {
        ResizeSurfaceState::WaitingForLastCommit {
            edges: self.edges,
            initial_rect: self.initial_rect,
        }
    }

    /// What an X11 client is told at once: the size last asked for, at the place
    /// that the window had.
    pub fn x11_geometry(&self) -> (r: Rect)
        ensures
            r == (Rect { loc: self.initial_rect.loc, size: self.last_window_size }),
    {
        Rect { loc: self.initial_rect.loc, size: self.last_window_size }
    }

    /// The pointer has moved. `grown` and `shrunk` are the initial size plus and
    /// minus the way it has gone; `min` and `max` are the client's limits. The
    /// result is the size to ask the client for.
    pub fn motion(&mut self, grown: Size, shrunk: Size, min: Size, max: Size) -> (r: Size)
        requires
            limits_ok(min.w, max.w),
            limits_ok(min.h, max.h),
        ensures
            r.w == limited(
                dragged_side(
                    old(self).edges.left,
                    old(self).edges.right,
                    old(self).initial_rect.size.w,
                    grown.w,
                    shrunk.w,
                ),
                min.w,
                max.w,
            ),
            r.h == limited(
                dragged_side(
                    old(self).edges.top,
                    old(self).edges.bottom,
                    old(self).initial_rect.size.h,
                    grown.h,
                    shrunk.h,
                ),
                min.h,
                max.h,
            ),
            *final(self) == (ResizeSurfaceGrab { last_window_size: r, ..*old(self) }),
    {
        let w: i32 = if self.edges.left {
            shrunk.w
        } else if self.edges.right {
            grown.w
        } else {
            self.initial_rect.size.w
        };
        let h: i32 = if self.edges.top {
            shrunk.h
        } else if self.edges.bottom {
            grown.h
        } else {
            self.initial_rect.size.h
        };
        let size = Size { w: limit(w, min.w, max.w), h: limit(h, min.h, max.h) };
        self.last_window_size = size;
        size
    }

    /// A button has changed; `right_down` tells whether the right button is
    /// still down. The grab ends when it is not, and the client is then asked
    /// for the last size once more.
    pub fn button(&self, right_down: bool) -> (r: Option<Size>)
        ensures
            r == (if right_down {
                None
            } else {
                Some(self.last_window_size)
            }),
    {
        if right_down {
            None
        } else {
            Some(self.last_window_size)
        }
    }
}

/// How far the resize of a surface is.
#[derive(Clone, Copy, Debug, PartialEq, Eq, Structural)]
pub enum ResizeSurfaceState {
    Idle,
    Resizing { edges: ResizeEdge, initial_rect: Rect },
    /// The grab is over; one more commit belongs to the resize.
    WaitingForLastCommit { edges: ResizeEdge, initial_rect: Rect },
}

/// Where a commit during a resize puts a window: an edge that followed the
/// pointer moves, so that the opposite edge stays.
pub open spec fn kept_in_place(
    edges: ResizeEdge,
    initial: Rect,
    size: Size,
    loc: Point,
) -> (int, int) {
    (
        if edges.left {
            initial.loc.x + (initial.size.w - size.w)
        } else {
            loc.x as int
        },
        if edges.top {
            initial.loc.y + (initial.size.h - size.h)
        } else {
            loc.y as int
        },
    )
}

impl ResizeSurfaceState {
    /// What a commit belongs to: the resize in progress or just ended.
    pub open spec fn committed(self) -> Option<(ResizeEdge, Rect)> {
        match self {
            ResizeSurfaceState::Idle => None,
            ResizeSurfaceState::Resizing { edges, initial_rect } => Some((edges, initial_rect)),
            ResizeSurfaceState::WaitingForLastCommit { edges, initial_rect } => Some(
                (edges, initial_rect),
            ),
        }
    }

    /// The client has committed. The commit after the end of the grab is the
    /// last that counts.
    pub fn commit(&mut self) -> (r: Option<(ResizeEdge, Rect)>)
        ensures
            r == old(self).committed(),
            *final(self) == (match *old(self) {
                ResizeSurfaceState::WaitingForLastCommit { .. } => ResizeSurfaceState::Idle,
                s => s,
            }),
    {
        match *self {
            ResizeSurfaceState::Resizing { edges, initial_rect } => Some((edges, initial_rect)),
            ResizeSurfaceState::WaitingForLastCommit { edges, initial_rect } => {
                *self = ResizeSurfaceState::Idle;
                Some((edges, initial_rect))
            },
            ResizeSurfaceState::Idle => None,
        }
    }
}

/// What a commit leaves: the window moves where its left or its top edge follows
/// the pointer, and the commit after the end of the grab is the last that counts.
pub open spec fn resize_committed(
    before: ResizeSurfaceState,
    size: Size,
    loc: Point,
    after: ResizeSurfaceState,
    r: Option<Point>,
) -> bool {
    &&& after == (match before {
        ResizeSurfaceState::WaitingForLastCommit { .. } => ResizeSurfaceState::Idle,
        s => s,
    })
    &&& match before.committed() {
        Some(c) => if c.0.left || c.0.top {
            r is Some && (r->0.x as int, r->0.y as int) == kept_in_place(c.0, c.1, size, loc)
        } else {
            r is None
        },
        None => r is None,
    }
}

/// The client of a window at `loc` with the new size has committed. The result
/// is where to map the window, where it moves.
pub fn handle_commit(state: &mut ResizeSurfaceState, size: Size, loc: Point) -> (r: Option<Point>)
    requires
        old(state).committed() matches Some(c) ==> ({
            let p = kept_in_place(c.0, c.1, size, loc);
            &&& i32::MIN <= p.0 <= i32::MAX
            &&& i32::MIN <= p.1 <= i32::MAX
        }),
    ensures
        resize_committed(*old(state), size, loc, *final(state), r),
{
    match state.commit() {
        Some((edges, initial_rect)) => {
            if !edges.left && !edges.top {
                return None;
            }
            let mut p = loc;
            if edges.left {
                let x: i64 = initial_rect.loc.x as i64 + (initial_rect.size.w as i64
                    - size.w as i64);
                p.x = x as i32;
            }
            if edges.top {
                let y: i64 = initial_rect.loc.y as i64 + (initial_rect.size.h as i64
                    - size.h as i64);
                p.y = y as i32;
            }
            Some(p)
        },
        None => None,
    }
}

/// Resizing by the left or the top edge leaves the right and the bottom edge
/// where they were, whatever size the client takes.
pub proof fn law_far_edges_stay(edges: ResizeEdge, initial: Rect, size: Size, loc: Point)
    ensures
        edges.left ==> kept_in_place(edges, initial, size, loc).0 + size.w == initial.right(),
        edges.top ==> kept_in_place(edges, initial, size, loc).1 + size.h == initial.bottom(),
{
}

/// Once the grab is over, one more commit may move the window, and no later one
/// does.
pub proof fn law_one_commit_after_the_end(
    edges: ResizeEdge,
    initial_rect: Rect,
    states: Seq<ResizeSurfaceState>,
    sizes: Seq<Size>,
    locs: Seq<Point>,
    places: Seq<Option<Point>>,
    k: int,
)
    requires
        states.len() == sizes.len() + 1,
        sizes.len() == locs.len() == places.len(),
        states[0] == (ResizeSurfaceState::WaitingForLastCommit { edges, initial_rect }),
        forall|i: int|
            0 <= i < sizes.len() ==> #[trigger] commit_step(states, sizes, locs, places, i),
        0 <= k < sizes.len(),
    ensures
        states[k + 1] == ResizeSurfaceState::Idle,
        places[k] is Some ==> k == 0 && (edges.left || edges.top),
    decreases k,
{
    assert(commit_step(states, sizes, locs, places, k));
    if k >= 1 {
        law_one_commit_after_the_end(edges, initial_rect, states, sizes, locs, places, k - 1);
    }
}

/// Whether the state at `i` turns into the next one by the commit at `i`.
pub open spec fn commit_step(
    states: Seq<ResizeSurfaceState>,
    sizes: Seq<Size>,
    locs: Seq<Point>,
    places: Seq<Option<Point>>,
    i: int,
) -> bool {
    resize_committed(states[i], sizes[i], locs[i], states[i + 1], places[i])
}

/// A resize changes no axis of which neither edge is dragged, whatever way the
/// pointer has gone. Where the far edge is dragged the side follows the pointer;
/// where the near edge is dragged it goes against it.
pub proof fn law_only_dragged_axes_change(
    near: bool,
    far: bool,
    initial: i32,
    way: int,
    grown: i32,
    shrunk: i32,
    min: i32,
    max: i32,
)
    requires
        !(near && far),
        grown == initial + way,
        shrunk == initial - way,
        limits_ok(min, max),
    ensures
        ({
            let side = limited(dragged_side(near, far, initial, grown, shrunk), min, max);
            let wanted = if far {
                initial + way
            } else if near {
                initial - way
            } else {
                initial as int
            };
            // No side is below one, nor outside the client's limits, and nothing else
            // keeps it from the size wanted.
            &&& side >= 1 && side >= min && (max != 0 ==> side <= max)
            &&& side != wanted ==> {
                ||| side > wanted && (side == 1 || side == min)
                ||| side < wanted && side == max && max != 0
            }
        }),
{
}

/// Two motions that differ only across the dragged edges ask for the same size: a
/// window resized by its left or right edge alone keeps its height.
pub proof fn law_undragged_axis_deaf(
    initial: i32,
    grown: i32,
    shrunk: i32,
    other_grown: i32,
    other_shrunk: i32,
)
    ensures
        dragged_side(false, false, initial, grown, shrunk) == dragged_side(
            false,
            false,
            initial,
            other_grown,
            other_shrunk,
        ),
        dragged_side(false, false, initial, grown, shrunk) == initial,
{
}

/// The pointer resizes by the edges that it is near. In an outer third it drags
/// that edge and not the opposite one; where it is in the middle of one axis alone
/// that axis stays; in the very middle it drags the bottom right corner.
pub proof fn law_edges_under_the_pointer(l: bool, r: bool, t: bool, b: bool)
    requires
        !(l && r),
        !(t && b),
    ensures
        ({
            let e = edges_of(l, r, t, b);
            &&& l ==> e.left && !e.right
            &&& r ==> e.right && !e.left
            &&& t ==> e.top && !e.bottom
            &&& b ==> e.bottom && !e.top
            &&& !l && !r && (t || b) ==> !e.left && !e.right
            &&& !t && !b && (l || r) ==> !e.top && !e.bottom
            &&& !l && !r && !t && !b ==> e.right && e.bottom && !e.left && !e.top
        }),
{
}

/// Resizing leaves an edge that is not dragged where it is: a window that is not
/// resized by its left edge keeps its left edge, and one not resized by its top
/// edge its top edge.
pub proof fn law_near_edges_stay(edges: ResizeEdge, initial: Rect, size: Size, loc: Point)
    ensures
        !edges.left ==> kept_in_place(edges, initial, size, loc).0 == loc.x,
        !edges.top ==> kept_in_place(edges, initial, size, loc).1 == loc.y,
{
}

/// A commit moves the window exactly while a resize by its left or its top edge
/// goes on, or has just ended; it is the last such commit once the grab is over.
pub proof fn law_commit_moves_while_resizing(
    before: ResizeSurfaceState,
    size: Size,
    loc: Point,
    after: ResizeSurfaceState,
    r: Option<Point>,
)
    requires
        resize_committed(before, size, loc, after, r),
    ensures
        before is Idle ==> r is None && after is Idle,
        before is Resizing ==> after == before,
        before is WaitingForLastCommit ==> after is Idle,
        before matches ResizeSurfaceState::Resizing { edges, initial_rect } ==> {
            &&& r is Some <==> edges.left || edges.top
            &&& r is Some && edges.left ==> r->0.x + size.w == initial_rect.loc.x
                + initial_rect.size.w
            &&& r is Some && edges.top ==> r->0.y + size.h == initial_rect.loc.y
                + initial_rect.size.h
            &&& r is Some && !edges.left ==> r->0.x == loc.x
            &&& r is Some && !edges.top ==> r->0.y == loc.y
        },
        before matches ResizeSurfaceState::WaitingForLastCommit { edges, initial_rect } ==> {
            &&& r is Some <==> edges.left || edges.top
            &&& r is Some && edges.left ==> r->0.x + size.w == initial_rect.loc.x
                + initial_rect.size.w
            &&& r is Some && edges.top ==> r->0.y + size.h == initial_rect.loc.y
                + initial_rect.size.h
            &&& r is Some && !edges.left ==> r->0.x == loc.x
            &&& r is Some && !edges.top ==> r->0.y == loc.y
        },
{
}

/// A resize never asks for a size below one, nor for one outside the client's
/// limits.
pub proof fn law_sizes_limited(side: i32, min: i32, max: i32)
    requires
        limits_ok(min, max),
    ensures
        limited(side, min, max) >= 1,
        limited(side, min, max) >= min,
        max != 0 ==> limited(side, min, max) <= max,
{
}

/// The edges are counted as the bits of a number: one for the top, two for the bottom,
/// four for the left and eight for the right.
pub proof fn law_edge_bits(e: ResizeEdge)
    ensures
        0 <= e.bits() < 16,
        e.top <==> e.bits() % 2 == 1,
        e.bottom <==> e.bits() / 2 % 2 == 1,
        e.left <==> e.bits() / 4 % 2 == 1,
        e.right <==> e.bits() / 8 == 1,
{
}

/// A client's limits leave a size to choose where it sets no upper one, and where the
/// upper one is positive and not below the lower one.
pub proof fn law_limits_leave_a_size(min: i32, max: i32)
    ensures
        limits_ok(min, 0),
        max != 0 ==> (limits_ok(min, max) <==> min <= max && 1 <= max),
{
}

} // verus!
