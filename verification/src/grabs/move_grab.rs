//! Moving a window with the pointer, and pushing it across the edge of the
//! desktop onto the next workspace.

use vstd::prelude::*;

use crate::geometry::Point;
use crate::geometry::Rect;
use crate::input::shifted;
use crate::pointer::workspace_bounds;
use crate::state::ShoestringWm;

verus! {

/// How far the pointer must go back inward before another crossing counts.
pub const EDGE_REARM_MARGIN: i64 = 16;

/// The time between workspaces while the pointer rests at the edge, in
/// milliseconds.
pub const EDGE_REPEAT_INTERVAL_MS: u64 = 800;

/// A pointer coordinate, by the whole numbers below and above it.
#[derive(Clone, Copy, Debug, PartialEq, Eq, Structural)]
pub struct Coord {
    pub floor: i64,
    pub ceil: i64,
}

impl Coord {
    /// Whether the two numbers belong to one coordinate.
    pub open spec fn wf(self) -> bool {
        self.floor <= self.ceil <= self.floor + 1
    }

    /// Whether the coordinate is `n` or more.
    pub open spec fn at_least(self, n: int) -> bool {
        self.floor >= n
    }

    /// Whether the coordinate is `n` or less.
    pub open spec fn at_most(self, n: int) -> bool {
        self.ceil <= n
    }
}

/// A move in progress.
#[derive(Clone, Copy, Debug)]
pub struct MoveSurfaceGrab {
    pub window: u64,
    /// Where the window was when the way of the pointer was last taken anew.
    pub initial_window_location: Point,
    pub last_pointer_x: Coord,
    /// Set by a crossing until the pointer is back inside.
    pub edge_disarmed: bool,
}

/// The direction of a crossing from `prev` to `cur`: onto the right edge, or
/// onto the left one.
pub open spec fn crossing(left: int, right: int, prev: Coord, cur: Coord) -> Option<int> {
    if cur.at_least(right) && !prev.at_least(right) {
        Some(1)
    } else if cur.at_most(left) && !prev.at_most(left) {
        Some(-1)
    } else {
        None
    }
}

/// Whether the pointer is well inside the desktop.
pub open spec fn well_inside(left: int, right: int, cur: Coord) -> bool {
    !cur.at_least(right - EDGE_REARM_MARGIN) && !cur.at_most(left + EDGE_REARM_MARGIN)
}

/// The edge at which the pointer rests.
pub open spec fn pinned(left: int, right: int, cur: Coord) -> Option<int> {
    if cur.at_least(right) {
        Some(1)
    } else if cur.at_most(left) {
        Some(-1)
    } else {
        None
    }
}

/// The workspace that a crossing leads to, where there is another one.
pub open spec fn beyond(active: u8, count: u8, direction: Option<int>) -> Option<u8> {
    match direction {
        Some(d) => {
            let t = crate::input::shifted_workspace(active, count, d);
            if t != active {
                Some(t)
            } else {
                None
            }
        },
        None => None,
    }
}

fn beyond_exec(active: u8, count: u8, direction: Option<i32>) -> (r: Option<u8>)
    requires
        count >= 1,
    ensures
        r == beyond(
            active,
            count,
            match direction {
                Some(d) => Some(d as int),
                None => None,
            },
        ),
{
    match direction {
        Some(d) => {
            let t = shifted(active, count, d);
            if t != active {
                Some(t)
            } else {
                None
            }
        },
        None => None,
    }
}

/// What a motion of the pointer to `cur` leaves: a crossing counts unless the
/// grab is disarmed, and disarms it; being well inside arms it again.
pub open spec fn moved(
    before: MoveSurfaceGrab,
    bounds: Option<Rect>,
    cur: Coord,
    active: u8,
    count: u8,
    after: MoveSurfaceGrab,
    r: Option<u8>,
) -> bool {
    &&& after == (MoveSurfaceGrab {
        last_pointer_x: cur,
        edge_disarmed: after.edge_disarmed,
        ..before
    })
    &&& match bounds {
        Some(b) => {
            let left = b.loc.x as int;
            let right = b.right();
            let disarmed = before.edge_disarmed && !well_inside(left, right, cur);
            &&& r == (if disarmed {
                None
            } else {
                beyond(active, count, crossing(left, right, before.last_pointer_x, cur))
            })
            &&& after.edge_disarmed == (disarmed || r is Some)
        },
        None => r is None && after.edge_disarmed == before.edge_disarmed,
    }
}

impl MoveSurfaceGrab {
    /// A move that begins with the pointer at `pointer_x`.
    pub fn new(window: u64, initial_window_location: Point, pointer_x: Coord) -> (r: Self)
        ensures
            r.window == window,
            r.initial_window_location == initial_window_location,
            r.last_pointer_x == pointer_x,
            !r.edge_disarmed,
    {
        MoveSurfaceGrab {
            window,
            initial_window_location,
            last_pointer_x: pointer_x,
            edge_disarmed: false,
        }
    }

    /// The pointer has moved to `cur`. The result is the workspace to take the
    /// window to. After a crossing the pointer must come back inside before the
    /// next one counts; [`MoveSurfaceGrab::crossed`] then takes the window's new
    /// place.
    pub fn motion(&mut self, bounds: Option<Rect>, cur: Coord, active: u8, count: u8) -> (r: Option<
        u8,
    >)
        requires
            count >= 1,
            bounds matches Some(b) ==> b.fits(),
        ensures
            moved(*old(self), bounds, cur, active, count, *final(self), r),
    {
        let prev = self.last_pointer_x;
        self.last_pointer_x = cur;
        match bounds {
            Some(b) => {
                let left: i64 = b.loc.x as i64;
                let right: i64 = b.loc.x as i64 + b.size.w as i64;
                if self.edge_disarmed && cur.floor < right - EDGE_REARM_MARGIN && cur.ceil > left
                    + EDGE_REARM_MARGIN {
                    self.edge_disarmed = false;
                }
                if self.edge_disarmed {
                    return None;
                }
                let direction: Option<i32> = if cur.floor >= right && prev.floor < right {
                    Some(1)
                } else if cur.ceil <= left && prev.ceil > left {
                    Some(-1)
                } else {
                    None
                };
                let target = beyond_exec(active, count, direction);
                if target.is_some() {
                    self.edge_disarmed = true;
                }
                target
            },
            None => None,
        }
    }

    /// The window has been taken to another workspace and is now at `loc`, if
    /// it is mapped: further motion counts from there.
    pub fn crossed(&mut self, loc: Option<Point>)
        ensures
            *final(self) == (MoveSurfaceGrab {
                initial_window_location: match loc {
                    Some(p) => p,
                    None => old(self).initial_window_location,
                },
                ..*old(self)
            }),
    {
        if let Some(p) = loc {
            self.initial_window_location = p;
        }
    }

    /// A button has changed. The grab ends when the left button is up.
    pub fn button(&self, left_down: bool) -> (ends: bool)
        ensures
            ends == !left_down,
    {
        !left_down
    }
}

/// What the repeat timer of a crossing leads to.
#[derive(Clone, Copy, Debug, PartialEq, Eq, Structural)]
pub struct EdgeShift {
    /// The window to take along.
    pub window: u64,
    /// The workspace to go to.
    pub workspace: u8,
}

impl ShoestringWm {
    /// The rectangle around all outputs.
    pub fn desktop_bounds(&self) -> (r: Option<Rect>)
        requires
            crate::pointer::spans(self.desktop.space),
        ensures
            crate::pointer::bounds_of(self.desktop.space, r),
    {
        workspace_bounds(&self.desktop.space)
    }

    /// Puts a new repeat timer in the place of the old one. `token` is the new
    /// timer, none where it could not be set up. The result is the timer to
    /// stop.
    pub fn arm_edge_repeat_timer(&mut self, token: Option<u64>) -> (r: Option<u64>)
        ensures
            r == old(self).edge_drag_repeat_token,
            *final(self) == (ShoestringWm { edge_drag_repeat_token: token, ..*old(self) }),
    {
        let stop = self.edge_drag_repeat_token.take();
        self.edge_drag_repeat_token = token;
        stop
    }

    /// The repeat timer has fired with the pointer at `cursor`, if there is a
    /// pointer. While the drag goes on and the pointer rests at an edge, the
    /// window goes to the next workspace, and the timer is to be armed again.
    pub fn try_edge_repeat_shift(&mut self, cursor: Option<Coord>) -> (r: Option<EdgeShift>)
        requires
            crate::pointer::spans(old(self).desktop.space),
            old(self).desktop.workspaces.count >= 1,
        ensures
            *final(self) == (ShoestringWm { edge_drag_repeat_token: None, ..*old(self) }),
            exists|bounds: Option<Rect>|
                #[trigger] crate::pointer::bounds_of(old(self).desktop.space, bounds) && r
                    == edge_shift(*old(self), bounds, cursor),
    {
        self.edge_drag_repeat_token = None;
        let bounds = self.desktop_bounds();
        assert(crate::pointer::bounds_of(old(self).desktop.space, bounds));
        let window = match self.edge_drag_window {
            Some(w) => w,
            None => {
                return None;
            },
        };
        let cur = match cursor {
            Some(c) => c,
            None => {
                return None;
            },
        };
        let b = match bounds {
            Some(b) => b,
            None => {
                return None;
            },
        };
        let left: i64 = b.loc.x as i64;
        let right: i64 = b.loc.x as i64 + b.size.w as i64;
        let direction: Option<i32> = if cur.floor >= right {
            Some(1)
        } else if cur.ceil <= left {
            Some(-1)
        } else {
            None
        };
        match beyond_exec(
            self.desktop.workspaces.active,
            self.desktop.workspaces.count,
            direction,
        ) {
            Some(workspace) => Some(EdgeShift { window, workspace }),
            None => None,
        }
    }

    /// The move grab is over. The result is the timer to stop.
    pub fn end_edge_drag(&mut self) -> (r: Option<u64>)
        ensures
            r == old(self).edge_drag_repeat_token,
            *final(self) == (ShoestringWm {
                edge_drag_window: None,
                edge_drag_repeat_token: None,
                ..*old(self)
            }),
    {
        self.edge_drag_window = None;
        self.edge_drag_repeat_token.take()
    }
}

/// What the repeat timer leads to, given the rectangle around all outputs.
pub open spec fn edge_shift(
    wm: ShoestringWm,
    bounds: Option<Rect>,
    cursor: Option<Coord>,
) -> Option<EdgeShift> {
    match (wm.edge_drag_window, cursor, bounds) {
        (Some(window), Some(cur), Some(b)) => {
            let ws = wm.desktop.workspaces;
            match beyond(ws.active, ws.count, pinned(b.loc.x as int, b.right(), cur)) {
                Some(workspace) => Some(EdgeShift { window, workspace }),
                None => None,
            }
        },
        _ => None,
    }
}

/// A crossing takes the window exactly one workspace further, and none at the
/// first and the last.
pub proof fn law_crossing_one_step(active: u8, count: u8, d: int)
    requires
        1 <= active <= count,
        d == 1 || d == -1,
    ensures
        beyond(active, count, Some(d)) is None <==> (d == 1 && active == count) || (d == -1
            && active == 1),
        beyond(active, count, Some(d)) matches Some(t) ==> t == active + d && 1 <= t <= count,
{
}

/// A motion of the pointer, and what it led to.
pub struct DragMotion {
    pub cur: Coord,
    pub active: u8,
    pub count: u8,
    pub target: Option<u8>,
}

/// Whether the grab at `i` turns into the next one by the motion at `i`.
pub open spec fn drag_step(
    grabs: Seq<MoveSurfaceGrab>,
    bounds: Rect,
    motions: Seq<DragMotion>,
    i: int,
) -> bool {
    moved(
        grabs[i],
        Some(bounds),
        motions[i].cur,
        motions[i].active,
        motions[i].count,
        grabs[i + 1],
        motions[i].target,
    )
}

/// After a crossing, a pointer that does not come well inside crosses no more,
/// however often it moves against the edges.
pub proof fn law_no_cascade(
    grabs: Seq<MoveSurfaceGrab>,
    bounds: Rect,
    motions: Seq<DragMotion>,
    k: int,
)
    requires
        grabs.len() == motions.len() + 1,
        0 <= k < motions.len(),
        forall|i: int| 0 <= i < motions.len() ==> #[trigger] drag_step(grabs, bounds, motions, i),
        motions[0].target is Some,
        forall|i: int|
            1 <= i <= k ==> !well_inside(
                bounds.loc.x as int,
                bounds.right(),
                (#[trigger] motions[i]).cur,
            ),
    ensures
        grabs[k + 1].edge_disarmed,
        k >= 1 ==> motions[k].target is None,
    decreases k,
{
    assert(drag_step(grabs, bounds, motions, k));
    if k >= 1 {
        law_no_cascade(grabs, bounds, motions, k - 1);
        assert(!well_inside(bounds.loc.x as int, bounds.right(), motions[k].cur));
    }
}

/// Dragging a window onto the right or the left edge of the desktop, from inside
/// it, takes the window to the next or the previous workspace; no other motion
/// takes it anywhere. `left` and `right` bound the desktop, and a coordinate is
/// on an edge where no part of it is inside.
pub proof fn law_edge_takes_window_along(
    before: MoveSurfaceGrab,
    bounds: Rect,
    cur: Coord,
    active: u8,
    count: u8,
    after: MoveSurfaceGrab,
    r: Option<u8>,
)
    requires
        1 <= active <= count,
        bounds.size.w > 2 * EDGE_REARM_MARGIN,
        before.last_pointer_x.wf(),
        cur.wf(),
        moved(before, Some(bounds), cur, active, count, after, r),
    ensures
        ({
            let left = bounds.loc.x as int;
            let right = bounds.loc.x + bounds.size.w;
            let prev = before.last_pointer_x;
            let onto_right = prev.floor < right && right <= cur.floor;
            let onto_left = left < prev.ceil && cur.ceil <= left;
            &&& !before.edge_disarmed && onto_right && active < count ==> r == Some(
                (active + 1) as u8,
            )
            &&& !before.edge_disarmed && onto_left && 1 < active ==> r == Some((active - 1) as u8)
            &&& r is Some ==> !before.edge_disarmed && (onto_right && r->0 == active + 1
                || onto_left && r->0 == active - 1)
            &&& r is Some ==> after.edge_disarmed
        }),
        after.last_pointer_x == cur,
        after.window == before.window,
        after.initial_window_location == before.initial_window_location,
{
}

/// A pointer that has come back further inside than the margin is armed again,
/// and nothing short of it arms it.
pub proof fn law_armed_again_inside(
    before: MoveSurfaceGrab,
    bounds: Rect,
    cur: Coord,
    active: u8,
    count: u8,
    after: MoveSurfaceGrab,
    r: Option<u8>,
)
    requires
        cur.wf(),
        before.last_pointer_x.wf(),
        bounds.size.w > 2 * EDGE_REARM_MARGIN,
        before.edge_disarmed,
        moved(before, Some(bounds), cur, active, count, after, r),
    ensures
        after.edge_disarmed <==> cur.floor >= bounds.loc.x + bounds.size.w - 16 || cur.ceil
            <= bounds.loc.x + 16,
        r is None,
{
}

/// While the drag goes on and the pointer rests at the right or the left edge of
/// the desktop, the repeat timer takes the dragged window one workspace further;
/// anywhere else, without a drag, and at the last workspace it does nothing.
pub proof fn law_repeat_goes_on_at_the_edge(wm: ShoestringWm, b: Rect, cur: Coord)
    requires
        1 <= wm.desktop.workspaces.active <= wm.desktop.workspaces.count,
        b.size.w > 0,
        cur.wf(),
    ensures
        ({
            let r = edge_shift(wm, Some(b), Some(cur));
            let active = wm.desktop.workspaces.active;
            let count = wm.desktop.workspaces.count;
            let at_right = cur.floor >= b.loc.x + b.size.w;
            let at_left = cur.ceil <= b.loc.x;
            &&& r is Some <==> wm.edge_drag_window is Some && (at_right && active < count
                || at_left && 1 < active)
            &&& r matches Some(s) ==> Some(s.window) == wm.edge_drag_window && s.workspace
                == if at_right {
                active + 1
            } else {
                active - 1
            }
        }),
        edge_shift(wm, None, Some(cur)) is None,
        edge_shift(wm, Some(b), None) is None,
{
}

/// A pointer at an edge is not well inside.
pub proof fn law_edge_is_not_inside(left: int, right: int, cur: Coord)
    requires
        left <= right,
        cur.wf(),
        pinned(left, right, cur) is Some,
    ensures
        !well_inside(left, right, cur),
{
}

/// A motion of a move grab notes where the pointer is and whether the edge is armed, and
/// changes nothing else of the grab.
pub proof fn law_motion_noted(
    before: MoveSurfaceGrab,
    bounds: Option<Rect>,
    cur: Coord,
    active: u8,
    count: u8,
    after: MoveSurfaceGrab,
    r: Option<u8>,
)
    requires
        moved(before, bounds, cur, active, count, after, r),
    ensures
        after == (MoveSurfaceGrab {
            last_pointer_x: cur,
            edge_disarmed: after.edge_disarmed,
            ..before
        }),
        bounds is None ==> r is None && after.edge_disarmed == before.edge_disarmed,
        r is Some ==> after.edge_disarmed,
{
}

} // verus!
