//! The pointer: motion and its constraints, buttons, scrolling, and tablet
//! tools.

use vstd::prelude::*;

use crate::config::FocusMode;
use crate::geometry::Point;
use crate::geometry::Rect;
use crate::geometry::Size;
use crate::inject::click_focus;
use crate::inject::ClickFocus;
use crate::input::shifted;
use crate::input::InputPlan;
use crate::input::ToolAxes;
use crate::input::BTN_LEFT;
use crate::input::BTN_RIGHT;
use crate::layout::Space;
use crate::state::ShoestringWm;

verus! {

/// The rectangle of the output at `i`, where it has one.
pub open spec fn area(space: Space, i: int) -> Option<Rect> {
    if 0 <= i < space.outputs@.len() {
        space.outputs@[i].geometry
    } else {
        None
    }
}

/// Whether the rectangle around all outputs can be written in coordinates.
pub open spec fn spans(space: Space) -> bool {
    &&& forall|i: int| #[trigger] area(space, i) matches Some(g) ==> g.fits()
    &&& forall|i: int, j: int|
        (#[trigger] area(space, i) matches Some(g) && #[trigger] area(space, j) matches Some(h)
            ==> g.right() - h.loc.x <= i32::MAX && g.bottom() - h.loc.y <= i32::MAX && g.right()
            - h.loc.x >= i32::MIN && g.bottom() - h.loc.y >= i32::MIN)
}

/// Whether `b` covers the output at `i`.
pub open spec fn covers(space: Space, b: Rect, i: int) -> bool {
    area(space, i) matches Some(g) ==> b.loc.x <= g.loc.x && b.loc.y <= g.loc.y && g.right()
        <= b.right() && g.bottom() <= b.bottom()
}

/// Whether `r` is the smallest rectangle around all outputs: it covers each, and
/// each of its edges is that of an output. There is none without outputs.
pub open spec fn bounds_of(space: Space, r: Option<Rect>) -> bool {
    match r {
        Some(b) => {
            &&& b.fits()
            &&& forall|i: int| #[trigger] covers(space, b, i)
            &&& exists|i: int| #[trigger] area(space, i) is Some && area(space, i)->0.loc.x == b.loc.x
            &&& exists|i: int| #[trigger] area(space, i) is Some && area(space, i)->0.loc.y == b.loc.y
            &&& exists|i: int|
                #[trigger] area(space, i) is Some && area(space, i)->0.right() == b.right()
            &&& exists|i: int|
                #[trigger] area(space, i) is Some && area(space, i)->0.bottom() == b.bottom()
        },
        None => forall|i: int| #[trigger] area(space, i) is None,
    }
}

/// The smallest rectangle around all outputs.
pub fn workspace_bounds(space: &Space) -> (r: Option<Rect>)
    requires
        spans(*space),
    ensures
        bounds_of(*space, r),
{
    let mut found = false;
    let mut x0: i64 = 0;
    let mut y0: i64 = 0;
    let mut x1: i64 = 0;
    let mut y1: i64 = 0;
    let ghost mut ix0: int = 0;
    let ghost mut iy0: int = 0;
    let ghost mut ix1: int = 0;
    let ghost mut iy1: int = 0;
    let mut i: usize = 0;
    while i < space.outputs.len()
        invariant
            i <= space.outputs@.len(),
            spans(*space),
            !found ==> forall|k: int| 0 <= k < i ==> #[trigger] area(*space, k) is None,
            found ==> {
                &&& area(*space, ix0) is Some && area(*space, ix0)->0.loc.x == x0
                &&& area(*space, iy0) is Some && area(*space, iy0)->0.loc.y == y0
                &&& area(*space, ix1) is Some && area(*space, ix1)->0.right() == x1
                &&& area(*space, iy1) is Some && area(*space, iy1)->0.bottom() == y1
                &&& forall|k: int|
                    0 <= k < i ==> (#[trigger] area(*space, k) matches Some(g) ==> x0 <= g.loc.x
                        && y0 <= g.loc.y && g.right() <= x1 && g.bottom() <= y1)
            },
        decreases space.outputs@.len() - i,
    {
        assert(area(*space, i as int) == space.outputs@[i as int].geometry);
        if let Some(g) = space.outputs[i].geometry {
            let left: i64 = g.loc.x as i64;
            let top: i64 = g.loc.y as i64;
            let right: i64 = g.loc.x as i64 + g.size.w as i64;
            let bottom: i64 = g.loc.y as i64 + g.size.h as i64;
            if !found || left < x0 {
                x0 = left;
                proof {
                    ix0 = i as int;
                }
            }
            if !found || top < y0 {
                y0 = top;
                proof {
                    iy0 = i as int;
                }
            }
            if !found || right > x1 {
                x1 = right;
                proof {
                    ix1 = i as int;
                }
            }
            if !found || bottom > y1 {
                y1 = bottom;
                proof {
                    iy1 = i as int;
                }
            }
            found = true;
        }
        i += 1;
    }
    if !found {
        assert forall|k: int| #[trigger] area(*space, k) is None by {
            if 0 <= k < space.outputs@.len() {
                assert(area(*space, k) is None);
            }
        }
        return None;
    }
    assert(area(*space, ix1) is Some && area(*space, ix0) is Some);
    assert(area(*space, iy1) is Some && area(*space, iy0) is Some);
    let b = Rect {
        loc: Point { x: x0 as i32, y: y0 as i32 },
        size: Size { w: (x1 - x0) as i32, h: (y1 - y0) as i32 },
    };
    proof {
        assert(b.right() == x1);
        assert(b.bottom() == y1);
        assert forall|k: int| #[trigger] covers(*space, b, k) by {
            if 0 <= k < space.outputs@.len() {
                assert(area(*space, k) matches Some(g) ==> x0 <= g.loc.x);
            }
        }
        assert(area(*space, ix0)->0.loc.x == b.loc.x);
        assert(area(*space, iy0)->0.loc.y == b.loc.y);
        assert(area(*space, ix1)->0.right() == b.right());
        assert(area(*space, iy1)->0.bottom() == b.bottom());
    }
    Some(b)
}

/// A pointer constraint on the surface under the pointer.
#[derive(Clone, Copy, Debug, PartialEq, Eq, Structural)]
pub struct Constraint {
    pub active: bool,
    /// Whether the pointer is in the constraint's region, if it has one.
    pub in_region: Option<bool>,
    /// Whether the pointer is locked in place; else it is confined.
    pub locks: bool,
}

/// What a constraint does to the pointer at the moment.
#[derive(Clone, Copy, Debug, PartialEq, Eq, Structural)]
pub enum Hold {
    Free,
    Locked,
    Confined,
}

/// What a constraint does: nothing unless it is active and the pointer is in its
/// region.
pub open spec fn hold_of(c: Option<Constraint>) -> Hold {
    match c {
        Some(c) => if !c.active || c.in_region == Some(false) {
            Hold::Free
        } else if c.locks {
            Hold::Locked
        } else {
            Hold::Confined
        },
        None => Hold::Free,
    }
}

/// What a constraint on the surface under the pointer does at the moment.
pub fn hold(c: Option<Constraint>) -> (r: Hold)
    ensures
        r == hold_of(c),
{
    match c {
        Some(c) => {
            let outside = match c.in_region {
                Some(inside) => !inside,
                None => false,
            };
            if !c.active || outside {
                Hold::Free
            } else if c.locks {
                Hold::Locked
            } else {
                Hold::Confined
            }
        },
        None => Hold::Free,
    }
}

/// Whether a motion leaves the pointer within what holds it.
pub open spec fn stays_held(hold: Hold, same_surface: bool, inside: Option<bool>) -> bool {
    match hold {
        Hold::Free => true,
        Hold::Locked => false,
        Hold::Confined => same_surface && inside != Some(false),
    }
}

/// Whether a relative motion moves the pointer. Every motion is reported as
/// relative; a locked pointer stays, a confined one stays where the motion would
/// leave its surface or its region. `same_surface` and `inside` are of the new
/// place; `inside` is none where the constraint has no region.
pub fn motion_moves(hold: Hold, same_surface: bool, inside: Option<bool>) -> (r: bool)
    ensures
        r == stays_held(hold, same_surface, inside),
{
    match hold {
        Hold::Free => true,
        Hold::Locked => false,
        Hold::Confined => {
            let outside = match inside {
                Some(b) => !b,
                None => false,
            };
            same_surface && !outside
        },
    }
}

/// Whether a constraint takes hold at the pointer's new place: it is not active
/// yet, and the pointer is in its region.
pub open spec fn takes_hold(c: Option<Constraint>) -> bool {
    c matches Some(k) && !k.active && k.in_region != Some(false)
}

/// Whether a constraint takes hold at the pointer's new place.
pub fn activates(c: Option<Constraint>) -> (r: bool)
    ensures
        r == takes_hold(c),
{
    match c {
        Some(k) => {
            let outside = match k.in_region {
                Some(inside) => !inside,
                None => false,
            };
            !k.active && !outside
        },
        None => false,
    }
}

/// The rectangle that absolute positions are mapped to: that of the first
/// output.
pub fn absolute_area(space: &Space) -> (r: Option<Rect>)
    ensures
        r == area(*space, 0),
{
    if space.outputs.len() > 0 {
        space.outputs[0].geometry
    } else {
        None
    }
}

/// A pointer button and what is around the pointer.
#[derive(Clone, Copy, Debug)]
pub struct ButtonPress {
    pub button: u32,
    pub pressed: bool,
    /// Whether a grab has the pointer.
    pub grabbed: bool,
    /// The window under the pointer.
    pub window: Option<u64>,
    /// Whether a top or overlay layer surface is under the pointer.
    pub overlay: bool,
    /// Whether any surface is under the pointer.
    pub surface: bool,
    /// Whether the logo key is down.
    pub logo: bool,
}

/// What comes of a pointer button.
#[derive(Clone, Copy, Debug, PartialEq, Eq, Structural)]
pub enum ButtonPlan {
    /// The picking ends with the window, or without one. No client sees the
    /// button.
    EndPicker(Option<u64>),
    /// No client sees the button.
    Swallow,
    /// A drag of the window begins. No client sees the button.
    Drag(u64),
    /// The focus changes first, then the client gets the button.
    Deliver(ClickFocus),
}

/// What comes of a pointer button.
pub open spec fn button_plan(picking: bool, locked: bool, b: ButtonPress) -> ButtonPlan {
    if picking {
        if b.pressed {
            ButtonPlan::EndPicker(
                if b.button == BTN_LEFT {
                    b.window
                } else {
                    None
                },
            )
        } else {
            ButtonPlan::Swallow
        }
    } else if b.pressed && !b.grabbed && !locked {
        if b.window is Some && b.logo && (b.button == BTN_LEFT || b.button == BTN_RIGHT) {
            ButtonPlan::Drag(b.window->0)
        } else {
            ButtonPlan::Deliver(crate::inject::focus_for_click(b.window, b.overlay, b.surface))
        }
    } else {
        ButtonPlan::Deliver(ClickFocus::Keep)
    }
}

/// Where the focus goes when the pointer has moved.
pub open spec fn followed(
    wm: ShoestringWm,
    grabbed: bool,
    keyboard_focus: bool,
    window: Option<u64>,
) -> ClickFocus {
    if !wm.focus_follows(grabbed, keyboard_focus) {
        ClickFocus::Keep
    } else {
        match window {
            Some(w) => if wm.desktop.has_focus(w) {
                ClickFocus::Keep
            } else {
                ClickFocus::Focus(w)
            },
            None => if wm.config.focus_mode == FocusMode::FollowsMouse {
                ClickFocus::Clear
            } else {
                ClickFocus::Keep
            },
        }
    }
}

/// Which way a drag changes its window.
#[derive(Clone, Copy, Debug, PartialEq, Eq, Structural)]
pub enum DragKind {
    Move,
    Resize,
}

impl ShoestringWm {
    /// What comes of a pointer button. While a window is being picked, a left
    /// press picks the window under the pointer and any other press cancels.
    /// With the logo key down, the left and the right button drag a window.
    pub fn on_button(&self, b: ButtonPress) -> (r: ButtonPlan)
        ensures
            r == button_plan(self.pending_picker is Some, self.lock_session is Some, b),
    {
        if self.pending_picker.is_some() {
            if b.pressed {
                return ButtonPlan::EndPicker(
                    if b.button == BTN_LEFT {
                        b.window
                    } else {
                        None
                    },
                );
            }
            return ButtonPlan::Swallow;
        }
        if b.pressed && !b.grabbed && !self.is_locked() {
            if let Some(w) = b.window {
                if b.logo && (b.button == BTN_LEFT || b.button == BTN_RIGHT) {
                    return ButtonPlan::Drag(w);
                }
            }
            return ButtonPlan::Deliver(click_focus(b.window, b.overlay, b.surface));
        }
        ButtonPlan::Deliver(ClickFocus::Keep)
    }

    /// A drag of a window begins: the left button moves it, the other resizes
    /// it. A window that is not mapped is not dragged. A moved window is
    /// remembered, for the edges of the desktop.
    pub fn start_super_drag(&mut self, button: u32, window: u64, loc: Option<Point>) -> (r: Option<
        DragKind,
    >)
        ensures
            r == (if loc is None {
                None
            } else if button == BTN_LEFT {
                Some(DragKind::Move)
            } else {
                Some(DragKind::Resize)
            }),
            *final(self) == (ShoestringWm {
                edge_drag_window: if r == Some(DragKind::Move) {
                    Some(window)
                } else {
                    old(self).edge_drag_window
                },
                ..*old(self)
            }),
    {
        if loc.is_none() {
            return None;
        }
        if button == BTN_LEFT {
            self.edge_drag_window = Some(window);
            Some(DragKind::Move)
        } else {
            Some(DragKind::Resize)
        }
    }

    /// Whether the focus may follow the pointer at the moment.
    pub open spec fn focus_follows(self, grabbed: bool, keyboard_focus: bool) -> bool {
        &&& self.config.focus_mode != FocusMode::ClickToFocus
        &&& self.lock_session is None
        &&& self.pending_picker is None
        &&& !grabbed
        &&& !(self.desktop.focused is None && keyboard_focus)
    }

    /// Where the focus goes when the pointer has moved over `window`. A layer
    /// surface with the focus keeps it. Over the bare desktop only the strict
    /// mode gives the focus up.
    pub fn maybe_pointer_focus(&self, grabbed: bool, keyboard_focus: bool, window: Option<u64>) -> (r:
        ClickFocus)
        ensures
            r == followed(*self, grabbed, keyboard_focus, window),
    {
        if self.config.focus_mode == FocusMode::ClickToFocus || self.is_locked()
            || self.pending_picker.is_some() || grabbed {
            return ClickFocus::Keep;
        }
        if self.desktop.focused.is_none() && keyboard_focus {
            return ClickFocus::Keep;
        }
        match window {
            Some(w) => {
                let has = match self.desktop.focused {
                    Some(f) => f.id == w,
                    None => false,
                };
                if has {
                    ClickFocus::Keep
                } else {
                    ClickFocus::Focus(w)
                }
            },
            None => if self.config.focus_mode == FocusMode::FollowsMouse {
                ClickFocus::Clear
            } else {
                ClickFocus::Keep
            },
        }
    }

    /// Whether a wheel event scrolls the desktop: it has vertical travel, and
    /// nothing else has a claim to it.
    pub fn scrolls_desktop(
        &self,
        wheel: bool,
        vertical: bool,
        grabbed: bool,
        surface: bool,
    ) -> (r: bool)
        ensures
            r == (wheel && vertical && self.pending_picker is None && self.lock_session is None
                && !grabbed && !surface),
    {
        wheel && vertical && self.pending_picker.is_none() && !self.is_locked() && !grabbed
            && !surface
    }

    /// The wheel travel that switches the workspace.
    pub open spec fn scroll_threshold(self) -> int {
        crate::geometry::max(self.config.desktop_scroll_notches as int, 1) * NOTCH
    }

    /// Adds wheel travel over the desktop; positive travel is downward. The
    /// result lists the workspaces to go to, in order: up leads to the next one,
    /// down to the one before. Turning back drops the travel so far, and so does
    /// reaching the first or the last workspace.
    pub fn desktop_scroll(&mut self, travel: i64) -> (r: Vec<u8>)
        requires
            -SCROLL_LIMIT <= travel <= SCROLL_LIMIT,
            -SCROLL_LIMIT <= old(self).desktop_scroll_accum <= SCROLL_LIMIT,
            old(self).desktop.workspaces.count >= 1,
        ensures
            ({
                let start = scroll_start(old(self).desktop_scroll_accum as int, travel as int);
                let walk = scroll_walk(
                    start,
                    old(self).scroll_threshold(),
                    old(self).desktop.workspaces.active,
                    old(self).desktop.workspaces.count,
                );
                &&& r@ == walk.0
                &&& final(self).desktop_scroll_accum == walk.1
            }),
            -SCROLL_LIMIT <= final(self).desktop_scroll_accum <= SCROLL_LIMIT,
            *final(self) == (ShoestringWm {
                desktop_scroll_accum: final(self).desktop_scroll_accum,
                ..*old(self)
            }),
    {
        let notches: i64 = if self.config.desktop_scroll_notches >= 1 {
            self.config.desktop_scroll_notches as i64
        } else {
            1
        };
        let threshold: i64 = notches * NOTCH;
        let count = self.desktop.workspaces.count;
        let mut accum: i64 = self.desktop_scroll_accum;
        if accum != 0 && (travel > 0) != (accum > 0) {
            accum = 0;
        }
        accum = accum + travel;
        let mut active = self.desktop.workspaces.active;
        let mut r: Vec<u8> = Vec::new();
        let ghost start = accum as int;
        let ghost first = active;
        let ghost t = threshold as int;
        assert(r@ + scroll_walk(start, t, first, count).0 =~= scroll_walk(start, t, first, count).0);
        while accum >= threshold || accum <= -threshold
            invariant
                -2 * SCROLL_LIMIT <= accum <= 2 * SCROLL_LIMIT,
                NOTCH <= threshold <= 0xffff_ffff * NOTCH,
                t == threshold,
                count >= 1,
                scroll_walk(start, t, first, count).0 == r@ + scroll_walk(
                    accum as int,
                    t,
                    active,
                    count,
                ).0,
                scroll_walk(start, t, first, count).1 == scroll_walk(
                    accum as int,
                    t,
                    active,
                    count,
                ).1,
            decreases (if accum >= 0 {
                accum as int
            } else {
                -accum as int
            }),
        {
            let ghost here = accum as int;
            let delta: i32 = if accum < 0 {
                accum = accum + threshold;
                1
            } else {
                accum = accum - threshold;
                -1
            };
            let target = shifted(active, count, delta);
            if target == active {
                accum = 0;
                assert(scroll_walk(here, t, active, count) == (Seq::<u8>::empty(), 0int));
                assert(r@ + scroll_walk(here, t, active, count).0 =~= r@);
                assert(scroll_walk(0, t, active, count) == (Seq::<u8>::empty(), 0int));
            } else {
                let ghost rest = scroll_walk(accum as int, t, target, count);
                assert(scroll_walk(here, t, active, count) == (seq![target] + rest.0, rest.1));
                assert(r@ + (seq![target] + rest.0) =~= r@.push(target) + rest.0);
                r.push(target);
                active = target;
            }
        }
        assert(scroll_walk(accum as int, t, active, count) == (Seq::<u8>::empty(), accum as int));
        assert(r@ + Seq::<u8>::empty() =~= r@);
        self.desktop_scroll_accum = accum;
        r
    }

    /// The rectangle that a tablet is mapped to, the same as for absolute
    /// positions.
    pub fn tablet_tool_position(&self) -> (r: Option<Rect>)
        ensures
            r == area(self.desktop.space, 0),
    {
        absolute_area(&self.desktop.space)
    }

    /// A tablet tool has moved. The pointer follows it; where the tablet and the
    /// tool are known, `changed` of its axes go on to the client, and then the
    /// motion. Without an output nothing happens.
    pub fn on_tablet_tool_axis(&self, known: bool, changed: ToolAxes) -> (r: InputPlan)
        ensures
            r == tool_axis_plan(area(self.desktop.space, 0), known, changed),
    {
        match self.tablet_tool_position() {
            Some(area) => InputPlan::ToolMotion {
                area,
                axes: if known {
                    Some(changed)
                } else {
                    None
                },
            },
            None => InputPlan::Nothing,
        }
    }

    /// A tablet tool comes near or goes away. The tool is made known and the
    /// pointer follows it; the client is told where there is one, and the tablet
    /// and the tool are known.
    pub fn on_tablet_tool_proximity(&self, surface: bool, known: bool, near: bool) -> (r: InputPlan)
        ensures
            r == tool_proximity_plan(area(self.desktop.space, 0), surface, known, near),
    {
        match self.tablet_tool_position() {
            Some(area) => InputPlan::ToolProximity {
                area,
                tell: if surface && known {
                    Some(near)
                } else {
                    None
                },
            },
            None => InputPlan::Nothing,
        }
    }

    /// A tablet tool touches down or lifts off. Touching down over a window
    /// focuses it before the client is told, unless the session is locked or a
    /// window is being picked. A tool that is not known does nothing.
    pub fn on_tablet_tool_tip(&self, known: bool, down: bool, window: Option<u64>) -> (r: InputPlan)
        ensures
            r == tool_tip_plan(
                self.pending_picker is Some || self.lock_session is Some,
                known,
                down,
                window,
            ),
    {
        if !known {
            return InputPlan::Nothing;
        }
        InputPlan::ToolTip {
            down,
            focus: if down && !self.is_locked() && self.pending_picker.is_none() {
                window
            } else {
                None
            },
        }
    }

    /// A button of a tablet tool goes to the client as it is, where the tool is
    /// known.
    pub fn on_tablet_tool_button(&self, known: bool) -> (r: InputPlan)
        ensures
            r == (if known {
                InputPlan::ToolButton
            } else {
                InputPlan::Nothing
            }),
    {
        if known {
            InputPlan::ToolButton
        } else {
            InputPlan::Nothing
        }
    }
}

/// What comes of a tablet tool's motion.
pub open spec fn tool_axis_plan(area: Option<Rect>, known: bool, changed: ToolAxes) -> InputPlan {
    match area {
        Some(area) => InputPlan::ToolMotion {
            area,
            axes: if known {
                Some(changed)
            } else {
                None
            },
        },
        None => InputPlan::Nothing,
    }
}

/// What comes of a tablet tool that comes near or goes away.
pub open spec fn tool_proximity_plan(
    area: Option<Rect>,
    surface: bool,
    known: bool,
    near: bool,
) -> InputPlan {
    match area {
        Some(area) => InputPlan::ToolProximity {
            area,
            tell: if surface && known {
                Some(near)
            } else {
                None
            },
        },
        None => InputPlan::Nothing,
    }
}

/// What comes of a tablet tool that touches down or lifts off.
pub open spec fn tool_tip_plan(
    held: bool,
    known: bool,
    down: bool,
    window: Option<u64>,
) -> InputPlan {
    if known {
        InputPlan::ToolTip {
            down,
            focus: if down && !held {
                window
            } else {
                None
            },
        }
    } else {
        InputPlan::Nothing
    }
}

/// One wheel notch, in units of 1/256 of the wheel's own 120th of a notch.
pub const NOTCH: i64 = 30720;

/// More travel than any wheel makes.
pub const SCROLL_LIMIT: i64 = 0x0fff_ffff_ffff_ffff;

/// The travel that counts: what was there before counts only in the same
/// direction.
pub open spec fn scroll_start(accum: int, travel: int) -> int {
    if accum != 0 && (travel > 0) != (accum > 0) {
        travel
    } else {
        accum + travel
    }
}

/// The workspaces that wheel travel leads to, and the travel left over.
pub open spec fn scroll_walk(accum: int, threshold: int, active: u8, count: u8) -> (Seq<u8>, int)
    decreases
            if accum >= 0 {
                accum
            } else {
                -accum
            },
{
    if threshold <= 0 || -threshold < accum < threshold {
        (Seq::empty(), accum)
    } else {
        let up = accum < 0;
        let target = crate::input::shifted_workspace(
            active,
            count,
            if up {
                1
            } else {
                -1
            },
        );
        if target == active {
            (Seq::empty(), 0)
        } else {
            let rest = scroll_walk(
                if up {
                    accum + threshold
                } else {
                    accum - threshold
                },
                threshold,
                target,
                count,
            );
            (seq![target] + rest.0, rest.1)
        }
    }
}

/// Scrolling goes from workspace to neighboring workspace, never past the first
/// or the last, all in one direction, and leaves less than a notch's worth of
/// travel behind.
pub proof fn law_scroll_steps(accum: int, threshold: int, active: u8, count: u8)
    requires
        threshold > 0,
        1 <= active <= count,
    ensures
        ({
            let walk = scroll_walk(accum, threshold, active, count);
            let step: int = if accum < 0 {
                1
            } else {
                -1
            };
            &&& -threshold < walk.1 < threshold
            &&& forall|i: int|
                0 <= i < walk.0.len() ==> #[trigger] walk.0[i] == active + step * (i + 1) && 1
                    <= walk.0[i] <= count
        }),
    decreases
            if accum >= 0 {
                accum
            } else {
                -accum
            },
{
    if !(-threshold < accum < threshold) {
        let up = accum < 0;
        let step: int = if up {
            1
        } else {
            -1
        };
        let target = crate::input::shifted_workspace(active, count, step);
        if target != active {
            let next = if up {
                accum + threshold
            } else {
                accum - threshold
            };
            law_scroll_steps(next, threshold, target, count);
            let rest = scroll_walk(next, threshold, target, count);
            let walk = scroll_walk(accum, threshold, active, count);
            assert(walk.0 == seq![target] + rest.0);
            assert forall|i: int| 0 <= i < walk.0.len() implies #[trigger] walk.0[i] == active
                + step * (i + 1) && 1 <= walk.0[i] <= count by {
                if i > 0 {
                    assert(walk.0[i] == rest.0[i - 1]);
                    assert(step * (i + 1) == step + step * i) by (nonlinear_arith);
                    assert(step * (i - 1 + 1) == step * i);
                    if next == 0 {
                        assert(rest.0.len() == 0);
                    }
                } else {
                    assert(walk.0[0] == target);
                }
            }
        }
    }
}

/// One axis of a scroll event as it came.
#[derive(Clone, Copy, Debug)]
pub struct AxisInput {
    /// Whether there is any travel, from either kind of report.
    pub moved: bool,
    /// The discrete travel, where it is reported.
    pub discrete: Option<i32>,
    /// Whether the continuous travel is reported as exactly none.
    pub reported_zero: bool,
}

/// One axis of a scroll event as it goes on to the client.
#[derive(Clone, Copy, Debug, PartialEq, Eq, Structural)]
pub struct AxisOutput {
    pub send_value: bool,
    pub discrete: Option<i32>,
    pub stop: bool,
}

/// What of a scroll event goes on to the client.
pub open spec fn axis_output(finger: bool, a: AxisInput) -> AxisOutput {
    AxisOutput {
        send_value: a.moved,
        discrete: if a.moved {
            a.discrete
        } else {
            None
        },
        stop: finger && a.reported_zero,
    }
}

/// What of a scroll event goes on to the client: travel where there is any, and
/// the stop of a finger.
pub fn axis_frame(finger: bool, a: AxisInput) -> (r: AxisOutput)
    ensures
        r == axis_output(finger, a),
{
    AxisOutput {
        send_value: a.moved,
        discrete: if a.moved {
            a.discrete
        } else {
            None
        },
        stop: finger && a.reported_zero,
    }
}

/// How many workspaces wheel travel leads to: one for each whole threshold of
/// travel, as far as there are workspaces in that direction. Travel up leads to
/// higher workspaces, travel down to lower ones. What is left over is the rest of
/// the travel, or nothing where an end stopped it.
pub proof fn law_scroll_reaches(accum: int, threshold: int, active: u8, count: u8)
    requires
        threshold > 0,
        1 <= active <= count,
    ensures
        ({
            let walk = scroll_walk(accum, threshold, active, count);
            let far = if accum < 0 {
                -accum
            } else {
                accum
            };
            let room = if accum < 0 {
                count - active
            } else {
                active - 1
            };
            &&& walk.0.len() == if far / threshold <= room {
                far / threshold
            } else {
                room
            }
            &&& walk.0.len() > 0 ==> walk.0.last() == if accum < 0 {
                active + walk.0.len()
            } else {
                active - walk.0.len()
            }
            &&& far / threshold > room ==> walk.1 == 0
            &&& far / threshold <= room && accum >= 0 ==> walk.1 == far % threshold
            &&& far / threshold <= room && accum < 0 ==> walk.1 == -(far % threshold)
        }),
    decreases
            if accum >= 0 {
                accum
            } else {
                -accum
            },
{
    let far = if accum < 0 {
        -accum
    } else {
        accum
    };
    if -threshold < accum < threshold {
        vstd::arithmetic::div_mod::lemma_basic_div(far, threshold);
        vstd::arithmetic::div_mod::lemma_small_mod(far as nat, threshold as nat);
    } else {
        let up = accum < 0;
        let step: int = if up {
            1
        } else {
            -1
        };
        let next = if up {
            accum + threshold
        } else {
            accum - threshold
        };
        let left = far - threshold;
        assert(left / threshold == far / threshold - 1 && left % threshold == far % threshold) by {
            vstd::arithmetic::div_mod::lemma_div_plus_one(left, threshold);
            vstd::arithmetic::div_mod::lemma_mod_add_multiples_vanish(left, threshold);
        }
        assert(far / threshold >= 1) by {
            vstd::arithmetic::div_mod::lemma_div_pos_is_pos(left, threshold);
        }
        let target = crate::input::shifted_workspace(active, count, step);
        if target != active {
            law_scroll_reaches(next, threshold, target, count);
            let rest = scroll_walk(next, threshold, target, count);
            let walk = scroll_walk(accum, threshold, active, count);
            assert(walk.0 == seq![target] + rest.0);
            if next == 0 {
                assert(rest.0.len() == 0);
            }
            if rest.0.len() > 0 {
                assert(walk.0.last() == rest.0.last());
            } else {
                assert(walk.0.last() == target);
            }
        }
    }
}

/// Wheel travel adds up in one direction and starts afresh when it turns.
pub proof fn law_scroll_adds_up(accum: int, travel: int)
    ensures
        accum > 0 && travel > 0 ==> scroll_start(accum, travel) == accum + travel,
        accum < 0 && travel < 0 ==> scroll_start(accum, travel) == accum + travel,
        accum > 0 && travel < 0 ==> scroll_start(accum, travel) == travel,
        accum < 0 && travel > 0 ==> scroll_start(accum, travel) == travel,
        accum == 0 ==> scroll_start(accum, travel) == travel,
{
}

/// The travel that switches the workspace is as many notches as the settings say,
/// and never less than one.
pub proof fn law_scroll_threshold(wm: ShoestringWm)
    ensures
        wm.config.desktop_scroll_notches >= 1 ==> wm.scroll_threshold()
            == wm.config.desktop_scroll_notches * 30720,
        wm.config.desktop_scroll_notches == 0 ==> wm.scroll_threshold() == 30720,
{
}

/// A press with the logo key down over a window drags that window, with the left
/// button as with the right one, and no other press or release does. The client
/// does not see the press. A locked session, a window that is being picked and a
/// grab of the pointer come first.
pub proof fn law_logo_press_drags(picking: bool, locked: bool, b: ButtonPress)
    ensures
        ({
            let plan = button_plan(picking, locked, b);
            &&& !picking && !locked && !b.grabbed && b.pressed && b.logo && (b.button == 0x110
                || b.button == 0x111) ==> (b.window matches Some(w) ==> plan
                == ButtonPlan::Drag(w))
            &&& plan is Drag ==> {
                &&& !picking && !locked && !b.grabbed && b.pressed && b.logo
                &&& b.button == 0x110 || b.button == 0x111
                &&& b.window == Some(plan->Drag_0)
            }
        }),
{
}

/// While a window is being picked, no client sees a button: a left press picks the
/// window under the pointer, any other press ends the picking without one, and a
/// release does nothing.
pub proof fn law_press_picks(locked: bool, b: ButtonPress)
    ensures
        ({
            let plan = button_plan(true, locked, b);
            &&& b.pressed && b.button == 0x110 ==> plan == ButtonPlan::EndPicker(b.window)
            &&& b.pressed && b.button != 0x110 ==> plan == ButtonPlan::EndPicker(None)
            &&& !b.pressed ==> plan is Swallow
        }),
        button_plan(false, locked, b) is Drag || button_plan(false, locked, b) is Deliver,
{
}

/// A press on a window focuses it, unless a layer surface lies above it; a press
/// on the bare desktop clears the focus. Nothing changes the focus on a release,
/// during a grab or while the session is locked.
pub proof fn law_press_focuses(locked: bool, b: ButtonPress)
    requires
        !b.logo,
    ensures
        ({
            let plan = button_plan(false, locked, b);
            let live = b.pressed && !b.grabbed && !locked;
            &&& plan is Deliver
            &&& !live ==> plan->Deliver_0 is Keep
            &&& live && !b.overlay ==> (b.window matches Some(w) ==> plan->Deliver_0
                == ClickFocus::Focus(w))
            &&& live && b.overlay && b.window is Some ==> plan->Deliver_0 is Keep
            &&& live && b.window is None && b.surface ==> plan->Deliver_0 is Keep
            &&& live && b.window is None && !b.surface ==> plan->Deliver_0 is Clear
        }),
{
}

/// The focus follows the pointer in both modes that follow it: it goes to the
/// window that the pointer has come over. Over no window the strict mode gives it
/// up and the sloppy mode keeps it. With clicks to focus, while the session is
/// locked, while a window is being picked, during a grab, and while something else
/// than a window has the keyboard, it stays.
pub proof fn law_focus_follows_pointer(
    wm: ShoestringWm,
    grabbed: bool,
    keyboard_focus: bool,
    window: Option<u64>,
)
    ensures
        ({
            let f = followed(wm, grabbed, keyboard_focus, window);
            let held = wm.lock_session is Some || wm.pending_picker is Some || grabbed || (
            wm.desktop.focused is None && keyboard_focus);
            let mode = wm.config.focus_mode;
            &&& held || mode is ClickToFocus ==> f is Keep
            &&& !held && !(mode is ClickToFocus) ==> (window matches Some(w) ==> if (
            wm.desktop.focused matches Some(had) && had.id == w) {
                f is Keep
            } else {
                f == ClickFocus::Focus(w)
            })
            &&& !held && mode is FollowsMouse && window is None ==> f is Clear
            &&& !held && mode is Sloppy && window is None ==> f is Keep
        }),
{
}

/// A constraint holds the pointer only while it is active and the pointer is in
/// its region. A locked pointer does not move; a confined one moves only within
/// its surface and its region; a free one always moves.
pub proof fn law_held_pointer(c: Constraint, same_surface: bool, inside: Option<bool>)
    ensures
        ({
            let holds = c.active && c.in_region != Some(false);
            let moves = stays_held(hold_of(Some(c)), same_surface, inside);
            &&& !holds ==> moves
            &&& holds && c.locks ==> !moves
            &&& holds && !c.locks && !same_surface ==> !moves
            &&& holds && !c.locks && inside == Some(false) ==> !moves
            &&& holds && !c.locks && same_surface && inside != Some(false) ==> moves
        }),
        stays_held(hold_of(None), same_surface, inside),
{
}

/// A constraint takes hold once, when the pointer is in its region.
pub proof fn law_constraint_takes_hold(c: Constraint)
    ensures
        takes_hold(Some(c)) ==> !c.active && hold_of(Some(Constraint { active: true, ..c }))
            != Hold::Free,
        !c.active && hold_of(Some(Constraint { active: true, ..c })) != Hold::Free ==> takes_hold(
            Some(c),
        ),
        !takes_hold(None),
{
}

/// A scroll event goes on as it came: nothing is sent of an axis without travel,
/// a discrete step never without its value, and a stop is of a finger alone.
pub proof fn law_scroll_goes_on(finger: bool, a: AxisInput)
    ensures
        ({
            let out = axis_output(finger, a);
            &&& out.send_value <==> a.moved
            &&& a.moved ==> out.discrete == a.discrete
            &&& !a.moved ==> out.discrete is None
            &&& out.stop <==> finger && a.reported_zero
        }),
{
}

/// A tablet tool moves the pointer on the first output and tells its client only
/// where tablet and tool are known; without an output nothing comes of it. A tip
/// focuses only as it goes down, and not while the session is locked or a window
/// is being picked.
pub proof fn law_tablet_tool(
    area: Option<Rect>,
    known: bool,
    changed: ToolAxes,
    surface: bool,
    near: bool,
    held: bool,
    down: bool,
    window: Option<u64>,
)
    ensures
        area is None ==> tool_axis_plan(area, known, changed) is Nothing && tool_proximity_plan(
            area,
            surface,
            known,
            near,
        ) is Nothing,
        area matches Some(a) ==> {
            &&& tool_axis_plan(area, known, changed) matches InputPlan::ToolMotion {
                area: at,
                axes,
            } && at == a && (known ==> axes == Some(changed)) && (!known ==> axes is None)
            &&& tool_proximity_plan(area, surface, known, near) matches InputPlan::ToolProximity {
                area: at,
                tell,
            } && at == a && (known && surface ==> tell == Some(near)) && (!known || !surface
                ==> tell is None)
        },
        !known ==> tool_tip_plan(held, known, down, window) is Nothing,
        known ==> (tool_tip_plan(held, known, down, window) matches InputPlan::ToolTip {
            down: d,
            focus,
        } && d == down && (down && !held ==> focus == window) && (!down || held
            ==> focus is None)),
{
}

/// The rectangle around all outputs holds every point of every output, and it
/// reaches no further than some output does on each side.
pub proof fn law_bounds_around_outputs(space: Space, b: Rect, i: int, x: int, y: int)
    requires
        bounds_of(space, Some(b)),
        0 <= i < space.outputs@.len(),
        space.outputs@[i].geometry is Some,
    ensures
        ({
            let g = space.outputs@[i].geometry->0;
            g.loc.x <= x < g.loc.x + g.size.w && g.loc.y <= y < g.loc.y + g.size.h ==> b.loc.x <= x
                < b.loc.x + b.size.w && b.loc.y <= y < b.loc.y + b.size.h
        }),
        exists|k: int|
            0 <= k < space.outputs@.len() && (#[trigger] space.outputs@[k]).geometry is Some
                && space.outputs@[k].geometry->0.loc.x == b.loc.x,
        exists|k: int|
            0 <= k < space.outputs@.len() && (#[trigger] space.outputs@[k]).geometry is Some
                && space.outputs@[k].geometry->0.loc.y == b.loc.y,
        exists|k: int|
            0 <= k < space.outputs@.len() && (#[trigger] space.outputs@[k]).geometry is Some
                && space.outputs@[k].geometry->0.loc.x + space.outputs@[k].geometry->0.size.w
                == b.loc.x + b.size.w,
        exists|k: int|
            0 <= k < space.outputs@.len() && (#[trigger] space.outputs@[k]).geometry is Some
                && space.outputs@[k].geometry->0.loc.y + space.outputs@[k].geometry->0.size.h
                == b.loc.y + b.size.h,
        !bounds_of(space, None),
{
    assert(covers(space, b, i));
    assert(area(space, i) == space.outputs@[i].geometry);
    let l = choose|k: int|
        #[trigger] area(space, k) is Some && area(space, k)->0.loc.x == b.loc.x;
    assert(space.outputs@[l].geometry is Some);
    let t = choose|k: int|
        #[trigger] area(space, k) is Some && area(space, k)->0.loc.y == b.loc.y;
    assert(space.outputs@[t].geometry is Some);
    let r = choose|k: int|
        #[trigger] area(space, k) is Some && area(space, k)->0.right() == b.right();
    assert(space.outputs@[r].geometry is Some);
    let m = choose|k: int|
        #[trigger] area(space, k) is Some && area(space, k)->0.bottom() == b.bottom();
    assert(space.outputs@[m].geometry is Some);
}

} // verus!
