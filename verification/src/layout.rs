//! Window layout: tile left and right, maximize, fullscreen, minimize.
//!
//! [`LayoutManager`] keeps one record per window. Asking again for the tile or
//! maximize state that a window is in restores the rectangle it had before.
//! Minimized windows wait on a stack and come back in reverse order.

use std::collections::HashMap;

use vstd::prelude::*;

use crate::geometry::Point;
use crate::geometry::Rect;
use crate::geometry::Size;

verus! {

broadcast use vstd::std_specs::hash::group_hash_axioms;

/// How a window is laid out.
#[derive(Clone, Copy, Debug, PartialEq, Eq, Structural)]
pub enum LayoutState {
    Floating,
    TiledLeft,
    TiledRight,
    Maximized,
    /// Covers the whole output, bars and docks included. Entered by
    /// [`set_fullscreen`] alone.
    Fullscreen,
}

/// What is remembered of one window.
#[derive(Clone, Copy, Debug, PartialEq, Eq, Structural)]
pub struct WindowMeta {
    pub layout: LayoutState,
    /// The rectangle before the window was tiled, maximized or made fullscreen.
    pub saved_rect: Option<Rect>,
    /// The layout to return to when fullscreen ends.
    pub pre_fullscreen: Option<LayoutState>,
}

/// The record of a window of which nothing is remembered.
pub open spec fn fresh_meta() -> WindowMeta {
    WindowMeta { layout: LayoutState::Floating, saved_rect: None, pre_fullscreen: None }
}

impl Default for WindowMeta {
    fn default() -> (r: Self)
        ensures
            r == fresh_meta(),
    {
        WindowMeta { layout: LayoutState::Floating, saved_rect: None, pre_fullscreen: None }
    }
}

/// A window as the layout sees it: its identity and the size of its geometry.
#[derive(Clone, Copy, Debug, PartialEq, Eq, Structural)]
pub struct Window {
    pub id: u64,
    pub size: Size,
}

/// A window that is mapped: where it is and which outputs show it.
#[derive(Debug)]
pub struct Placed {
    pub window: Window,
    pub loc: Point,
    pub outputs: Vec<u64>,
}

/// An output as the layout sees it.
#[derive(Clone, Copy, Debug)]
pub struct OutputArea {
    pub id: u64,
    /// Its place in the desktop; none while it has no mode.
    pub geometry: Option<Rect>,
    /// What bars and docks leave free, relative to the output.
    pub zone: Rect,
}

/// The mapped windows, lowest first, and the outputs.
#[derive(Debug)]
pub struct Space {
    pub elements: Vec<Placed>,
    pub outputs: Vec<OutputArea>,
}

impl OutputArea {
    /// The free rectangle of the output, in desktop coordinates.
    pub open spec fn usable(self) -> Option<Rect> {
        match self.geometry {
            Some(geo) => Some(
                Rect {
                    loc: Point {
                        x: (geo.loc.x + self.zone.loc.x) as i32,
                        y: (geo.loc.y + self.zone.loc.y) as i32,
                    },
                    size: self.zone.size,
                },
            ),
            None => None,
        }
    }

    /// Whether the free rectangle can be written in coordinates.
    pub open spec fn fits(self) -> bool {
        match self.geometry {
            Some(geo) => {
                &&& i32::MIN <= geo.loc.x + self.zone.loc.x <= i32::MAX
                &&& i32::MIN <= geo.loc.y + self.zone.loc.y <= i32::MAX
                &&& i32::MIN <= geo.loc.x + self.zone.loc.x + self.zone.size.w <= i32::MAX
                &&& i32::MIN <= geo.loc.y + self.zone.loc.y + self.zone.size.h <= i32::MAX
            },
            None => true,
        }
    }
}

impl Space {
    /// Whether every output's free rectangle can be written in coordinates.
    pub open spec fn fits(self) -> bool {
        forall|i: int| 0 <= i < self.outputs@.len() ==> (#[trigger] self.outputs@[i]).fits()
    }

    /// Whether `i` is the place of the window `id` among the mapped windows.
    pub open spec fn placed_at(self, id: u64, i: int) -> bool {
        &&& 0 <= i < self.elements@.len()
        &&& self.elements@[i].window.id == id
        &&& forall|j: int| 0 <= j < i ==> (#[trigger] self.elements@[j]).window.id != id
    }

    /// Where the window `id` is mapped.
    pub open spec fn location(self, id: u64) -> Option<Point> {
        if exists|i: int| self.placed_at(id, i) {
            Some(self.elements@[choose|i: int| self.placed_at(id, i)].loc)
        } else {
            None
        }
    }

    /// Where the window `id` is mapped, if it is.
    pub fn element_location(&self, id: u64) -> (r: Option<Point>)
        ensures
            r == self.location(id),
    {
        let mut i: usize = 0;
        while i < self.elements.len()
            invariant
                i <= self.elements@.len(),
                forall|j: int| 0 <= j < i ==> (#[trigger] self.elements@[j]).window.id != id,
            decreases self.elements@.len() - i,
        {
            if self.elements[i].window.id == id {
                proof {
                    assert(self.placed_at(id, i as int));
                    let c = choose|c: int| self.placed_at(id, c);
                    assert(self.placed_at(id, c));
                    if c < i {
                        assert(self.elements@[c].window.id != id);
                    }
                    if (i as int) < c {
                        assert(self.elements@[i as int].window.id != id);
                    }
                }
                return Some(self.elements[i].loc);
            }
            i += 1;
        }
        assert(forall|k: int| !self.placed_at(id, k));
        None
    }
}

/// The layout records and the stack of minimized windows.
#[derive(Debug)]
pub struct LayoutManager {
    pub meta: HashMap<u64, WindowMeta>,
    /// Each with its rectangle at the time; the last was minimized last.
    pub minimized: Vec<(u64, Rect)>,
}

/// Every minimized window but one.
pub open spec fn not_hidden(w: u64) -> spec_fn((u64, Rect)) -> bool {
    |e: (u64, Rect)| e.0 != w
}

impl LayoutManager {
    /// What is remembered of a window.
    pub open spec fn meta_of(self, w: u64) -> WindowMeta {
        if self.meta@.contains_key(w) {
            self.meta@[w]
        } else {
            fresh_meta()
        }
    }

    /// The place of the first entry of a window on the stack.
    pub open spec fn stacked_at(self, w: u64, i: int) -> bool {
        &&& 0 <= i < self.minimized@.len()
        &&& self.minimized@[i].0 == w
        &&& forall|j: int| 0 <= j < i ==> (#[trigger] self.minimized@[j]).0 != w
    }

    /// Nothing remembered, nothing minimized.
    pub fn new() -> (r: Self)
        ensures
            r.meta@ == Map::<u64, WindowMeta>::empty(),
            r.minimized@ == Seq::<(u64, Rect)>::empty(),
    {
        LayoutManager { meta: HashMap::new(), minimized: Vec::new() }
    }

    fn entry(&self, w: u64) -> (r: WindowMeta)
        ensures
            r == self.meta_of(w),
    {
        match self.meta.get(&w) {
            Some(m) => *m,
            None => WindowMeta::default(),
        }
    }

    /// Drops everything about a window.
    pub fn forget(&mut self, w: u64)
        ensures
            final(self).meta@ == old(self).meta@.remove(w),
            final(self).minimized@ == old(self).minimized@.filter(not_hidden(w)),
    {
        self.meta.remove(&w);
        let mut kept: Vec<(u64, Rect)> = Vec::new();
        let mut i: usize = 0;
        let ghost others = not_hidden(w);
        let ghost before = self.minimized@;
        assert(before.take(0).filter(others) =~= Seq::empty()) by {
            reveal(Seq::filter);
        }
        while i < self.minimized.len()
            invariant
                i <= self.minimized@.len(),
                self.minimized@ == before,
                others == not_hidden(w),
                kept@ == before.take(i as int).filter(others),
            decreases self.minimized@.len() - i,
        {
            let e = self.minimized[i];
            assert(before.take(i + 1).drop_last() =~= before.take(i as int));
            reveal(Seq::filter);
            if e.0 != w {
                kept.push(e);
            }
            i += 1;
        }
        assert(before.take(i as int) =~= before);
        self.minimized = kept;
    }

    /// Puts a window on top of the stack of minimized windows.
    pub fn push_minimized(&mut self, w: u64, rect: Rect)
        ensures
            final(self).minimized@ == old(self).minimized@.push((w, rect)),
            final(self).meta == old(self).meta,
    {
        self.minimized.push((w, rect));
    }

    /// The place of the first entry of `w` on the stack.
    fn stack_index(&self, w: u64) -> (r: Option<usize>)
        ensures
            match r {
                Some(i) => self.stacked_at(w, i as int),
                None => forall|i: int| !self.stacked_at(w, i),
            },
    {
        let mut i: usize = 0;
        while i < self.minimized.len()
            invariant
                i <= self.minimized@.len(),
                forall|j: int| 0 <= j < i ==> (#[trigger] self.minimized@[j]).0 != w,
            decreases self.minimized@.len() - i,
        {
            if self.minimized[i].0 == w {
                return Some(i);
            }
            i += 1;
        }
        None
    }

    /// Whether a window is minimized.
    pub fn is_minimized(&self, w: u64) -> (r: bool)
        ensures
            r == exists|i: int| 0 <= i < self.minimized@.len() && (#[trigger] self.minimized@[i]).0 == w,
    {
        let mut i: usize = 0;
        while i < self.minimized.len()
            invariant
                i <= self.minimized@.len(),
                forall|j: int| 0 <= j < i ==> (#[trigger] self.minimized@[j]).0 != w,
            decreases self.minimized@.len() - i,
        {
            if self.minimized[i].0 == w {
                return true;
            }
            i += 1;
        }
        false
    }

    /// The layout of a window; floating where nothing is remembered of it.
    pub fn layout_state(&self, w: u64) -> (r: LayoutState)
        ensures
            r == self.meta_of(w).layout,
    {
        self.entry(w).layout
    }

    /// Takes a window off the stack, wherever it is, and returns the rectangle
    /// it was minimized at.
    pub fn take_minimized(&mut self, w: u64) -> (r: Option<Rect>)
        ensures
            final(self).meta == old(self).meta,
            match r {
                Some(rect) => exists|i: int| #[trigger] old(self).stacked_at(w, i) && rect
                    == old(self).minimized@[i].1 && final(self).minimized@
                    == old(self).minimized@.remove(i),
                None => (forall|i: int| 0 <= i < old(self).minimized@.len() ==> (
                #[trigger] old(self).minimized@[i]).0 != w) && final(self).minimized@
                    == old(self).minimized@,
            },
    {
        match self.stack_index(w) {
            Some(i) => {
                let e = self.minimized.remove(i);
                assert(old(self).stacked_at(w, i as int));
                Some(e.1)
            },
            None => {
                proof {
                    if exists|i: int|
                        0 <= i < self.minimized@.len() && (#[trigger] self.minimized@[i]).0 == w {
                        let k = choose|i: int|
                            0 <= i < self.minimized@.len() && (#[trigger] self.minimized@[i]).0 == w;
                        lemma_first(self.minimized@, w, k);
                        let f = choose|i: int| stacked_first(self.minimized@, w, i);
                        assert(self.stacked_at(w, f));
                    }
                }
                None
            },
        }
    }

    /// Takes the window that was minimized last and is still alive. Dead
    /// windows above it are dropped.
    pub fn pop_live_minimized(&mut self, alive: &Vec<u64>) -> (r: Option<(u64, Rect)>)
        ensures
            final(self).meta == old(self).meta,
            match r {
                Some(e) => exists|i: int|
                    {
                        &&& 0 <= i < old(self).minimized@.len()
                        &&& #[trigger] old(self).minimized@[i] == e
                        &&& alive@.contains(e.0)
                        &&& final(self).minimized@ == old(self).minimized@.take(i)
                        &&& forall|j: int|
                            i < j < old(self).minimized@.len() ==> !alive@.contains(
                                (#[trigger] old(self).minimized@[j]).0,
                            )
                    },
                None => final(self).minimized@.len() == 0 && forall|j: int|
                    0 <= j < old(self).minimized@.len() ==> !alive@.contains(
                        (#[trigger] old(self).minimized@[j]).0,
                    ),
            },
    {
        let ghost before = self.minimized@;
        assert(before.take(before.len() as int) =~= before);
        while self.minimized.len() > 0
            invariant
                self.meta == old(self).meta,
                before == old(self).minimized@,
                self.minimized@.len() <= before.len(),
                self.minimized@ == before.take(self.minimized@.len() as int),
                forall|j: int|
                    self.minimized@.len() <= j < before.len() ==> !alive@.contains(
                        (#[trigger] before[j]).0,
                    ),
            decreases self.minimized@.len(),
        {
            let ghost n = self.minimized@.len() - 1;
            let top = self.minimized.pop();
            assert(self.minimized@ =~= before.take(n));
            if let Some(e) = top {
                assert(e == before[n]);
                if contains_id(alive, e.0) {
                    return Some(e);
                }
            }
        }
        None
    }
}

spec fn stacked_first(s: Seq<(u64, Rect)>, w: u64, i: int) -> bool {
    &&& 0 <= i < s.len()
    &&& s[i].0 == w
    &&& forall|j: int| 0 <= j < i ==> (#[trigger] s[j]).0 != w
}

proof fn lemma_first(s: Seq<(u64, Rect)>, w: u64, k: int)
    requires
        0 <= k < s.len(),
        s[k].0 == w,
    ensures
        exists|i: int| stacked_first(s, w, i),
    decreases k,
{
    if exists|j: int| 0 <= j < k && (#[trigger] s[j]).0 == w {
        let j = choose|j: int| 0 <= j < k && (#[trigger] s[j]).0 == w;
        lemma_first(s, w, j);
    } else {
        assert(stacked_first(s, w, k));
    }
}

/// Whether a list of identities holds `id`.
pub fn contains_id(v: &Vec<u64>, id: u64) -> (r: bool)
    ensures
        r == v@.contains(id),
{
    let mut i: usize = 0;
    while i < v.len()
        invariant
            i <= v@.len(),
            forall|j: int| 0 <= j < i ==> v@[j] != id,
        decreases v@.len() - i,
    {
        if v[i] == id {
            return true;
        }
        i += 1;
    }
    false
}

/// Whether `rect` holds `point`. A point on the right or the bottom edge belongs
/// to the next output.
pub fn rect_contains(rect: Rect, point: Point) -> (r: bool)
    ensures
        r == rect.holds(point.x as int, point.y as int),
{
    point.x >= rect.loc.x && (point.x as i64) < rect.loc.x as i64 + rect.size.w as i64 && point.y
        >= rect.loc.y && (point.y as i64) < rect.loc.y as i64 + rect.size.h as i64
}

/// Whether the output at `i` is the first that holds the center of a window at
/// `loc`.
pub open spec fn first_under(space: Space, loc: Point, size: Size, i: int) -> bool {
    &&& 0 <= i < space.outputs@.len()
    &&& center_on(space.outputs@[i], loc, size)
    &&& forall|j: int| 0 <= j < i ==> !center_on(#[trigger] space.outputs@[j], loc, size)
}

/// Whether an output holds the center of a window.
pub open spec fn center_on(o: OutputArea, loc: Point, size: Size) -> bool {
    match o.geometry {
        Some(geo) => geo.holds(
            loc.x + crate::geometry::quot(size.w as int, 2),
            loc.y + crate::geometry::quot(size.h as int, 2),
        ),
        None => false,
    }
}

/// The output of a window: the first one under the window's center, else the
/// first one there is.
pub open spec fn is_output_of(space: Space, window: Window, i: int) -> bool {
    let under = match space.location(window.id) {
        Some(loc) => exists|k: int| first_under(space, loc, window.size, k),
        None => false,
    };
    if under {
        first_under(space, space.location(window.id)->0, window.size, i)
    } else {
        i == 0 && space.outputs@.len() > 0
    }
}

/// The place of a window's output among the outputs.
fn output_under(space: &Space, window: Window) -> (r: Option<usize>)
    ensures
        match r {
            Some(i) => i < space.outputs@.len() && is_output_of(*space, window, i as int),
            None => space.outputs@.len() == 0,
        },
{
    if let Some(loc) = space.element_location(window.id) {
        let cx: i64 = loc.x as i64 + (window.size.w / 2) as i64;
        let cy: i64 = loc.y as i64 + (window.size.h / 2) as i64;
        let mut i: usize = 0;
        while i < space.outputs.len()
            invariant
                i <= space.outputs@.len(),
                space.location(window.id) == Some(loc),
                cx == loc.x + crate::geometry::quot(window.size.w as int, 2),
                cy == loc.y + crate::geometry::quot(window.size.h as int, 2),
                forall|j: int|
                    0 <= j < i ==> !center_on(#[trigger] space.outputs@[j], loc, window.size),
            decreases space.outputs@.len() - i,
        {
            if let Some(geo) = space.outputs[i].geometry {
                if cx >= geo.loc.x as i64 && cx < geo.loc.x as i64 + geo.size.w as i64 && cy
                    >= geo.loc.y as i64 && cy < geo.loc.y as i64 + geo.size.h as i64 {
                    assert(first_under(*space, loc, window.size, i as int));
                    assert(exists|k: int| first_under(*space, loc, window.size, k));
                    assert(is_output_of(*space, window, i as int));
                    return Some(i);
                }
            }
            i += 1;
        }
        assert(forall|k: int| !first_under(*space, loc, window.size, k));
    }
    if space.outputs.len() > 0 {
        Some(0)
    } else {
        None
    }
}

/// The free rectangle of a window's output.
pub open spec fn usable_of(space: Space, window: Window) -> Option<Rect> {
    if space.outputs@.len() == 0 {
        None
    } else {
        space.outputs@[choose|i: int| is_output_of(space, window, i)].usable()
    }
}

/// The whole rectangle of a window's output.
pub open spec fn area_of(space: Space, window: Window) -> Option<Rect> {
    if space.outputs@.len() == 0 {
        None
    } else {
        space.outputs@[choose|i: int| is_output_of(space, window, i)].geometry
    }
}

proof fn lemma_output_unique(space: Space, window: Window, i: int, j: int)
    requires
        is_output_of(space, window, i),
        is_output_of(space, window, j),
    ensures
        i == j,
{
    if space.location(window.id) is Some {
        let loc = space.location(window.id)->0;
        if exists|k: int| first_under(space, loc, window.size, k) {
            if i < j {
                assert(!center_on(space.outputs@[i], loc, window.size));
            }
            if j < i {
                assert(!center_on(space.outputs@[j], loc, window.size));
            }
        }
    }
}

/// What bars and docks leave free on the window's output, in desktop
/// coordinates.
pub fn usable_rect_for(space: &Space, window: Window) -> (r: Option<Rect>)
    requires
        space.fits(),
    ensures
        r == usable_of(*space, window),
        r is Some ==> r->0.fits(),
{
    match output_under(space, window) {
        Some(i) => {
            proof {
                lemma_output_unique(
                    *space,
                    window,
                    i as int,
                    choose|k: int| is_output_of(*space, window, k),
                );
            }
            let o = space.outputs[i];
            match o.geometry {
                Some(geo) => {
                    assert(space.outputs@[i as int].fits());
                    Some(
                        Rect {
                            loc: Point {
                                x: geo.loc.x + o.zone.loc.x,
                                y: geo.loc.y + o.zone.loc.y,
                            },
                            size: o.zone.size,
                        },
                    )
                },
                None => None,
            }
        },
        None => None,
    }
}

/// The whole rectangle of the window's output.
pub fn output_rect_for(space: &Space, window: Window) -> (r: Option<Rect>)
    ensures
        r == area_of(*space, window),
{
    match output_under(space, window) {
        Some(i) => {
            proof {
                lemma_output_unique(
                    *space,
                    window,
                    i as int,
                    choose|k: int| is_output_of(*space, window, k),
                );
            }
            space.outputs[i].geometry
        },
        None => None,
    }
}

/// The rectangle of a window: where it is mapped and how large it is.
pub open spec fn rect_of(space: Space, window: Window) -> Rect {
    Rect {
        loc: match space.location(window.id) {
            Some(loc) => loc,
            None => Point { x: 0, y: 0 },
        },
        size: window.size,
    }
}

/// The rectangle of a window; at the origin where it is not mapped.
pub fn current_rect(space: &Space, window: Window) -> (r: Rect)
    ensures
        r == rect_of(*space, window),
{
    let loc = match space.element_location(window.id) {
        Some(loc) => loc,
        None => Point { x: 0, y: 0 },
    };
    Rect { loc, size: window.size }
}

/// The rectangle of a tile or maximize state within the free rectangle.
pub open spec fn tile_of(usable: Rect, target: LayoutState) -> Option<Rect> {
    let half = crate::geometry::quot(usable.size.w as int, 2);
    match target {
        LayoutState::TiledLeft => Some(
            Rect { loc: usable.loc, size: Size { w: half as i32, h: usable.size.h } },
        ),
        LayoutState::TiledRight => Some(
            Rect {
                loc: Point { x: (usable.loc.x + half) as i32, y: usable.loc.y },
                size: Size { w: (usable.size.w - half) as i32, h: usable.size.h },
            },
        ),
        LayoutState::Maximized => Some(usable),
        LayoutState::Floating => None,
        LayoutState::Fullscreen => None,
    }
}

/// The rectangle of a tile or maximize state within `usable`; none for the
/// states that do not depend on it.
pub fn tiled_rect(usable: Rect, target: LayoutState) -> (r: Option<Rect>)
    requires
        usable.fits(),
    ensures
        r == tile_of(usable, target),
{
    let half_w: i32 = usable.size.w / 2;
    match target {
        LayoutState::TiledLeft => Some(
            Rect { loc: usable.loc, size: Size { w: half_w, h: usable.size.h } },
        ),
        LayoutState::TiledRight => Some(
            Rect {
                loc: Point { x: usable.loc.x + half_w, y: usable.loc.y },
                size: Size { w: usable.size.w - half_w, h: usable.size.h },
            },
        ),
        LayoutState::Maximized => Some(usable),
        LayoutState::Floating | LayoutState::Fullscreen => None,
    }
}

/// A change to make to a window: the rectangle to configure it with and to map
/// it at, and the state bits to send.
#[derive(Clone, Copy, Debug, PartialEq, Eq, Structural)]
pub struct GeometryChange {
    pub window: u64,
    pub rect: Rect,
    pub maximized: bool,
    pub fullscreen: bool,
}

/// The change that gives a window the rectangle and the state. At most one of
/// the two bits is set.
pub open spec fn change_to(window: u64, rect: Rect, state: LayoutState) -> GeometryChange {
    GeometryChange {
        window,
        rect,
        maximized: state == LayoutState::Maximized,
        fullscreen: state == LayoutState::Fullscreen,
    }
}

/// The change that gives a window the rectangle and the state.
pub fn apply_geometry(window: u64, rect: Rect, state: LayoutState) -> (r: GeometryChange)
    ensures
        r == change_to(window, rect, state),
{
    GeometryChange {
        window,
        rect,
        maximized: state == LayoutState::Maximized,
        fullscreen: state == LayoutState::Fullscreen,
    }
}

/// Whether a state is one that the toggle actions ask for.
pub open spec fn is_tile(target: LayoutState) -> bool {
    target == LayoutState::TiledLeft || target == LayoutState::TiledRight || target
        == LayoutState::Maximized
}

/// The effect of a toggle action: the new record, and the rectangle and state
/// that the window takes.
pub open spec fn toggled(
    meta: WindowMeta,
    target: LayoutState,
    current: Rect,
    usable: Rect,
) -> (WindowMeta, Rect, LayoutState) {
    if meta.layout == target {
        (
            WindowMeta { layout: LayoutState::Floating, saved_rect: None, ..meta },
            match meta.saved_rect {
                Some(r) => r,
                None => current,
            },
            LayoutState::Floating,
        )
    } else {
        (
            WindowMeta {
                layout: target,
                saved_rect: if meta.layout == LayoutState::Floating {
                    Some(current)
                } else {
                    meta.saved_rect
                },
                ..meta
            },
            tile_of(usable, target)->0,
            target,
        )
    }
}

/// Moves a window toward a tile or maximize state. A window that is in that
/// state already goes back to the rectangle it had before.
pub fn set_layout(
    space: &Space,
    layout: &mut LayoutManager,
    window: Window,
    target: LayoutState,
) -> (r: Option<GeometryChange>)
    requires
        space.fits(),
        is_tile(target),
    ensures
        final(layout).minimized == old(layout).minimized,
        match usable_of(*space, window) {
            Some(usable) => {
                let t = toggled(
                    old(layout).meta_of(window.id),
                    target,
                    rect_of(*space, window),
                    usable,
                );
                &&& final(layout).meta@ == old(layout).meta@.insert(window.id, t.0)
                &&& r == Some(change_to(window.id, t.1, t.2))
            },
            None => final(layout).meta@ == old(layout).meta@ && r is None,
        },
{
    let usable = match usable_rect_for(space, window) {
        Some(u) => u,
        None => {
            return None;
        },
    };
    let current = current_rect(space, window);
    let mut meta = layout.entry(window.id);
    if meta.layout == target {
        let restore = match meta.saved_rect {
            Some(r) => r,
            None => current,
        };
        meta.saved_rect = None;
        meta.layout = LayoutState::Floating;
        layout.meta.insert(window.id, meta);
        return Some(apply_geometry(window.id, restore, LayoutState::Floating));
    }
    if meta.layout == LayoutState::Floating {
        meta.saved_rect = Some(current);
    }
    meta.layout = target;
    layout.meta.insert(window.id, meta);
    match tiled_rect(usable, target) {
        Some(new_rect) => Some(apply_geometry(window.id, new_rect, target)),
        None => None,
    }
}

/// The record of a window that enters fullscreen.
pub open spec fn fullscreened(meta: WindowMeta, current: Rect) -> WindowMeta {
    if meta.layout == LayoutState::Fullscreen {
        meta
    } else {
        WindowMeta {
            layout: LayoutState::Fullscreen,
            pre_fullscreen: Some(meta.layout),
            saved_rect: if meta.layout == LayoutState::Floating {
                Some(current)
            } else {
                meta.saved_rect
            },
        }
    }
}

/// Makes a window cover `output_geo`. Asking again changes nothing but applies
/// the rectangle once more.
pub fn set_fullscreen(
    space: &Space,
    layout: &mut LayoutManager,
    window: Window,
    output_geo: Rect,
) -> (r: GeometryChange)
    ensures
        final(layout).minimized == old(layout).minimized,
        final(layout).meta@ == old(layout).meta@.insert(
            window.id,
            fullscreened(old(layout).meta_of(window.id), rect_of(*space, window)),
        ),
        r == change_to(window.id, output_geo, LayoutState::Fullscreen),
{
    let current = current_rect(space, window);
    let mut meta = layout.entry(window.id);
    if meta.layout != LayoutState::Fullscreen {
        meta.pre_fullscreen = Some(meta.layout);
        if meta.layout == LayoutState::Floating {
            meta.saved_rect = Some(current);
        }
        meta.layout = LayoutState::Fullscreen;
    }
    layout.meta.insert(window.id, meta);
    apply_geometry(window.id, output_geo, LayoutState::Fullscreen)
}

/// Whether the mapped window at `i` is fullscreen and shown on `output`.
pub open spec fn covers_output(
    space: Space,
    layout: LayoutManager,
    output: u64,
    i: int,
) -> bool {
    &&& layout.meta_of(space.elements@[i].window.id).layout == LayoutState::Fullscreen
    &&& space.elements@[i].outputs@.contains(output)
}

/// The lowest window that is fullscreen on `output`, if there is one.
pub fn fullscreen_window_on(space: &Space, layout: &LayoutManager, output: u64) -> (r: Option<u64>)
    ensures
        match r {
            Some(w) => exists|i: int|
                {
                    &&& 0 <= i < space.elements@.len()
                    &&& #[trigger] covers_output(*space, *layout, output, i)
                    &&& space.elements@[i].window.id == w
                    &&& forall|j: int| 0 <= j < i ==> !covers_output(*space, *layout, output, j)
                },
            None => forall|j: int|
                0 <= j < space.elements@.len() ==> !covers_output(*space, *layout, output, j),
        },
{
    let mut i: usize = 0;
    while i < space.elements.len()
        invariant
            i <= space.elements@.len(),
            forall|j: int| 0 <= j < i ==> !covers_output(*space, *layout, output, j),
        decreases space.elements@.len() - i,
    {
        let id = space.elements[i].window.id;
        if layout.layout_state(id) == LayoutState::Fullscreen && contains_id(
            &space.elements[i].outputs,
            output,
        ) {
            assert(covers_output(*space, *layout, output, i as int));
            return Some(id);
        }
        i += 1;
    }
    None
}

/// The effect of leaving fullscreen: the new record, and the rectangle and
/// state that the window takes.
pub open spec fn unfullscreened(
    meta: WindowMeta,
    current: Rect,
    usable: Rect,
) -> (WindowMeta, Rect, LayoutState) {
    let prev = match meta.pre_fullscreen {
        Some(p) => p,
        None => LayoutState::Floating,
    };
    match tile_of(usable, prev) {
        Some(rect) => (WindowMeta { layout: prev, pre_fullscreen: None, ..meta }, rect, prev),
        None => (
            fresh_meta(),
            match meta.saved_rect {
                Some(r) => r,
                None => current,
            },
            LayoutState::Floating,
        ),
    }
}

/// Leaves fullscreen, back to the layout before it. A window that is not
/// fullscreen is left alone.
pub fn unset_fullscreen(space: &Space, layout: &mut LayoutManager, window: Window) -> (r: Option<
    GeometryChange,
>)
    requires
        space.fits(),
    ensures
        final(layout).minimized == old(layout).minimized,
        ({
            let meta = old(layout).meta_of(window.id);
            let usable = usable_of(*space, window);
            if meta.layout == LayoutState::Fullscreen && usable is Some {
                let t = unfullscreened(meta, rect_of(*space, window), usable->0);
                &&& final(layout).meta@ == old(layout).meta@.insert(window.id, t.0)
                &&& r == Some(change_to(window.id, t.1, t.2))
            } else {
                final(layout).meta@ == old(layout).meta@ && r is None
            }
        }),
{
    if layout.layout_state(window.id) != LayoutState::Fullscreen {
        return None;
    }
    let usable = match usable_rect_for(space, window) {
        Some(u) => u,
        None => {
            return None;
        },
    };
    let current = current_rect(space, window);
    let mut meta = layout.entry(window.id);
    let prev = match meta.pre_fullscreen {
        Some(p) => p,
        None => LayoutState::Floating,
    };
    meta.pre_fullscreen = None;
    meta.layout = prev;
    match tiled_rect(usable, prev) {
        Some(rect) => {
            layout.meta.insert(window.id, meta);
            Some(apply_geometry(window.id, rect, prev))
        },
        None => {
            let restore = match meta.saved_rect {
                Some(r) => r,
                None => current,
            };
            meta.saved_rect = None;
            meta.layout = LayoutState::Floating;
            layout.meta.insert(window.id, meta);
            Some(apply_geometry(window.id, restore, LayoutState::Floating))
        },
    }
}

/// The two tiles split the free rectangle: both have its top and its height,
/// they meet without gap or overlap, they cover its width, and an odd column
/// goes to the right one.
pub proof fn law_tiles_partition(usable: Rect)
    requires
        usable.fits(),
        usable.size.w >= 0,
    ensures
        ({
            let left = tile_of(usable, LayoutState::TiledLeft)->0;
            let right = tile_of(usable, LayoutState::TiledRight)->0;
            &&& tile_of(usable, LayoutState::TiledLeft) is Some
            &&& tile_of(usable, LayoutState::TiledRight) is Some
            &&& left.loc == usable.loc
            &&& right.loc.y == usable.loc.y
            &&& left.size.h == usable.size.h
            &&& right.size.h == usable.size.h
            &&& left.right() == right.loc.x
            &&& right.right() == usable.right()
            &&& left.size.w + right.size.w == usable.size.w
            &&& left.size.w >= 0
            &&& right.size.w >= 0
            &&& right.size.w - left.size.w == usable.size.w % 2
        }),
{
}

/// Every tile stays within the free rectangle, and maximizing fills it.
pub proof fn law_tiles_within(usable: Rect, target: LayoutState)
    requires
        usable.fits(),
        usable.size.w >= 0,
    ensures
        is_tile(target) <==> tile_of(usable, target) is Some,
        tile_of(usable, LayoutState::Maximized) == Some(usable),
        is_tile(target) ==> ({
            let r = tile_of(usable, target)->0;
            &&& usable.loc.x <= r.loc.x
            &&& usable.loc.y <= r.loc.y
            &&& r.right() <= usable.right()
            &&& r.bottom() <= usable.bottom()
        }),
{
}

/// A floating window that is toggled into a state and out of it again has its
/// rectangle back, whatever rectangles it and its output have in between.
pub proof fn law_toggle_restores(
    meta: WindowMeta,
    target: LayoutState,
    before: Rect,
    usable: Rect,
    between: Rect,
    usable_then: Rect,
)
    requires
        meta.layout == LayoutState::Floating,
        is_tile(target),
    ensures
        ({
            let first = toggled(meta, target, before, usable);
            let second = toggled(first.0, target, between, usable_then);
            &&& second.1 == before
            &&& second.2 == LayoutState::Floating
            &&& second.0.layout == LayoutState::Floating
        }),
{
}

/// Something that changes a window's layout, with the rectangles that the window
/// and its output have then.
pub struct LayoutStep {
    pub action: LayoutAction,
    pub current: Rect,
    pub usable: Rect,
}

/// What changes a window's layout.
pub enum LayoutAction {
    /// Toggles a tile state.
    Toggle(LayoutState),
    EnterFullscreen,
    LeaveFullscreen,
}

/// The record that a step leaves.
pub open spec fn stepped(meta: WindowMeta, s: LayoutStep) -> WindowMeta {
    match s.action {
        LayoutAction::Toggle(target) => toggled(meta, target, s.current, s.usable).0,
        LayoutAction::EnterFullscreen => fullscreened(meta, s.current),
        LayoutAction::LeaveFullscreen => if meta.layout == LayoutState::Fullscreen {
            unfullscreened(meta, s.current, s.usable).0
        } else {
            meta
        },
    }
}

/// The rectangle that a step gives to a window that it makes float.
pub open spec fn floats_at(meta: WindowMeta, s: LayoutStep) -> Rect {
    match s.action {
        LayoutAction::Toggle(target) => toggled(meta, target, s.current, s.usable).1,
        LayoutAction::EnterFullscreen => s.current,
        LayoutAction::LeaveFullscreen => unfullscreened(meta, s.current, s.usable).1,
    }
}

/// Whether a step toggles nothing but tile states.
pub open spec fn toggles_tiles(s: LayoutStep) -> bool {
    s.action matches LayoutAction::Toggle(target) ==> is_tile(target)
}

/// Whether records follow from one another by steps.
pub open spec fn follows(metas: Seq<WindowMeta>, steps: Seq<LayoutStep>) -> bool {
    &&& metas.len() == steps.len() + 1
    &&& forall|i: int|
        #![trigger steps[i]]
        0 <= i < steps.len() ==> toggles_tiles(steps[i]) && metas[i + 1] == stepped(
            metas[i],
            steps[i],
        )
}

proof fn lemma_saved_kept(metas: Seq<WindowMeta>, steps: Seq<LayoutStep>, k: int)
    requires
        follows(metas, steps),
        metas[0].layout == LayoutState::Floating,
        1 <= k <= steps.len(),
        forall|i: int| 1 <= i <= k ==> (#[trigger] metas[i]).layout != LayoutState::Floating,
    ensures
        metas[k].saved_rect == Some(steps[0].current),
    decreases k,
{
    assert(toggles_tiles(steps[k - 1]));
    assert(metas[k].layout != LayoutState::Floating);
    if k > 1 {
        lemma_saved_kept(metas, steps, k - 1);
        assert(metas[k - 1].layout != LayoutState::Floating);
    }
}

/// However a window gets from tile to tile, to fullscreen and back: when it floats
/// again, it has the rectangle that it had when it last floated.
pub proof fn law_floating_rect_returns(metas: Seq<WindowMeta>, steps: Seq<LayoutStep>)
    requires
        follows(metas, steps),
        steps.len() >= 2,
        metas[0].layout == LayoutState::Floating,
        forall|i: int|
            1 <= i < steps.len() ==> (#[trigger] metas[i]).layout != LayoutState::Floating,
        metas.last().layout == LayoutState::Floating,
    ensures
        floats_at(metas[steps.len() - 1], steps.last()) == steps[0].current,
{
    let n = steps.len() as int;
    assert(toggles_tiles(steps[n - 1]));
    lemma_saved_kept(metas, steps, n - 1);
    assert(metas[n - 1].layout != LayoutState::Floating);
}

/// Going from tile state to tile state, however often, keeps the rectangle to
/// restore. Toggling the last of them gives it back.
pub proof fn law_retile_keeps_saved(
    metas: Seq<WindowMeta>,
    steps: Seq<LayoutStep>,
    targets: Seq<LayoutState>,
    between: Rect,
    usable: Rect,
)
    requires
        follows(metas, steps),
        targets.len() == steps.len(),
        steps.len() >= 1,
        metas[0].layout == LayoutState::Floating,
        forall|i: int|
            0 <= i < steps.len() ==> (#[trigger] steps[i]).action == LayoutAction::Toggle(
                targets[i],
            ),
        forall|i: int, j: int|
            0 <= i && j == i + 1 && j < targets.len() ==> (#[trigger] targets[i]) != (
            #[trigger] targets[j]),
    ensures
        forall|k: int|
            1 <= k <= steps.len() ==> (#[trigger] metas[k]).layout == targets[k - 1]
                && metas[k].saved_rect == Some(steps[0].current),
        ({
            let back = toggled(metas.last(), targets.last(), between, usable);
            &&& back.1 == steps[0].current
            &&& back.2 == LayoutState::Floating
            &&& back.0.layout == LayoutState::Floating
        }),
{
    lemma_tiles(metas, steps, targets, steps.len() as int);
    assert forall|k: int| 1 <= k <= steps.len() implies (#[trigger] metas[k]).layout == targets[k
        - 1] && metas[k].saved_rect == Some(steps[0].current) by {
        lemma_saved_kept(metas, steps, k);
    }
    assert(metas[steps.len() as int] == metas.last());
}

proof fn lemma_tiles(
    metas: Seq<WindowMeta>,
    steps: Seq<LayoutStep>,
    targets: Seq<LayoutState>,
    n: int,
)
    requires
        follows(metas, steps),
        targets.len() == steps.len(),
        0 <= n <= steps.len(),
        metas[0].layout == LayoutState::Floating,
        forall|i: int|
            0 <= i < steps.len() ==> (#[trigger] steps[i]).action == LayoutAction::Toggle(
                targets[i],
            ),
        forall|i: int, j: int|
            0 <= i && j == i + 1 && j < targets.len() ==> (#[trigger] targets[i]) != (
            #[trigger] targets[j]),
    ensures
        forall|k: int|
            1 <= k <= n ==> (#[trigger] metas[k]).layout == targets[k - 1] && metas[k].layout
                != LayoutState::Floating,
    decreases n,
{
    if n > 0 {
        lemma_tiles(metas, steps, targets, n - 1);
        assert(toggles_tiles(steps[n - 1]));
        assert(is_tile(targets[n - 1]));
        if n > 1 {
            assert(targets[n - 2] != targets[n - 1]);
            assert(metas[n - 1].layout == targets[n - 2]);
        }
    }
}

/// Entering fullscreen and leaving it gives back the layout before it: a tiled
/// window its tile, a floating window its rectangle. Entering twice is like
/// entering once.
pub proof fn law_fullscreen_returns(
    meta: WindowMeta,
    before: Rect,
    between: Rect,
    usable: Rect,
)
    requires
        meta.layout != LayoutState::Fullscreen,
    ensures
        ({
            let inside = fullscreened(meta, before);
            let out = unfullscreened(inside, between, usable);
            &&& fullscreened(inside, between) == inside
            &&& out.2 == meta.layout
            &&& out.0.layout == meta.layout
            &&& meta.layout == LayoutState::Floating ==> out.1 == before
            &&& is_tile(meta.layout) ==> Some(out.1) == tile_of(usable, meta.layout)
                && out.0.saved_rect == meta.saved_rect
        }),
{
}

/// A change never sets both state bits.
pub proof fn law_bits_exclusive(window: u64, rect: Rect, state: LayoutState)
    ensures
        !(change_to(window, rect, state).maximized && change_to(window, rect, state).fullscreen),
{
}

/// A window stays on its monitor: where the middle of a mapped window is on one
/// output alone, its tiles, its maximized rectangle and its fullscreen rectangle
/// are on that output, and so is the tile that it comes back to from fullscreen.
pub proof fn law_stays_on_its_monitor(
    space: Space,
    window: Window,
    at: int,
    k: int,
    meta: WindowMeta,
    target: LayoutState,
    current: Rect,
)
    requires
        space.fits(),
        0 <= at < space.elements@.len(),
        space.elements@[at].window.id == window.id,
        forall|j: int|
            0 <= j < space.elements@.len() && j != at ==> (#[trigger] space.elements@[j]).window.id
                != window.id,
        window.size.w >= 0,
        window.size.h >= 0,
        0 <= k < space.outputs@.len(),
        space.outputs@[k].geometry is Some,
        ({
            let geo = space.outputs@[k].geometry->0;
            let loc = space.elements@[at].loc;
            &&& geo.loc.x <= loc.x + window.size.w / 2 < geo.loc.x + geo.size.w
            &&& geo.loc.y <= loc.y + window.size.h / 2 < geo.loc.y + geo.size.h
        }),
        forall|j: int|
            0 <= j < space.outputs@.len() && j != k && (
            #[trigger] space.outputs@[j]).geometry is Some ==> !({
                let geo = space.outputs@[j].geometry->0;
                let loc = space.elements@[at].loc;
                &&& geo.loc.x <= loc.x + window.size.w / 2 < geo.loc.x + geo.size.w
                &&& geo.loc.y <= loc.y + window.size.h / 2 < geo.loc.y + geo.size.h
            }),
    ensures
        area_of(space, window) == space.outputs@[k].geometry,
        ({
            let o = space.outputs@[k];
            let geo = o.geometry->0;
            let usable = usable_of(space, window)->0;
            let inner = o.zone.loc.x >= 0 && o.zone.loc.y >= 0 && o.zone.size.w >= 0
                && o.zone.size.h >= 0 && o.zone.loc.x + o.zone.size.w <= geo.size.w && o.zone.loc.y
                + o.zone.size.h <= geo.size.h;
            &&& usable_of(space, window) is Some
            &&& usable.loc.x == geo.loc.x + o.zone.loc.x
            &&& usable.loc.y == geo.loc.y + o.zone.loc.y
            &&& usable.size == o.zone.size
            &&& inner && (target is TiledLeft || target is TiledRight || target is Maximized)
                && meta.layout != target ==> {
                let r = toggled(meta, target, current, usable).1;
                &&& geo.loc.x <= r.loc.x && r.loc.x + r.size.w <= geo.loc.x + geo.size.w
                &&& geo.loc.y <= r.loc.y && r.loc.y + r.size.h <= geo.loc.y + geo.size.h
            }
            &&& inner && (meta.pre_fullscreen == Some(LayoutState::TiledLeft)
                || meta.pre_fullscreen == Some(LayoutState::TiledRight) || meta.pre_fullscreen
                == Some(LayoutState::Maximized)) ==> {
                let r = unfullscreened(meta, current, usable).1;
                &&& geo.loc.x <= r.loc.x && r.loc.x + r.size.w <= geo.loc.x + geo.size.w
                &&& geo.loc.y <= r.loc.y && r.loc.y + r.size.h <= geo.loc.y + geo.size.h
            }
        }),
{
    let loc = space.elements@[at].loc;
    lemma_location(space, window.id, at);
    assert(space.outputs@[k].fits());
    assert forall|j: int| 0 <= j < k implies !center_on(
        #[trigger] space.outputs@[j],
        loc,
        window.size,
    ) by {}
    assert(first_under(space, loc, window.size, k));
    assert(is_output_of(space, window, k));
    lemma_output_unique(space, window, k, choose|i: int| is_output_of(space, window, i));
}

proof fn lemma_location(space: Space, id: u64, at: int)
    requires
        0 <= at < space.elements@.len(),
        space.elements@[at].window.id == id,
        forall|j: int|
            0 <= j < space.elements@.len() && j != at ==> (#[trigger] space.elements@[j]).window.id
                != id,
    ensures
        space.location(id) == Some(space.elements@[at].loc),
{
    assert(space.placed_at(id, at));
    let c = choose|i: int| space.placed_at(id, i);
    assert(space.placed_at(id, c));
}

/// A window whose middle is on no output, or that is not mapped, belongs to the
/// first output; one whose middle is on several belongs to the first of them.
pub proof fn law_output_of_stray_window(space: Space, window: Window, k: int)
    requires
        window.size.w >= 0,
        window.size.h >= 0,
        0 <= k < space.outputs@.len(),
        ({
            let on = |o: OutputArea, loc: Point|
                o.geometry is Some && o.geometry->0.loc.x <= loc.x + window.size.w / 2
                    < o.geometry->0.loc.x + o.geometry->0.size.w && o.geometry->0.loc.y <= loc.y
                    + window.size.h / 2 < o.geometry->0.loc.y + o.geometry->0.size.h;
            let none_before = |loc: Point, n: int|
                forall|j: int| 0 <= j < n ==> !on(#[trigger] space.outputs@[j], loc);
            match space.location(window.id) {
                None => k == 0,
                Some(loc) => {
                    ||| k == 0 && none_before(loc, space.outputs@.len() as int)
                    ||| on(space.outputs@[k], loc) && none_before(loc, k)
                },
            }
        }),
    ensures
        area_of(space, window) == space.outputs@[k].geometry,
        space.outputs@[k].geometry is None ==> usable_of(space, window) is None,
        space.outputs@[k].geometry is Some ==> usable_of(space, window) is Some,
{
    if let Some(loc) = space.location(window.id) {
        if center_on(space.outputs@[k], loc, window.size) {
            assert forall|j: int| 0 <= j < k implies !center_on(
                #[trigger] space.outputs@[j],
                loc,
                window.size,
            ) by {}
            assert(first_under(space, loc, window.size, k));
        } else {
            assert forall|j: int| !first_under(space, loc, window.size, j) by {
                if first_under(space, loc, window.size, j) {
                    assert(center_on(space.outputs@[j], loc, window.size));
                }
            }
        }
    }
    assert(is_output_of(space, window, k));
    lemma_output_unique(space, window, k, choose|i: int| is_output_of(space, window, i));
}

/// A mapped window is where its entry says, and one without an entry is nowhere.
pub proof fn law_location_is_of_the_entry(space: Space, id: u64, at: int)
    ensures
        0 <= at < space.elements@.len() && space.elements@[at].window.id == id && (forall|j: int|
            0 <= j < space.elements@.len() && j != at ==> (#[trigger] space.elements@[j]).window.id
                != id) ==> space.location(id) == Some(space.elements@[at].loc),
        (forall|j: int|
            0 <= j < space.elements@.len() ==> (#[trigger] space.elements@[j]).window.id != id)
            ==> space.location(id) is None,
{
    if 0 <= at < space.elements@.len() && space.elements@[at].window.id == id && (forall|j: int|
        0 <= j < space.elements@.len() && j != at ==> (#[trigger] space.elements@[j]).window.id
            != id) {
        lemma_location(space, id, at);
    }
}

/// Toggling a state that a window is not in gives it that state and the tile of
/// that state; a window that floated is remembered with its rectangle, any other
/// keeps what was remembered.
pub proof fn law_toggle_enters(
    meta: WindowMeta,
    target: LayoutState,
    current: Rect,
    usable: Rect,
)
    requires
        usable.fits(),
        usable.size.w >= 0,
        target is TiledLeft || target is TiledRight || target is Maximized,
        meta.layout != target,
    ensures
        ({
            let (after, r, state) = toggled(meta, target, current, usable);
            &&& state == target
            &&& after.layout == target
            &&& after.pre_fullscreen == meta.pre_fullscreen
            &&& meta.layout is Floating ==> after.saved_rect == Some(current)
            &&& !(meta.layout is Floating) ==> after.saved_rect == meta.saved_rect
            &&& r.loc.y == usable.loc.y && r.size.h == usable.size.h
            &&& target is Maximized ==> r == usable
            &&& target is TiledLeft ==> r.loc.x == usable.loc.x && r.size.w == usable.size.w / 2
            &&& target is TiledRight ==> r.loc.x == usable.loc.x + usable.size.w / 2 && r.loc.x
                + r.size.w == usable.loc.x + usable.size.w
        }),
{
}

/// Toggling the state that a window is in makes it float, where it floated before
/// if that is known and where it is otherwise; the place is spent.
pub proof fn law_toggle_leaves(meta: WindowMeta, current: Rect, usable: Rect)
    requires
        meta.layout is TiledLeft || meta.layout is TiledRight || meta.layout is Maximized,
    ensures
        ({
            let (after, r, state) = toggled(meta, meta.layout, current, usable);
            &&& state is Floating
            &&& after.layout is Floating
            &&& after.saved_rect is None
            &&& meta.saved_rect is Some ==> r == meta.saved_rect->0
            &&& meta.saved_rect is None ==> r == current
        }),
{
}

/// A window that enters fullscreen is remembered with the layout that it had, and
/// with its rectangle where it floated.
pub proof fn law_fullscreen_remembers(meta: WindowMeta, current: Rect)
    ensures
        ({
            let after = fullscreened(meta, current);
            &&& after.layout is Fullscreen
            &&& !(meta.layout is Fullscreen) ==> after.pre_fullscreen == Some(meta.layout)
            &&& meta.layout is Floating ==> after.saved_rect == Some(current)
            &&& !(meta.layout is Floating) ==> after.saved_rect == meta.saved_rect
            &&& meta.layout is Fullscreen ==> after.pre_fullscreen == meta.pre_fullscreen
        }),
{
}

/// Leaving fullscreen leaves no trace of it, whatever was remembered.
pub proof fn law_fullscreen_leaves(meta: WindowMeta, current: Rect, usable: Rect)
    requires
        meta.layout is Fullscreen,
        meta.pre_fullscreen != Some(LayoutState::Fullscreen),
    ensures
        ({
            let (after, r, state) = unfullscreened(meta, current, usable);
            &&& after.pre_fullscreen is None
            &&& after.layout == state
            &&& meta.pre_fullscreen is Some ==> state == meta.pre_fullscreen->0
            &&& meta.pre_fullscreen is None ==> state is Floating
            &&& state is Floating && meta.saved_rect is Some ==> r == meta.saved_rect->0
            &&& state is Floating && meta.saved_rect is None ==> r == current
            &&& state is Floating ==> after.saved_rect is None
            &&& !(state is Floating) ==> after.saved_rect == meta.saved_rect
            &&& state is Maximized ==> r == usable
        }),
{
}

/// The client is told the rectangle that it was given, that it is maximized where
/// it is, and that it is fullscreen where it is.
pub proof fn law_client_told(window: u64, rect: Rect, state: LayoutState)
    ensures
        change_to(window, rect, state).window == window,
        change_to(window, rect, state).rect == rect,
        change_to(window, rect, state).maximized <==> state is Maximized,
        change_to(window, rect, state).fullscreen <==> state is Fullscreen,
{
}

/// A window of which nothing was remembered floats.
pub proof fn law_unknown_floats(layout: LayoutManager, w: u64)
    ensures
        !layout.meta@.contains_key(w) ==> layout.meta_of(w).layout is Floating && layout.meta_of(
            w,
        ).saved_rect is None && layout.meta_of(w).pre_fullscreen is None,
        layout.meta@.contains_key(w) ==> layout.meta_of(w) == layout.meta@[w],
{
}

/// The rectangle of a mapped window begins where the window is mapped and is as
/// large as the window.
pub proof fn law_rect_is_of_the_window(space: Space, window: Window)
    ensures
        rect_of(space, window).size == window.size,
        space.location(window.id) matches Some(loc) ==> rect_of(space, window).loc == loc,
        space.location(window.id) is None ==> rect_of(space, window).loc.x == 0 && rect_of(
            space,
            window,
        ).loc.y == 0,
{
}

/// Forgetting a window takes it off the stack of minimized windows, and no other.
pub proof fn law_minimized_stack_drops_one(stack: Seq<(u64, Rect)>, w: u64, i: int)
    requires
        0 <= i < stack.len(),
    ensures
        stack.filter(not_hidden(w)).contains(stack[i]) <==> stack[i].0 != w,
{
    broadcast use vstd::seq_lib::group_filter_ensures;

    if stack[i].0 != w {
        assert(not_hidden(w)(stack[i]));
    }
}

/// Whether rectangles stand side by side: each begins where the one before it
/// ends, and all have the same top and height.
pub open spec fn side_by_side(rects: Seq<Rect>) -> bool {
    &&& forall|i: int| 0 <= i < rects.len() ==> (#[trigger] rects[i]).size.w > 0
    &&& forall|i: int|
        0 <= i < rects.len() ==> (#[trigger] rects[i]).loc.y == rects[0].loc.y && rects[i].size.h
            == rects[0].size.h
    &&& forall|i: int, j: int|
        0 <= i && j == i + 1 && j < rects.len() ==> (#[trigger] rects[i]).right() == (
        #[trigger] rects[j]).loc.x
}

proof fn lemma_row_order(rects: Seq<Rect>, i: int, j: int)
    requires
        side_by_side(rects),
        0 <= i < j < rects.len(),
    ensures
        rects[i].right() <= rects[j].loc.x,
    decreases j - i,
{
    if i + 1 < j {
        lemma_row_order(rects, i, j - 1);
        assert(rects[j - 1].right() == rects[j].loc.x);
        assert(rects[j - 1].size.w > 0);
    }
}

proof fn lemma_row_covers(rects: Seq<Rect>, n: int, x: int, y: int)
    requires
        side_by_side(rects),
        0 < n <= rects.len(),
        rects[0].loc.x <= x < rects[n - 1].right(),
        rects[0].loc.y <= y < rects[0].bottom(),
    ensures
        exists|i: int| 0 <= i < n && (#[trigger] rects[i]).holds(x, y),
    decreases n,
{
    if x < rects[n - 1].loc.x {
        assert(n > 1);
        assert(rects[n - 2].right() == rects[n - 1].loc.x);
        lemma_row_covers(rects, n - 1, x, y);
    } else {
        assert(rects[n - 1].holds(x, y));
    }
}

/// Outputs that stand side by side hold every point of their span in exactly
/// one of them, and a point beyond the span in none.
pub proof fn law_outputs_partition(rects: Seq<Rect>, x: int, y: int)
    requires
        side_by_side(rects),
        rects.len() > 0,
    ensures
        ({
            let inside = rects[0].loc.x <= x < rects.last().right() && rects[0].loc.y <= y
                < rects[0].bottom();
            &&& inside ==> exists|i: int| 0 <= i < rects.len() && (#[trigger] rects[i]).holds(x, y)
            &&& !inside ==> forall|i: int| 0 <= i < rects.len() ==> !(#[trigger] rects[i]).holds(x, y)
        }),
        forall|i: int, j: int|
            0 <= i < rects.len() && 0 <= j < rects.len() && (#[trigger] rects[i]).holds(x, y) && (
            #[trigger] rects[j]).holds(x, y) ==> i == j,
{
    let n = rects.len() as int;
    if rects[0].loc.x <= x < rects.last().right() && rects[0].loc.y <= y < rects[0].bottom() {
        lemma_row_covers(rects, n, x, y);
    } else {
        assert forall|i: int| 0 <= i < rects.len() implies !(#[trigger] rects[i]).holds(x, y) by {
            if rects[i].holds(x, y) {
                if 0 < i {
                    lemma_row_order(rects, 0, i);
                    assert(rects[0].size.w > 0);
                }
                if i < n - 1 {
                    lemma_row_order(rects, i, n - 1);
                    assert(rects[n - 1].size.w > 0);
                }
            }
        }
    }
    assert forall|i: int, j: int|
        0 <= i < rects.len() && 0 <= j < rects.len() && (#[trigger] rects[i]).holds(x, y) && (
        #[trigger] rects[j]).holds(x, y) implies i == j by {
        if i < j {
            lemma_row_order(rects, i, j);
        }
        if j < i {
            lemma_row_order(rects, j, i);
        }
    }
}

/// A window's entry on the stack is the first of it.
pub proof fn law_first_on_the_stack(l: LayoutManager, w: u64, i: int, j: int)
    ensures
        l.stacked_at(w, i) ==> 0 <= i < l.minimized@.len() && l.minimized@[i].0 == w && (0 <= j < i
            ==> l.minimized@[j].0 != w),
        l.stacked_at(w, i) && l.stacked_at(w, j) ==> i == j,
        0 <= i < l.minimized@.len() && l.minimized@[i].0 == w && (forall|k: int|
            0 <= k < i ==> (#[trigger] l.minimized@[k]).0 != w) ==> l.stacked_at(w, i),
{
    if l.stacked_at(w, i) && 0 <= j < i {
        assert(l.minimized@[j].0 != w);
    }
    if l.stacked_at(w, j) && 0 <= i < j {
        assert(l.minimized@[i].0 != w);
    }
}

/// Without outputs a window has neither an area nor room in it.
pub proof fn law_no_output_no_area(space: Space, window: Window)
    requires
        space.outputs@.len() == 0,
    ensures
        area_of(space, window) is None,
        usable_of(space, window) is None,
{
}

} // verus!
