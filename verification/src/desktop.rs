//! The desktop as the rules see it: the tracked windows, the outputs and the
//! workspaces, and the reports that are made of them.

use std::collections::HashMap;

use vstd::prelude::*;

use crate::geometry::Point;
use crate::geometry::Rect;
use crate::layout::LayoutManager;
use crate::layout::LayoutState;
use crate::layout::Space;
use crate::layout::Window;
use crate::seqs::retain;
use crate::text::str_eq;

verus! {

broadcast use vstd::std_specs::hash::group_hash_axioms;

/// A window that the manager tracks.
#[derive(Debug)]
pub struct Toplevel {
    pub window: Window,
    /// The identifier under which clients know it.
    pub handle: String,
    /// The title and the application identifier that the client has set.
    pub title: String,
    pub app_id: String,
    /// Whether it shows on every workspace.
    pub sticky: bool,
}

/// An output as it is reported.
#[derive(Debug)]
pub struct OutputInfo {
    pub name: String,
    pub geometry: Option<Rect>,
    /// Width and height of the current mode.
    pub mode: Option<(i32, i32)>,
    /// The bits of the scale, a double-precision number.
    pub scale_bits: u64,
}

/// The workspaces, counted from one.
#[derive(Debug)]
pub struct Workspaces {
    pub active: u8,
    pub count: u8,
    pub names: Vec<String>,
    /// Which window is on which workspace.
    pub assigned: Vec<(u64, u8)>,
}

/// Every window but one, where it is on a workspace.
pub open spec fn not_assigned(window: u64) -> spec_fn((u64, u8)) -> bool {
    |a: (u64, u8)| a.0 != window
}

impl Workspaces {
    /// Takes a window off its workspace.
    pub fn forget(&mut self, window: u64)
        ensures
            final(self).assigned@ == old(self).assigned@.filter(not_assigned(window)),
            *final(self) == (Workspaces { assigned: final(self).assigned, ..*old(self) }),
    {
        let elsewhere = |a: &(u64, u8)| -> (b: bool)
            ensures
                b == (a.0 != window),
            { a.0 != window };
        retain(&mut self.assigned, elsewhere, Ghost(not_assigned(window)));
    }

    /// Puts a window on the active workspace, whichever it was on. The result is
    /// that workspace.
    pub fn assign_active(&mut self, window: u64) -> (r: u8)
        ensures
            r == old(self).active,
            final(self).assigned@ == old(self).assigned@.filter(not_assigned(window)).push(
                (window, old(self).active),
            ),
            *final(self) == (Workspaces { assigned: final(self).assigned, ..*old(self) }),
    {
        self.forget(window);
        self.assigned.push((window, self.active));
        self.active
    }
}

/// Everything that the reports draw on.
#[derive(Debug)]
pub struct Desktop {
    pub space: Space,
    pub layout: LayoutManager,
    pub outputs: Vec<OutputInfo>,
    pub toplevels: Vec<Toplevel>,
    /// The window with the keyboard focus.
    pub focused: Option<Window>,
    /// Titles that were set over the clients' own.
    pub name_overrides: HashMap<u64, String>,
    pub workspaces: Workspaces,
}

/// A window's rectangle in desktop coordinates.
#[derive(Clone, Copy, Debug, PartialEq, Eq, Structural)]
pub struct WindowGeometry {
    pub x: i32,
    pub y: i32,
    pub w: i32,
    pub h: i32,
}

/// One window in the list of windows.
#[derive(Debug)]
pub struct WindowSummary {
    pub id: String,
    pub title: String,
    pub app_id: String,
    /// Zero where the window is on no workspace.
    pub workspace: u8,
    pub focused: bool,
    pub geometry: Option<WindowGeometry>,
    pub z: Option<u32>,
    pub sticky: bool,
}

/// One output in the list of outputs.
#[derive(Debug)]
pub struct OutputSummary {
    pub name: String,
    pub width: i32,
    pub height: i32,
    pub scale_bits: u64,
}

/// One output in the tree.
#[derive(Debug)]
pub struct OutputNode {
    pub name: String,
    pub x: i32,
    pub y: i32,
    pub w: i32,
    pub h: i32,
    pub scale_bits: u64,
}

/// One window in the tree.
#[derive(Debug)]
pub struct WindowNode {
    pub id: String,
    pub title: String,
    pub app_id: String,
    pub geometry: Option<WindowGeometry>,
    pub output: Option<String>,
    pub z: Option<u32>,
    pub focused: bool,
    pub minimized: bool,
    pub sticky: bool,
    pub layout: &'static str,
}

/// One workspace in the tree.
#[derive(Debug)]
pub struct WorkspaceNode {
    pub index: u8,
    pub name: String,
    pub focused: bool,
    pub windows: Vec<WindowNode>,
}

impl Desktop {
    /// The workspace of a window: that of its first assignment, zero without
    /// one.
    pub open spec fn workspace_of(self, id: u64) -> u8 {
        first_assigned(self.workspaces.assigned@, id)
    }

    /// Whether a window has the keyboard focus.
    pub open spec fn has_focus(self, id: u64) -> bool {
        self.focused is Some && self.focused->0.id == id
    }

    /// The title that is reported for a window.
    pub open spec fn title_of(self, t: Toplevel) -> Seq<char> {
        if self.name_overrides@.contains_key(t.window.id) {
            self.name_overrides@[t.window.id]@
        } else {
            t.title@
        }
    }

    /// The rectangle that is reported for a window.
    pub open spec fn geometry_of(self, w: Window) -> Option<WindowGeometry> {
        match self.space.location(w.id) {
            Some(loc) => Some(WindowGeometry { x: loc.x, y: loc.y, w: w.size.w, h: w.size.h }),
            None => None,
        }
    }

    /// The place of a window in the stack of mapped windows, counted from the
    /// bottom.
    pub open spec fn z_of(self, id: u64) -> Option<u32> {
        if exists|i: int| self.space.placed_at(id, i) {
            Some((choose|i: int| self.space.placed_at(id, i)) as u32)
        } else {
            None
        }
    }

    /// Whether the output at `i` is the first one that holds the center of `g`.
    pub open spec fn shows_center(self, g: WindowGeometry, i: int) -> bool {
        &&& 0 <= i < self.outputs@.len()
        &&& holds_center(self.outputs@[i], g)
        &&& forall|j: int| 0 <= j < i ==> !holds_center(#[trigger] self.outputs@[j], g)
    }

    /// The name of the output that holds a window's center.
    pub open spec fn output_of(self, w: Window) -> Option<Seq<char>> {
        match self.geometry_of(w) {
            Some(g) => if exists|i: int| self.shows_center(g, i) {
                Some(self.outputs@[choose|i: int| self.shows_center(g, i)].name@)
            } else {
                None
            },
            None => None,
        }
    }

    /// Whether a window is on the stack of minimized windows.
    pub open spec fn minimized(self, id: u64) -> bool {
        exists|i: int|
            0 <= i < self.layout.minimized@.len() && (#[trigger] self.layout.minimized@[i]).0 == id
    }

    /// Whether positions in the stack can be written as `u32`.
    pub open spec fn fits(self) -> bool {
        self.space.elements@.len() <= u32::MAX
    }
}

/// The workspace of the first assignment of a window; zero without one.
pub open spec fn first_assigned(assigned: Seq<(u64, u8)>, id: u64) -> u8
    decreases assigned.len(),
{
    if assigned.len() == 0 {
        0
    } else if assigned[0].0 == id {
        assigned[0].1
    } else {
        first_assigned(assigned.drop_first(), id)
    }
}

/// Whether an output holds the center of a rectangle.
pub open spec fn holds_center(o: OutputInfo, g: WindowGeometry) -> bool {
    match o.geometry {
        Some(geo) => geo.holds(
            g.x + crate::geometry::quot(g.w as int, 2),
            g.y + crate::geometry::quot(g.h as int, 2),
        ),
        None => false,
    }
}

/// The name of a layout in the tree.
pub open spec fn layout_name(state: LayoutState) -> Seq<char> {
    match state {
        LayoutState::Floating => "floating"@,
        LayoutState::TiledLeft => "tiled_left"@,
        LayoutState::TiledRight => "tiled_right"@,
        LayoutState::Maximized => "maximized"@,
        LayoutState::Fullscreen => "fullscreen"@,
    }
}

/// Whether a summary tells of the window `t` what holds of it.
pub open spec fn summarizes(d: Desktop, t: Toplevel, s: WindowSummary) -> bool {
    &&& s.id@ == t.handle@
    &&& s.title@ == d.title_of(t)
    &&& s.app_id@ == t.app_id@
    &&& s.workspace == d.workspace_of(t.window.id)
    &&& s.focused == d.has_focus(t.window.id)
    &&& s.geometry == d.geometry_of(t.window)
    &&& s.z == d.z_of(t.window.id)
    &&& s.sticky == t.sticky
}

/// Whether a node tells of the window `t` what holds of it.
pub open spec fn describes(d: Desktop, t: Toplevel, n: WindowNode) -> bool {
    &&& n.id@ == t.handle@
    &&& n.title@ == d.title_of(t)
    &&& n.app_id@ == t.app_id@
    &&& n.geometry == d.geometry_of(t.window)
    &&& crate::text::opt_view(n.output) == d.output_of(t.window)
    &&& n.z == d.z_of(t.window.id)
    &&& n.focused == d.has_focus(t.window.id)
    &&& n.minimized == d.minimized(t.window.id)
    &&& n.sticky == t.sticky
    &&& n.layout@ == layout_name(d.layout.meta_of(t.window.id).layout)
}

/// Whether nodes tell of windows, one for one.
pub open spec fn describe(d: Desktop, ts: Seq<Toplevel>, ns: Seq<WindowNode>) -> bool {
    &&& ts.len() == ns.len()
    &&& forall|i: int| 0 <= i < ts.len() ==> describes(d, #[trigger] ts[i], ns[i])
}

/// The tracked windows on a workspace, in order.
pub open spec fn on_workspace(d: Desktop, index: u8) -> Seq<Toplevel> {
    d.toplevels@.filter(|t: Toplevel| d.workspace_of(t.window.id) == index)
}

/// The order of stack positions: windows that are not mapped come first.
pub open spec fn z_key(z: Option<u32>) -> int {
    match z {
        Some(n) => n as int + 1,
        None => 0,
    }
}

/// `t` put into `s` behind every window that is not above it.
pub open spec fn place(d: Desktop, s: Seq<Toplevel>, t: Toplevel) -> Seq<Toplevel>
    decreases s.len(),
{
    if s.len() > 0 && z_key(d.z_of(s.last().window.id)) > z_key(d.z_of(t.window.id)) {
        place(d, s.drop_last(), t).push(s.last())
    } else {
        s.push(t)
    }
}

/// Windows in stacking order; windows at the same place keep their order.
pub open spec fn stacked(d: Desktop, s: Seq<Toplevel>) -> Seq<Toplevel>
    decreases s.len(),
{
    if s.len() == 0 {
        s
    } else {
        place(d, stacked(d, s.drop_last()), s.last())
    }
}

/// The windows of a workspace as the tree lists them: in stacking order on the
/// active workspace, in the order of tracking elsewhere.
pub open spec fn listed(d: Desktop, index: u8) -> Seq<Toplevel> {
    if index == d.workspaces.active {
        stacked(d, on_workspace(d, index))
    } else {
        on_workspace(d, index)
    }
}

/// The name of a workspace; empty where none was given.
pub open spec fn workspace_label(names: Seq<String>, index: u8) -> Seq<char> {
    if 1 <= index <= names.len() {
        names[index - 1]@
    } else {
        Seq::empty()
    }
}

/// Whether a workspace stands in the tree: it is active or has windows.
pub open spec fn in_tree(d: Desktop, index: u8) -> bool {
    index != 0 && (index == d.workspaces.active || on_workspace(d, index).len() > 0)
}

/// Whether a node tells of the workspace `index` what holds of it.
pub open spec fn describes_workspace(d: Desktop, n: WorkspaceNode) -> bool {
    &&& n.name@ == workspace_label(d.workspaces.names@, n.index)
    &&& n.focused == (n.index == d.workspaces.active)
    &&& describe(d, listed(d, n.index), n.windows@)
}

impl Desktop {
    /// The workspace of a window, zero without one.
    fn find_workspace(&self, id: u64) -> (r: u8)
        ensures
            r == self.workspace_of(id),
    {
        let mut i: usize = 0;
        let ghost a = self.workspaces.assigned@;
        assert(a.skip(0) =~= a);
        while i < self.workspaces.assigned.len()
            invariant
                i <= a.len(),
                a == self.workspaces.assigned@,
                first_assigned(a, id) == first_assigned(a.skip(i as int), id),
            decreases a.len() - i,
        {
            let e = self.workspaces.assigned[i];
            assert(a.skip(i as int)[0] == e);
            if e.0 == id {
                return e.1;
            }
            assert(a.skip(i as int).drop_first() =~= a.skip(i + 1));
            i += 1;
        }
        0
    }

    /// The title that is reported for a window, and its application identifier:
    /// a title that was set over the client's own comes first.
    pub fn effective_title_app_id(&self, t: &Toplevel) -> (r: (String, String))
        ensures
            r.0@ == self.title_of(*t),
            r.1@ == t.app_id@,
    {
        let title = match self.name_overrides.get(&t.window.id) {
            Some(name) => name.clone(),
            None => t.title.clone(),
        };
        (title, t.app_id.clone())
    }

    /// A window's rectangle; none where it is not mapped.
    pub fn window_geometry(&self, w: Window) -> (r: Option<WindowGeometry>)
        ensures
            r == self.geometry_of(w),
    {
        match self.space.element_location(w.id) {
            Some(loc) => Some(WindowGeometry { x: loc.x, y: loc.y, w: w.size.w, h: w.size.h }),
            None => None,
        }
    }

    /// A window's place in the stack of mapped windows, zero at the bottom; none
    /// where it is not mapped.
    pub fn window_z(&self, id: u64) -> (r: Option<u32>)
        requires
            self.fits(),
        ensures
            r == self.z_of(id),
    {
        let mut i: usize = 0;
        while i < self.space.elements.len()
            invariant
                i <= self.space.elements@.len(),
                self.fits(),
                forall|j: int| 0 <= j < i ==> (#[trigger] self.space.elements@[j]).window.id != id,
            decreases self.space.elements@.len() - i,
        {
            if self.space.elements[i].window.id == id {
                proof {
                    assert(self.space.placed_at(id, i as int));
                    let c = choose|c: int| self.space.placed_at(id, c);
                    assert(self.space.placed_at(id, c));
                    if c < i {
                        assert(self.space.elements@[c].window.id != id);
                    }
                    if (i as int) < c {
                        assert(self.space.elements@[i as int].window.id != id);
                    }
                }
                return Some(i as u32);
            }
            i += 1;
        }
        assert(forall|k: int| !self.space.placed_at(id, k));
        None
    }

    /// The name of the output that holds a window's center; none where the
    /// window is not mapped or no output holds it.
    pub fn window_output(&self, w: Window) -> (r: Option<String>)
        ensures
            crate::text::opt_view(r) == self.output_of(w),
    {
        let g = match self.window_geometry(w) {
            Some(g) => g,
            None => {
                return None;
            },
        };
        let cx: i64 = g.x as i64 + (g.w / 2) as i64;
        let cy: i64 = g.y as i64 + (g.h / 2) as i64;
        let mut i: usize = 0;
        while i < self.outputs.len()
            invariant
                i <= self.outputs@.len(),
                self.geometry_of(w) == Some(g),
                cx == g.x + crate::geometry::quot(g.w as int, 2),
                cy == g.y + crate::geometry::quot(g.h as int, 2),
                forall|j: int| 0 <= j < i ==> !holds_center(#[trigger] self.outputs@[j], g),
            decreases self.outputs@.len() - i,
        {
            if let Some(geo) = self.outputs[i].geometry {
                if cx >= geo.loc.x as i64 && cx < geo.loc.x as i64 + geo.size.w as i64 && cy
                    >= geo.loc.y as i64 && cy < geo.loc.y as i64 + geo.size.h as i64 {
                    proof {
                        assert(self.shows_center(g, i as int));
                        let c = choose|c: int| self.shows_center(g, c);
                        assert(self.shows_center(g, c));
                        if c < i {
                            assert(!holds_center(self.outputs@[c], g));
                        }
                        if (i as int) < c {
                            assert(!holds_center(self.outputs@[i as int], g));
                        }
                    }
                    return Some(self.outputs[i].name.clone());
                }
            }
            i += 1;
        }
        assert(forall|k: int| !self.shows_center(g, k));
        None
    }

    /// The list of tracked windows.
    pub fn collect_windows(&self) -> (r: Vec<WindowSummary>)
        requires
            self.fits(),
        ensures
            r@.len() == self.toplevels@.len(),
            forall|i: int|
                0 <= i < r@.len() ==> summarizes(*self, self.toplevels@[i], #[trigger] r@[i]),
    {
        let mut r: Vec<WindowSummary> = Vec::new();
        let mut i: usize = 0;
        while i < self.toplevels.len()
            invariant
                i <= self.toplevels@.len(),
                self.fits(),
                r@.len() == i,
                forall|k: int|
                    0 <= k < i ==> summarizes(*self, self.toplevels@[k], #[trigger] r@[k]),
            decreases self.toplevels@.len() - i,
        {
            r.push(self.summary(&self.toplevels[i]));
            i += 1;
        }
        r
    }

    /// What is reported of one window.
    pub fn summary(&self, t: &Toplevel) -> (r: WindowSummary)
        requires
            self.fits(),
        ensures
            summarizes(*self, *t, r),
    {
        let (title, app_id) = self.effective_title_app_id(t);
        let focused = match self.focused {
            Some(f) => f.id == t.window.id,
            None => false,
        };
        WindowSummary {
            id: t.handle.clone(),
            title,
            app_id,
            workspace: self.find_workspace(t.window.id),
            focused,
            geometry: self.window_geometry(t.window),
            z: self.window_z(t.window.id),
            sticky: t.sticky,
        }
    }

    /// The list of outputs.
    pub fn collect_outputs(&self) -> (r: Vec<OutputSummary>)
        ensures
            r@.len() == self.outputs@.len(),
            forall|i: int|
                0 <= i < r@.len() ==> {
                    let o = self.outputs@[i];
                    &&& (#[trigger] r@[i]).name@ == o.name@
                    &&& r@[i].scale_bits == o.scale_bits
                    &&& (r@[i].width, r@[i].height) == (match o.mode {
                        Some(m) => m,
                        None => (0i32, 0i32),
                    })
                },
    {
        let mut r: Vec<OutputSummary> = Vec::new();
        let mut i: usize = 0;
        while i < self.outputs.len()
            invariant
                i <= self.outputs@.len(),
                r@.len() == i,
                forall|k: int|
                    0 <= k < i ==> {
                        let o = self.outputs@[k];
                        &&& (#[trigger] r@[k]).name@ == o.name@
                        &&& r@[k].scale_bits == o.scale_bits
                        &&& (r@[k].width, r@[k].height) == (match o.mode {
                            Some(m) => m,
                            None => (0i32, 0i32),
                        })
                    },
            decreases self.outputs@.len() - i,
        {
            let o = &self.outputs[i];
            let (width, height) = match o.mode {
                Some(m) => m,
                None => (0i32, 0i32),
            };
            r.push(
                OutputSummary { name: o.name.clone(), width, height, scale_bits: o.scale_bits },
            );
            i += 1;
        }
        r
    }

    /// The outputs of the tree.
    fn output_nodes(&self) -> (r: Vec<OutputNode>)
        ensures
            r@.len() == self.outputs@.len(),
            forall|i: int|
                0 <= i < r@.len() ==> output_node_of(self.outputs@[i], #[trigger] r@[i]),
    {
        let mut r: Vec<OutputNode> = Vec::new();
        let mut i: usize = 0;
        while i < self.outputs.len()
            invariant
                i <= self.outputs@.len(),
                r@.len() == i,
                forall|k: int|
                    0 <= k < i ==> output_node_of(self.outputs@[k], #[trigger] r@[k]),
            decreases self.outputs@.len() - i,
        {
            let o = &self.outputs[i];
            let geo = match o.geometry {
                Some(g) => g,
                None => crate::geometry::rect(0, 0, 0, 0),
            };
            r.push(
                OutputNode {
                    name: o.name.clone(),
                    x: geo.loc.x,
                    y: geo.loc.y,
                    w: geo.size.w,
                    h: geo.size.h,
                    scale_bits: o.scale_bits,
                },
            );
            i += 1;
        }
        r
    }

    /// What the tree tells of one window.
    fn window_node(&self, t: &Toplevel) -> (r: WindowNode)
        requires
            self.fits(),
        ensures
            describes(*self, *t, r),
    {
        let (title, app_id) = self.effective_title_app_id(t);
        let focused = match self.focused {
            Some(f) => f.id == t.window.id,
            None => false,
        };
        let layout = match self.layout.layout_state(t.window.id) {
            LayoutState::Floating => "floating",
            LayoutState::TiledLeft => "tiled_left",
            LayoutState::TiledRight => "tiled_right",
            LayoutState::Maximized => "maximized",
            LayoutState::Fullscreen => "fullscreen",
        };
        WindowNode {
            id: t.handle.clone(),
            title,
            app_id,
            geometry: self.window_geometry(t.window),
            output: self.window_output(t.window),
            z: self.window_z(t.window.id),
            focused,
            minimized: self.layout.is_minimized(t.window.id),
            sticky: t.sticky,
            layout,
        }
    }

    /// The nodes of the windows on a workspace, in the order of tracking or, for
    /// `by_stack`, in stacking order.
    fn nodes_on(&self, index: u8, by_stack: bool) -> (r: Vec<WindowNode>)
        requires
            self.fits(),
        ensures
            by_stack ==> describe(*self, stacked(*self, on_workspace(*self, index)), r@),
            !by_stack ==> describe(*self, on_workspace(*self, index), r@),
    {
        let mut r: Vec<WindowNode> = Vec::new();
        let mut i: usize = 0;
        let ghost ts = self.toplevels@;
        let ghost here = |t: Toplevel| self.workspace_of(t.window.id) == index;
        assert(ts.take(0).filter(here) =~= Seq::empty()) by {
            reveal(Seq::filter);
        }
        while i < self.toplevels.len()
            invariant
                i <= ts.len(),
                ts == self.toplevels@,
                self.fits(),
                here == (|t: Toplevel| self.workspace_of(t.window.id) == index),
                by_stack ==> describe(*self, stacked(*self, ts.take(i as int).filter(here)), r@),
                !by_stack ==> describe(*self, ts.take(i as int).filter(here), r@),
            decreases ts.len() - i,
        {
            let t = &self.toplevels[i];
            let ghost before = ts.take(i as int).filter(here);
            proof {
                reveal(Seq::filter);
                assert(ts.take(i + 1).drop_last() =~= ts.take(i as int));
            }
            if self.find_workspace(t.window.id) == index {
                let n = self.window_node(t);
                let ghost next = before.push(*t);
                assert(ts.take(i + 1).filter(here) == next);
                assert(next.drop_last() =~= before);
                if by_stack {
                    let ghost s = stacked(*self, before);
                    let at = self.place_index(&r, &n, Ghost(s), Ghost(*t));
                    let ghost old_r = r@;
                    r.insert(at, n);
                    proof {
                        lemma_place(*self, s, *t, at as int);
                        assert(r@ =~= old_r.insert(at as int, n));
                        assert(stacked(*self, next) == s.insert(at as int, *t));
                    }
                } else {
                    r.push(n);
                }
            } else {
                assert(ts.take(i + 1).filter(here) == before);
            }
            i += 1;
        }
        assert(ts.take(i as int) =~= ts);
        r
    }

    /// The place in `r` behind every node that is not above `n`, seen from the
    /// end.
    fn place_index(
        &self,
        r: &Vec<WindowNode>,
        n: &WindowNode,
        Ghost(s): Ghost<Seq<Toplevel>>,
        Ghost(t): Ghost<Toplevel>,
    ) -> (at: usize)
        requires
            describe(*self, s, r@),
            describes(*self, t, *n),
        ensures
            at <= s.len(),
            is_place(*self, s, t, at as int),
    {
        let mut k: usize = r.len();
        while k > 0 && above(r[k - 1].z, n.z)
            invariant
                k <= s.len(),
                describe(*self, s, r@),
                describes(*self, t, *n),
                forall|j: int|
                    k <= j < s.len() ==> z_key(self.z_of((#[trigger] s[j]).window.id)) > z_key(
                        self.z_of(t.window.id),
                    ),
            decreases k,
        {
            assert(describes(*self, s[k - 1], r@[k - 1]));
            k -= 1;
        }
        proof {
            if k > 0 {
                assert(describes(*self, s[k - 1], r@[k - 1]));
            }
        }
        k
    }

    /// The tree: the outputs, the workspaces that are active or have windows,
    /// in ascending order, and the windows that are on no workspace.
    pub fn collect_tree(&self) -> (r: (Vec<OutputNode>, Vec<WorkspaceNode>, Vec<WindowNode>))
        requires
            self.fits(),
            self.workspaces.active != 0,
        ensures
            r.0@.len() == self.outputs@.len(),
            forall|i: int|
                0 <= i < r.0@.len() ==> output_node_of(self.outputs@[i], #[trigger] r.0@[i]),
            forall|i: int, j: int|
                0 <= i < j < r.1@.len() ==> (#[trigger] r.1@[i]).index < (#[trigger] r.1@[j]).index,
            forall|i: int| 0 <= i < r.1@.len() ==> in_tree(*self, (#[trigger] r.1@[i]).index),
            forall|ws: u8|
                #[trigger] in_tree(*self, ws) ==> exists|i: int|
                    0 <= i < r.1@.len() && (#[trigger] r.1@[i]).index == ws,
            forall|i: int| 0 <= i < r.1@.len() ==> describes_workspace(*self, #[trigger] r.1@[i]),
            describe(*self, on_workspace(*self, 0), r.2@),
    {
        let outputs = self.output_nodes();
        let minimized = self.nodes_on(0, false);
        let mut workspaces: Vec<WorkspaceNode> = Vec::new();
        let mut index: u16 = 1;
        while index <= 255
            invariant
                1 <= index <= 256,
                self.fits(),
                self.workspaces.active != 0,
                forall|i: int| 0 <= i < workspaces@.len() ==> (#[trigger] workspaces@[i]).index < index,
                forall|i: int, j: int|
                    0 <= i < j < workspaces@.len() ==> (#[trigger] workspaces@[i]).index < (
                    #[trigger] workspaces@[j]).index,
                forall|i: int|
                    0 <= i < workspaces@.len() ==> in_tree(*self, (#[trigger] workspaces@[i]).index),
                forall|ws: u8|
                    ws < index && #[trigger] in_tree(*self, ws) ==> exists|i: int|
                        0 <= i < workspaces@.len() && (#[trigger] workspaces@[i]).index == ws,
                forall|i: int|
                    0 <= i < workspaces@.len() ==> describes_workspace(
                        *self,
                        #[trigger] workspaces@[i],
                    ),
            decreases 256 - index,
        {
            let ws: u8 = index as u8;
            let active = ws == self.workspaces.active;
            let windows = self.nodes_on(ws, active);
            proof {
                lemma_stacked_len(*self, on_workspace(*self, ws));
            }
            if active || windows.len() > 0 {
                let at: usize = ws as usize - 1;
                let name = if at < self.workspaces.names.len() {
                    self.workspaces.names[at].clone()
                } else {
                    String::new()
                };
                let ghost before = workspaces@;
                workspaces.push(WorkspaceNode { index: ws, name, focused: active, windows });
                proof {
                    assert(workspaces@[before.len() as int].index == ws);
                    assert forall|w: u8|
                        w < index + 1 && #[trigger] in_tree(*self, w) implies exists|i: int|
                        0 <= i < workspaces@.len() && (#[trigger] workspaces@[i]).index == w by {
                        if w < index {
                            let i = choose|i: int|
                                0 <= i < before.len() && (#[trigger] before[i]).index == w;
                            assert(workspaces@[i].index == w);
                        }
                    }
                }
            }
            index += 1;
        }
        (outputs, workspaces, minimized)
    }

    /// The tracked window with the identifier, if there is one.
    pub fn find_handle(&self, handle: &str) -> (r: Option<usize>)
        ensures
            match r {
                Some(i) => i < self.toplevels@.len() && self.toplevels@[i as int].handle@ == handle@
                    && forall|j: int| 0 <= j < i ==> (#[trigger] self.toplevels@[j]).handle@ != handle@,
                None => forall|j: int|
                    0 <= j < self.toplevels@.len() ==> (#[trigger] self.toplevels@[j]).handle@
                        != handle@,
            },
    {
        let mut i: usize = 0;
        while i < self.toplevels.len()
            invariant
                i <= self.toplevels@.len(),
                forall|j: int| 0 <= j < i ==> (#[trigger] self.toplevels@[j]).handle@ != handle@,
            decreases self.toplevels@.len() - i,
        {
            if str_eq(self.toplevels[i].handle.as_str(), handle) {
                return Some(i);
            }
            i += 1;
        }
        None
    }
}

/// Whether a node tells of an output what holds of it; an output without a mode
/// has an empty rectangle at the origin.
pub open spec fn output_node_of(o: OutputInfo, n: OutputNode) -> bool {
    let geo = match o.geometry {
        Some(g) => g,
        None => Rect {
            loc: Point { x: 0, y: 0 },
            size: crate::geometry::Size { w: 0, h: 0 },
        },
    };
    &&& n.name@ == o.name@
    &&& n.x == geo.loc.x
    &&& n.y == geo.loc.y
    &&& n.w == geo.size.w
    &&& n.h == geo.size.h
    &&& n.scale_bits == o.scale_bits
}

/// Whether the first stack position is above the second.
fn above(a: Option<u32>, b: Option<u32>) -> (r: bool)
    ensures
        r == (z_key(a) > z_key(b)),
{
    match (a, b) {
        (Some(x), Some(y)) => x > y,
        (Some(_), None) => true,
        (None, _) => false,
    }
}

/// Whether `at` is the place that `place` puts `t` at.
pub open spec fn is_place(d: Desktop, s: Seq<Toplevel>, t: Toplevel, at: int) -> bool {
    &&& 0 <= at <= s.len()
    &&& forall|j: int|
        at <= j < s.len() ==> z_key(d.z_of((#[trigger] s[j]).window.id)) > z_key(
            d.z_of(t.window.id),
        )
    &&& at > 0 ==> z_key(d.z_of(s[at - 1].window.id)) <= z_key(d.z_of(t.window.id))
}

proof fn lemma_place(d: Desktop, s: Seq<Toplevel>, t: Toplevel, at: int)
    requires
        is_place(d, s, t, at),
    ensures
        place(d, s, t) == s.insert(at, t),
    decreases s.len(),
{
    if s.len() > 0 && z_key(d.z_of(s.last().window.id)) > z_key(d.z_of(t.window.id)) {
        assert(at < s.len());
        assert(is_place(d, s.drop_last(), t, at));
        lemma_place(d, s.drop_last(), t, at);
        assert(place(d, s, t) =~= s.insert(at, t));
    } else {
        if at < s.len() {
            assert(z_key(d.z_of(s[s.len() - 1].window.id)) > z_key(d.z_of(t.window.id)));
        }
        assert(s.insert(at, t) =~= s.push(t));
    }
}

proof fn lemma_place_exists(d: Desktop, s: Seq<Toplevel>, t: Toplevel) -> (at: int)
    ensures
        is_place(d, s, t, at),
    decreases s.len(),
{
    if s.len() > 0 && z_key(d.z_of(s.last().window.id)) > z_key(d.z_of(t.window.id)) {
        let at = lemma_place_exists(d, s.drop_last(), t);
        if at > 0 {
            assert(s.drop_last()[at - 1] == s[at - 1]);
        }
        assert forall|j: int| at <= j < s.len() implies z_key(
            d.z_of((#[trigger] s[j]).window.id),
        ) > z_key(d.z_of(t.window.id)) by {
            if j < s.len() - 1 {
                assert(s.drop_last()[j] == s[j]);
            }
        }
        at
    } else {
        s.len() as int
    }
}

proof fn lemma_stacked_len(d: Desktop, s: Seq<Toplevel>)
    ensures
        stacked(d, s).len() == s.len(),
    decreases s.len(),
{
    if s.len() > 0 {
        lemma_stacked_len(d, s.drop_last());
        let at = lemma_place_exists(d, stacked(d, s.drop_last()), s.last());
        lemma_place(d, stacked(d, s.drop_last()), s.last(), at);
    }
}

/// Whether windows stand in stacking order.
pub open spec fn in_stack_order(d: Desktop, s: Seq<Toplevel>) -> bool {
    forall|i: int, j: int|
        0 <= i < j < s.len() ==> z_key(d.z_of((#[trigger] s[i]).window.id)) <= z_key(
            d.z_of((#[trigger] s[j]).window.id),
        )
}

/// The tree lists the windows of the active workspace from the bottom of the
/// stack to the top, windows that are not mapped first, and lists each of them
/// exactly as often as it is tracked there.
pub proof fn law_tree_in_stack_order(d: Desktop, s: Seq<Toplevel>)
    ensures
        in_stack_order(d, stacked(d, s)),
        stacked(d, s).to_multiset() == s.to_multiset(),
    decreases s.len(),
{
    if s.len() > 0 {
        let rest = stacked(d, s.drop_last());
        law_tree_in_stack_order(d, s.drop_last());
        let t = s.last();
        let at = lemma_place_exists(d, rest, t);
        lemma_place(d, rest, t, at);
        let r = rest.insert(at, t);
        assert forall|i: int, j: int| 0 <= i < j < r.len() implies z_key(
            d.z_of((#[trigger] r[i]).window.id),
        ) <= z_key(d.z_of((#[trigger] r[j]).window.id)) by {
            let oi = if i < at {
                i
            } else {
                i - 1
            };
            let oj = if j < at {
                j
            } else {
                j - 1
            };
            if i != at {
                assert(r[i] == rest[oi]);
            }
            if j != at {
                assert(r[j] == rest[oj]);
            }
            if j == at && oi < at - 1 {
                assert(rest[oi] == r[i]);
                assert(z_key(d.z_of(rest[oi].window.id)) <= z_key(d.z_of(rest[at - 1].window.id)));
            }
        }
        vstd::seq_lib::to_multiset_insert(rest, at, t);
        vstd::seq_lib::to_multiset_build(s.drop_last(), t);
        assert(s.drop_last().push(t) =~= s);
        s.to_multiset_ensures();
    } else {
        assert(stacked(d, s) == s);
    }
}

/// Every tracked window is listed with the workspace that it is on, which stands
/// in the tree, and with no other; one without a workspace is listed as
/// minimized. The active workspace stands in the tree even without windows.
pub proof fn law_tree_lists_every_window(d: Desktop, i: int, other: u8)
    requires
        0 <= i < d.toplevels@.len(),
    ensures
        ({
            let t = d.toplevels@[i];
            let index = d.workspace_of(t.window.id);
            &&& on_workspace(d, index).contains(t)
            &&& index != 0 ==> in_tree(d, index)
            &&& other != index ==> !on_workspace(d, other).contains(t)
        }),
        d.workspaces.active != 0 ==> in_tree(d, d.workspaces.active),
{
    let t = d.toplevels@[i];
    let index = d.workspace_of(t.window.id);
    assert(d.toplevels@.contains(t));
    crate::seqs::lemma_filter_in(
        d.toplevels@,
        |t: Toplevel| d.workspace_of(t.window.id) == index,
        t,
    );
    crate::seqs::lemma_filter_in(
        d.toplevels@,
        |t: Toplevel| d.workspace_of(t.window.id) == other,
        t,
    );
    assert(on_workspace(d, index).contains(t));
    let k = choose|k: int| 0 <= k < on_workspace(d, index).len() && on_workspace(d, index)[k] == t;
    assert(on_workspace(d, index).len() > 0);
}

/// A window that no entry names is on no workspace.
pub proof fn lemma_unassigned(assigned: Seq<(u64, u8)>, window: u64)
    ensures
        first_assigned(assigned.filter(not_assigned(window)), window) == 0,
{
    let kept = assigned.filter(not_assigned(window));
    assert forall|i: int| 0 <= i < kept.len() implies (#[trigger] kept[i]).0 != window by {
        assert(kept.contains(kept[i]));
        crate::seqs::lemma_filter_in(assigned, not_assigned(window), kept[i]);
    }
    lemma_none_assigned(kept, window);
}

proof fn lemma_none_assigned(assigned: Seq<(u64, u8)>, window: u64)
    requires
        forall|i: int| 0 <= i < assigned.len() ==> (#[trigger] assigned[i]).0 != window,
    ensures
        first_assigned(assigned, window) == 0,
    decreases assigned.len(),
{
    if assigned.len() > 0 {
        let rest = assigned.drop_first();
        assert forall|i: int| 0 <= i < rest.len() implies (#[trigger] rest[i]).0 != window by {
            assert(rest[i] == assigned[i + 1]);
        }
        lemma_none_assigned(rest, window);
    }
}

/// A window is on the workspace that its first entry names, and on none without an
/// entry.
pub proof fn law_workspace_of_window(assigned: Seq<(u64, u8)>, window: u64, i: int)
    ensures
        0 <= i < assigned.len() && assigned[i].0 == window && (forall|j: int|
            0 <= j < i ==> (#[trigger] assigned[j]).0 != window) ==> first_assigned(
            assigned,
            window,
        ) == assigned[i].1,
        (forall|j: int| 0 <= j < assigned.len() ==> (#[trigger] assigned[j]).0 != window)
            ==> first_assigned(assigned, window) == 0,
    decreases assigned.len(),
{
    if forall|j: int| 0 <= j < assigned.len() ==> (#[trigger] assigned[j]).0 != window {
        lemma_none_assigned(assigned, window);
    }
    if 0 < i < assigned.len() && assigned[i].0 == window && (forall|j: int|
        0 <= j < i ==> (#[trigger] assigned[j]).0 != window) {
        let rest = assigned.drop_first();
        assert(assigned[0].0 != window);
        assert forall|j: int| 0 <= j < i - 1 implies (#[trigger] rest[j]).0 != window by {
            assert(rest[j] == assigned[j + 1]);
        }
        law_workspace_of_window(rest, window, i - 1);
    }
}

/// Putting a window on a workspace puts it there, whichever it was on, and leaves
/// every other window where it was. Forgetting it leaves it nowhere.
pub proof fn law_window_moves_alone(assigned: Seq<(u64, u8)>, window: u64, to: u8, other: u64)
    ensures
        ({
            let moved = assigned.filter(not_assigned(window)).push((window, to));
            let forgotten = assigned.filter(not_assigned(window));
            &&& first_assigned(moved, window) == to
            &&& first_assigned(forgotten, window) == 0
            &&& other != window ==> first_assigned(moved, other) == first_assigned(assigned, other)
            &&& other != window ==> first_assigned(forgotten, other) == first_assigned(
                assigned,
                other,
            )
        }),
    decreases assigned.len(),
{
    let forgotten = assigned.filter(not_assigned(window));
    let moved = forgotten.push((window, to));
    assert forall|j: int| 0 <= j < forgotten.len() implies (#[trigger] forgotten[j]).0
        != window by {
        assert(forgotten.contains(forgotten[j]));
        crate::seqs::lemma_filter_in(assigned, not_assigned(window), forgotten[j]);
    }
    lemma_none_assigned(forgotten, window);
    assert forall|j: int| 0 <= j < forgotten.len() implies (#[trigger] moved[j]).0 != window by {
        assert(moved[j] == forgotten[j]);
    }
    law_workspace_of_window(moved, window, forgotten.len() as int);
    if other != window {
        lemma_others_stay(assigned, window, other);
        lemma_later_entry(forgotten, (window, to), other);
    }
}

proof fn lemma_later_entry(assigned: Seq<(u64, u8)>, e: (u64, u8), other: u64)
    requires
        e.0 != other,
    ensures
        first_assigned(assigned.push(e), other) == first_assigned(assigned, other),
    decreases assigned.len(),
{
    if assigned.len() > 0 {
        assert(assigned.push(e).drop_first() =~= assigned.drop_first().push(e));
        lemma_later_entry(assigned.drop_first(), e, other);
    } else {
        reveal_with_fuel(first_assigned, 2);
        assert(assigned.push(e).drop_first() =~= Seq::<(u64, u8)>::empty());
    }
}

proof fn lemma_others_stay(assigned: Seq<(u64, u8)>, window: u64, other: u64)
    requires
        other != window,
    ensures
        first_assigned(assigned.filter(not_assigned(window)), other) == first_assigned(
            assigned,
            other,
        ),
    decreases assigned.len(),
{
    if assigned.len() > 0 {
        let init = assigned.drop_last();
        let e = assigned.last();
        lemma_others_stay(init, window, other);
        assert(assigned =~= init.push(e));
        reveal(Seq::filter);
        if e.0 == window {
            lemma_later_entry(init, e, other);
        } else {
            let kept = init.filter(not_assigned(window));
            if exists|i: int| 0 <= i < init.len() && (#[trigger] init[i]).0 == other {
                let i = choose|i: int| 0 <= i < init.len() && (#[trigger] init[i]).0 == other;
                crate::seqs::lemma_filter_in(init, not_assigned(window), init[i]);
                let k = choose|k: int| 0 <= k < kept.len() && kept[k] == init[i];
                assert(kept[k].0 == other);
            }
            if exists|i: int| 0 <= i < kept.len() && (#[trigger] kept[i]).0 == other {
                let i = choose|i: int| 0 <= i < kept.len() && (#[trigger] kept[i]).0 == other;
                assert(kept.contains(kept[i]));
                crate::seqs::lemma_filter_in(init, not_assigned(window), kept[i]);
                let k = choose|k: int| 0 <= k < init.len() && init[k] == kept[i];
                assert(init[k].0 == other);
            }
            lemma_push_entry(init, kept, e, other);
        }
    } else {
        reveal(Seq::filter);
    }
}

proof fn lemma_push_entry(a: Seq<(u64, u8)>, b: Seq<(u64, u8)>, e: (u64, u8), other: u64)
    requires
        first_assigned(a, other) == first_assigned(b, other),
        (exists|i: int| 0 <= i < a.len() && (#[trigger] a[i]).0 == other) <==> (exists|i: int|
            0 <= i < b.len() && (#[trigger] b[i]).0 == other),
    ensures
        first_assigned(a.push(e), other) == first_assigned(b.push(e), other),
{
    lemma_pushed_entry(a, e, other);
    lemma_pushed_entry(b, e, other);
}

proof fn lemma_pushed_entry(a: Seq<(u64, u8)>, e: (u64, u8), other: u64)
    ensures
        (exists|i: int| 0 <= i < a.len() && (#[trigger] a[i]).0 == other) ==> first_assigned(
            a.push(e),
            other,
        ) == first_assigned(a, other),
        !(exists|i: int| 0 <= i < a.len() && (#[trigger] a[i]).0 == other) ==> first_assigned(
            a.push(e),
            other,
        ) == if e.0 == other {
            e.1
        } else {
            0
        },
    decreases a.len(),
{
    if a.len() > 0 {
        let rest = a.drop_first();
        assert(a.push(e).drop_first() =~= rest.push(e));
        lemma_pushed_entry(rest, e, other);
        if a[0].0 != other {
            if exists|i: int| 0 <= i < a.len() && (#[trigger] a[i]).0 == other {
                let i = choose|i: int| 0 <= i < a.len() && (#[trigger] a[i]).0 == other;
                assert(rest[i - 1].0 == other);
            }
            if exists|i: int| 0 <= i < rest.len() && (#[trigger] rest[i]).0 == other {
                let i = choose|i: int| 0 <= i < rest.len() && (#[trigger] rest[i]).0 == other;
                assert(a[i + 1].0 == other);
            }
        }
    } else {
        reveal_with_fuel(first_assigned, 2);
        assert(a.push(e).drop_first() =~= Seq::<(u64, u8)>::empty());
    }
}

/// What is reported of a window: the names that its client gave it, except that a
/// title set over the client's own comes first; where it is and how large; that it
/// has the focus exactly where the window with the focus is this one.
pub proof fn law_report_is_of_the_window(d: Desktop, t: Toplevel, s: WindowSummary)
    requires
        summarizes(d, t, s),
    ensures
        s.id@ == t.handle@,
        s.app_id@ == t.app_id@,
        s.sticky == t.sticky,
        s.focused <==> d.focused is Some && d.focused->0.id == t.window.id,
        d.name_overrides@.contains_key(t.window.id) ==> s.title@ == d.name_overrides@[t.window.id]@,
        !d.name_overrides@.contains_key(t.window.id) ==> s.title@ == t.title@,
        s.geometry is Some <==> d.space.location(t.window.id) is Some,
        s.geometry matches Some(g) ==> {
            &&& Some(crate::geometry::Point { x: g.x, y: g.y }) == d.space.location(t.window.id)
            &&& g.w == t.window.size.w
            &&& g.h == t.window.size.h
        },
        s.workspace == first_assigned(d.workspaces.assigned@, t.window.id),
        s.geometry is Some <==> s.z is Some,
{
}

/// The tree tells the same of a window as the list of windows does, and beside it
/// whether it is minimized, its layout, and the output that its middle is on.
pub proof fn law_tree_agrees_with_list(d: Desktop, t: Toplevel, s: WindowSummary, n: WindowNode)
    requires
        summarizes(d, t, s),
        describes(d, t, n),
    ensures
        n.id@ == s.id@,
        n.title@ == s.title@,
        n.app_id@ == s.app_id@,
        n.geometry == s.geometry,
        n.z == s.z,
        n.focused == s.focused,
        n.sticky == s.sticky,
        n.minimized <==> exists|i: int|
            0 <= i < d.layout.minimized@.len() && (#[trigger] d.layout.minimized@[i]).0
                == t.window.id,
        !d.layout.meta@.contains_key(t.window.id) ==> n.layout@ == "floating"@,
        d.layout.meta@.contains_key(t.window.id) ==> {
            let l = d.layout.meta@[t.window.id].layout;
            &&& l is Floating ==> n.layout@ == "floating"@
            &&& l is TiledLeft ==> n.layout@ == "tiled_left"@
            &&& l is TiledRight ==> n.layout@ == "tiled_right"@
            &&& l is Maximized ==> n.layout@ == "maximized"@
            &&& l is Fullscreen ==> n.layout@ == "fullscreen"@
        },
{
}

/// The place of a mapped window in the stack counts the windows below it.
pub proof fn law_stack_place(d: Desktop, id: u64, i: int)
    requires
        d.fits(),
    ensures
        0 <= i < d.space.elements@.len() && d.space.elements@[i].window.id == id && (forall|j: int|
            0 <= j < i ==> (#[trigger] d.space.elements@[j]).window.id != id) ==> d.z_of(id)
            == Some(i as u32),
        (forall|j: int|
            0 <= j < d.space.elements@.len() ==> (#[trigger] d.space.elements@[j]).window.id != id)
            ==> d.z_of(id) is None,
{
    if 0 <= i < d.space.elements@.len() && d.space.elements@[i].window.id == id && (forall|j: int|
        0 <= j < i ==> (#[trigger] d.space.elements@[j]).window.id != id) {
        assert(d.space.placed_at(id, i));
        let c = choose|c: int| d.space.placed_at(id, c);
        assert(d.space.placed_at(id, c));
        if c < i {
            assert(d.space.elements@[c].window.id != id);
        }
        if i < c {
            assert(d.space.elements@[i].window.id != id);
        }
    }
}

/// The output that is reported of a window is one that the middle of the window is
/// on; where it is on none, none is reported.
pub proof fn law_reported_output(d: Desktop, w: Window, k: int)
    requires
        w.size.w >= 0,
        w.size.h >= 0,
        0 <= k < d.outputs@.len(),
    ensures
        ({
            let on = |o: OutputInfo, loc: Point|
                o.geometry is Some && o.geometry->0.loc.x <= loc.x + w.size.w / 2
                    < o.geometry->0.loc.x + o.geometry->0.size.w && o.geometry->0.loc.y <= loc.y
                    + w.size.h / 2 < o.geometry->0.loc.y + o.geometry->0.size.h;
            &&& d.space.location(w.id) is None ==> d.output_of(w) is None
            &&& d.space.location(w.id) matches Some(loc) ==> {
                &&& on(d.outputs@[k], loc) && (forall|j: int|
                    0 <= j < k ==> !on(#[trigger] d.outputs@[j], loc)) ==> d.output_of(w) == Some(
                    d.outputs@[k].name@,
                )
                &&& (forall|j: int| 0 <= j < d.outputs@.len() ==> !on(#[trigger] d.outputs@[j], loc))
                    ==> d.output_of(w) is None
            }
        }),
{
    if let Some(loc) = d.space.location(w.id) {
        let g = d.geometry_of(w)->0;
        if holds_center(d.outputs@[k], g) && (forall|j: int|
            0 <= j < k ==> !holds_center(#[trigger] d.outputs@[j], g)) {
            assert(d.shows_center(g, k));
            let c = choose|c: int| d.shows_center(g, c);
            assert(d.shows_center(g, c));
            if c < k {
                assert(!holds_center(d.outputs@[c], g));
            }
            if k < c {
                assert(!holds_center(d.outputs@[k], g));
            }
        }
    }
}

/// A workspace stands in the tree exactly where it is active or a tracked window is
/// on it.
pub proof fn law_workspaces_in_tree(d: Desktop, index: u8)
    requires
        index != 0,
    ensures
        in_tree(d, index) <==> index == d.workspaces.active || exists|i: int|
            0 <= i < d.toplevels@.len() && first_assigned(
                d.workspaces.assigned@,
                (#[trigger] d.toplevels@[i]).window.id,
            ) == index,
        !in_tree(d, 0),
{
    let p = |t: Toplevel| d.workspace_of(t.window.id) == index;
    let on = on_workspace(d, index);
    if on.len() > 0 {
        assert(on.contains(on[0]));
        crate::seqs::lemma_filter_in(d.toplevels@, p, on[0]);
        let i = choose|i: int| 0 <= i < d.toplevels@.len() && d.toplevels@[i] == on[0];
        assert(d.toplevels@[i] == on[0]);
    }
    if exists|i: int|
        0 <= i < d.toplevels@.len() && first_assigned(
            d.workspaces.assigned@,
            (#[trigger] d.toplevels@[i]).window.id,
        ) == index {
        let i = choose|i: int|
            0 <= i < d.toplevels@.len() && first_assigned(
                d.workspaces.assigned@,
                (#[trigger] d.toplevels@[i]).window.id,
            ) == index;
        crate::seqs::lemma_filter_in(d.toplevels@, p, d.toplevels@[i]);
    }
}

/// A workspace in the tree has its own name, the empty one where none was given,
/// has the focus exactly where it is active, and tells of each of its windows.
pub proof fn law_workspace_node(d: Desktop, n: WorkspaceNode, i: int)
    requires
        describes_workspace(d, n),
    ensures
        1 <= n.index <= d.workspaces.names@.len() ==> n.name@ == d.workspaces.names@[n.index - 1]@,
        n.index > d.workspaces.names@.len() ==> n.name@.len() == 0,
        n.focused <==> n.index == d.workspaces.active,
        n.windows@.len() == on_workspace(d, n.index).len(),
        n.index != d.workspaces.active && 0 <= i < n.windows@.len() ==> describes(
            d,
            on_workspace(d, n.index)[i],
            n.windows@[i],
        ),
{
    lemma_stacked_len(d, on_workspace(d, n.index));
    if 0 <= i < n.windows@.len() {
        assert(describes(d, listed(d, n.index)[i], n.windows@[i]));
    }
}

/// Windows at the same place of the stack keep their order: those that are not
/// mapped stand in the tree as they are tracked.
pub proof fn law_unmapped_keep_order(d: Desktop, s: Seq<Toplevel>)
    ensures
        stacked(d, s).filter(|t: Toplevel| d.z_of(t.window.id) is None) == s.filter(
            |t: Toplevel| d.z_of(t.window.id) is None,
        ),
    decreases s.len(),
{
    let p = |t: Toplevel| d.z_of(t.window.id) is None;
    reveal(Seq::filter);
    if s.len() > 0 {
        law_unmapped_keep_order(d, s.drop_last());
        lemma_place_filter(d, stacked(d, s.drop_last()), s.last());
    }
}

proof fn lemma_place_filter(d: Desktop, s: Seq<Toplevel>, t: Toplevel)
    ensures
        ({
            let p = |t: Toplevel| d.z_of(t.window.id) is None;
            place(d, s, t).filter(p) == if p(t) {
                s.filter(p).push(t)
            } else {
                s.filter(p)
            }
        }),
    decreases s.len(),
{
    let p = |t: Toplevel| d.z_of(t.window.id) is None;
    reveal(Seq::filter);
    if s.len() > 0 && z_key(d.z_of(s.last().window.id)) > z_key(d.z_of(t.window.id)) {
        lemma_place_filter(d, s.drop_last(), t);
        let head = place(d, s.drop_last(), t);
        assert(head.push(s.last()).drop_last() =~= head);
    } else {
        assert(s.push(t).drop_last() =~= s);
    }
}

/// An output without a mode has an empty rectangle at the origin in the tree; any
/// other has its own.
pub proof fn law_output_node(o: OutputInfo, n: OutputNode)
    requires
        output_node_of(o, n),
    ensures
        n.name@ == o.name@,
        n.scale_bits == o.scale_bits,
        o.geometry matches Some(g) ==> n.x == g.loc.x && n.y == g.loc.y && n.w == g.size.w && n.h
            == g.size.h,
        o.geometry is None ==> n.x == 0 && n.y == 0 && n.w == 0 && n.h == 0,
{
}

/// The tree lists the windows of the active workspace from the bottom of the stack up,
/// and those of another in the order in which they are known.
pub proof fn law_order_in_the_tree(d: Desktop, index: u8, i: int, j: int)
    ensures
        index == d.workspaces.active && 0 <= i < j < listed(d, index).len() ==> {
            let a = d.z_of(listed(d, index)[i].window.id);
            let b = d.z_of(listed(d, index)[j].window.id);
            &&& b is None ==> a is None
            &&& a is Some && b is Some ==> a->0 <= b->0
        },
        index != d.workspaces.active ==> listed(d, index) == d.toplevels@.filter(
            |t: Toplevel| d.workspace_of(t.window.id) == index,
        ),
        listed(d, index).to_multiset() == d.toplevels@.filter(
            |t: Toplevel| d.workspace_of(t.window.id) == index,
        ).to_multiset(),
{
    let s = on_workspace(d, index);
    law_tree_in_stack_order(d, s);
    if index == d.workspaces.active && 0 <= i < j < listed(d, index).len() {
        assert(z_key(d.z_of(stacked(d, s)[i].window.id)) <= z_key(
            d.z_of(stacked(d, s)[j].window.id),
        ));
    }
}

} // verus!
