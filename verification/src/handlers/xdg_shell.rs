//! Windows that come and go: where a new one is put, and what is forgotten of one
//! that is gone.

use vstd::prelude::*;

use crate::desktop::Desktop;
use crate::desktop::Toplevel;
use crate::desktop::Workspaces;
use crate::geometry::max_i32;
use crate::geometry::Point;
use crate::geometry::Rect;
use crate::geometry::Size;
use crate::ipc::ClientId;
use crate::layout::contains_id;
use crate::layout::Space;
use crate::layout::Window;
use crate::seqs::retain;
use crate::state::ShoestringWm;

verus! {

/// How a new window is mapped.
#[derive(Debug)]
pub struct NewToplevel {
    /// The room that it has, as a hint to its client.
    pub bounds: Option<Size>,
    pub location: Point,
    /// The workspace that it is put on.
    pub workspace: u8,
    /// The connections that are told of it.
    pub subscribers: Vec<ClientId>,
    /// The window that is given the keyboard focus, after they are told.
    pub focus: u64,
}

/// A window that is gone: the identifier under which clients knew it, and the
/// connections that are told.
#[derive(Debug)]
pub struct ClosedToplevel {
    pub handle: String,
    pub subscribers: Vec<ClientId>,
}

/// The room for a new window: what bars and docks leave free of the first output.
pub fn usable_size_for_new_window(space: &Space) -> (r: Option<Size>)
    ensures
        r == (if space.outputs@.len() > 0 {
            Some(space.outputs@[0].zone.size)
        } else {
            None
        }),
{
    if space.outputs.len() == 0 {
        return None;
    }
    Some(space.outputs[0].zone.size)
}

/// Where a window of a size is put: in the middle of the first output, but not
/// above or left of it.
pub open spec fn new_place(space: Space, size: Size) -> Point {
    if space.outputs@.len() > 0 && space.outputs@[0].geometry is Some {
        let geo = space.outputs@[0].geometry->0;
        Point {
            x: crate::geometry::max(
                geo.loc.x + crate::geometry::quot(geo.size.w - size.w, 2),
                geo.loc.x as int,
            ) as i32,
            y: crate::geometry::max(
                geo.loc.y + crate::geometry::quot(geo.size.h - size.h, 2),
                geo.loc.y as int,
            ) as i32,
        }
    } else {
        Point { x: 0, y: 0 }
    }
}

/// Whether the place of a window can be written in coordinates.
pub open spec fn place_fits(space: Space, size: Size) -> bool {
    space.outputs@.len() > 0 && space.outputs@[0].geometry is Some ==> {
        let geo = space.outputs@[0].geometry->0;
        &&& i32::MIN <= geo.size.w - size.w <= i32::MAX
        &&& i32::MIN <= geo.size.h - size.h <= i32::MAX
        &&& i32::MIN <= geo.loc.x + crate::geometry::quot(geo.size.w - size.w, 2) <= i32::MAX
        &&& i32::MIN <= geo.loc.y + crate::geometry::quot(geo.size.h - size.h, 2) <= i32::MAX
    }
}

/// Where a window of a size is put.
pub fn center_for_new_window(space: &Space, size: Size) -> (r: Point)
    requires
        place_fits(*space, size),
    ensures
        r == new_place(*space, size),
{
    if space.outputs.len() == 0 {
        return Point { x: 0, y: 0 };
    }
    match space.outputs[0].geometry {
        Some(geo) => {
            let x = geo.loc.x + (geo.size.w - size.w) / 2;
            let y = geo.loc.y + (geo.size.h - size.h) / 2;
            Point { x: max_i32(x, geo.loc.x), y: max_i32(y, geo.loc.y) }
        },
        None => Point { x: 0, y: 0 },
    }
}

/// A window that fits the output is put where all of it shows.
pub proof fn law_new_window_shows(space: Space, size: Size, x: int, y: int)
    requires
        place_fits(space, size),
        space.outputs@.len() > 0,
        space.outputs@[0].geometry is Some,
        ({
            let geo = space.outputs@[0].geometry->0;
            size.w <= geo.size.w && size.h <= geo.size.h
        }),
        (Rect { loc: new_place(space, size), size }).holds(x, y),
    ensures
        (space.outputs@[0].geometry->0).holds(x, y),
{
}

/// The rectangle that a popup is kept in, relative to it: the first output, seen
/// from the popup's place in its window.
pub open spec fn popup_room(space: Space, window: Point, popup: Point) -> Option<Rect> {
    match crate::pointer::area(space, 0) {
        Some(output) => Some(
            Rect {
                loc: Point {
                    x: (output.loc.x - popup.x - window.x) as i32,
                    y: (output.loc.y - popup.y - window.y) as i32,
                },
                size: output.size,
            },
        ),
        None => None,
    }
}

/// Whether that rectangle can be written in coordinates, step by step.
pub open spec fn popup_fits(space: Space, window: Point, popup: Point) -> bool {
    match crate::pointer::area(space, 0) {
        Some(output) => {
            &&& i32::MIN <= output.loc.x - popup.x <= i32::MAX
            &&& i32::MIN <= output.loc.y - popup.y <= i32::MAX
            &&& i32::MIN <= output.loc.x - popup.x - window.x <= i32::MAX
            &&& i32::MIN <= output.loc.y - popup.y - window.y <= i32::MAX
        },
        None => true,
    }
}

/// A surface is committed. What is to be sent: the first configure of its window,
/// and that of its popup. Each is given where the surface has one, with whether
/// it was configured before.
pub fn handle_commit(window: Option<bool>, popup: Option<bool>) -> (r: (bool, bool))
    ensures
        r.0 == (window == Some(false)),
        r.1 == (popup == Some(false)),
{
    let configure_window = match window {
        Some(sent) => !sent,
        None => false,
    };
    let configure_popup = match popup {
        Some(sent) => !sent,
        None => false,
    };
    (configure_window, configure_popup)
}

impl ShoestringWm {
    /// The rectangle that a popup is kept in. None where its window is not mapped,
    /// or there is no output.
    pub fn unconstrain_popup(&self, root: Option<u64>, popup: Point) -> (r: Option<Rect>)
        requires
            root matches Some(id) ==> (self.desktop.space.location(id) matches Some(loc)
                ==> popup_fits(self.desktop.space, loc, popup)),
        ensures
            r == (match root {
                Some(id) => match self.desktop.space.location(id) {
                    Some(loc) => popup_room(self.desktop.space, loc, popup),
                    None => None,
                },
                None => None,
            }),
    {
        let id = match root {
            Some(id) => id,
            None => return None,
        };
        let window = match self.desktop.space.element_location(id) {
            Some(loc) => loc,
            None => return None,
        };
        let output = match crate::pointer::absolute_area(&self.desktop.space) {
            Some(output) => output,
            None => return None,
        };
        Some(
            Rect {
                loc: Point {
                    x: output.loc.x - popup.x - window.x,
                    y: output.loc.y - popup.y - window.y,
                },
                size: output.size,
            },
        )
    }

    /// A new window, which clients know by the identifier `handle`: its client is
    /// given a hint of its room, and the window is mapped on the active workspace
    /// and given the focus.
    /// Its size is not known yet, so it is marked to be put in the middle once it
    /// is.
    pub fn new_toplevel(&mut self, window: Window, handle: String) -> (r: NewToplevel)
        requires
            place_fits(old(self).desktop.space, window.size),
        ensures
            window_opened(*old(self), window, handle@, *final(self), r),
    {
        let bounds = usable_size_for_new_window(&self.desktop.space);
        let location = center_for_new_window(&self.desktop.space, window.size);
        if !contains_id(&self.pending_initial_center, window.id) {
            self.pending_initial_center.push(window.id);
        }
        let workspace = self.desktop.workspaces.assign_active(window.id);
        let ghost known = self.desktop.toplevels@;
        self.desktop.toplevels.push(
            Toplevel { window, handle, title: String::new(), app_id: String::new(), sticky: false },
        );
        assert(self.desktop.toplevels@.drop_last() =~= known);
        NewToplevel {
            bounds,
            location,
            workspace,
            subscribers: self.emit_ipc(),
            focus: window.id,
        }
    }

    /// A window is gone: nothing is kept of it. The result is the identifier
    /// under which clients knew it, and who is told.
    pub fn toplevel_destroyed(&mut self, window: u64) -> (r: Option<ClosedToplevel>)
        ensures
            match r {
                Some(c) => {
                    &&& exists|i: int| #[trigger]
                        first_tracked(old(self).desktop.toplevels@, window, i) && c.handle
                            == old(self).desktop.toplevels@[i].handle
                    &&& c.subscribers@ == crate::backend::outputs::followers(*old(self))
                },
                None => forall|i: int|
                    0 <= i < old(self).desktop.toplevels@.len() ==> (
                    #[trigger] old(self).desktop.toplevels@[i]).window.id != window,
            },
            window_forgotten(*old(self), window, *final(self)),
    {
        let mut id: Option<String> = None;
        let mut i: usize = 0;
        let ghost all = self.desktop.toplevels@;
        while i < self.desktop.toplevels.len()
            invariant
                i <= all.len(),
                all == self.desktop.toplevels@,
                *self == *old(self),
                match id {
                    Some(s) => exists|k: int| #[trigger]
                        first_tracked(all, window, k) && s == all[k].handle,
                    None => forall|j: int|
                        0 <= j < i ==> (#[trigger] all[j]).window.id != window,
                },
            decreases all.len() - i,
        {
            if id.is_none() && self.desktop.toplevels[i].window.id == window {
                assert(first_tracked(all, window, i as int));
                id = Some(self.desktop.toplevels[i].handle.clone());
            }
            i += 1;
        }
        self.desktop.layout.forget(window);
        let track = |t: &Toplevel| -> (b: bool)
            ensures
                b == (t.window.id != window),
            { t.window.id != window };
        retain(&mut self.desktop.toplevels, track, Ghost(not_tracked(window)));
        self.desktop.workspaces.forget(window);
        let other = |w: &u64| -> (b: bool)
            ensures
                b == (*w != window),
            { *w != window };
        retain(&mut self.rules_applied, other, Ghost(not_listed(window)));
        let waits = |w: &u64| -> (b: bool)
            ensures
                b == (*w != window),
            { *w != window };
        retain(&mut self.pending_initial_center, waits, Ghost(not_listed(window)));
        match id {
            Some(handle) => Some(ClosedToplevel { handle, subscribers: self.emit_ipc() }),
            None => None,
        }
    }
}

/// Every window but one, where clients know it.
pub open spec fn not_tracked(window: u64) -> spec_fn(Toplevel) -> bool {
    |t: Toplevel| t.window.id != window
}

/// Every window but one.
pub open spec fn not_listed(window: u64) -> spec_fn(u64) -> bool {
    |w: u64| w != window
}

/// What a new window leaves: clients know it, without a title as yet, it is on
/// the active workspace, and it waits to be put in the middle.
pub open spec fn window_opened(
    before: ShoestringWm,
    window: Window,
    handle: Seq<char>,
    after: ShoestringWm,
    r: NewToplevel,
) -> bool {
    let t = after.desktop.toplevels@.last();
    &&& r.bounds == (if before.desktop.space.outputs@.len() > 0 {
        Some(before.desktop.space.outputs@[0].zone.size)
    } else {
        None
    })
    &&& r.location == new_place(before.desktop.space, window.size)
    &&& r.workspace == before.desktop.workspaces.active
    &&& r.subscribers@ == crate::backend::outputs::followers(before)
    &&& r.focus == window.id
    &&& after.desktop.toplevels@.len() > 0
    &&& after.desktop.toplevels@.drop_last() == before.desktop.toplevels@
    &&& t.window == window
    &&& t.handle@ == handle
    &&& t.title@.len() == 0
    &&& t.app_id@.len() == 0
    &&& !t.sticky
    &&& after.desktop.workspaces.assigned@ == before.desktop.workspaces.assigned@.filter(
        crate::desktop::not_assigned(window.id),
    ).push((window.id, before.desktop.workspaces.active))
    &&& after.pending_initial_center@ == (if before.pending_initial_center@.contains(window.id) {
        before.pending_initial_center@
    } else {
        before.pending_initial_center@.push(window.id)
    })
    &&& after == (ShoestringWm {
        desktop: Desktop {
            toplevels: after.desktop.toplevels,
            workspaces: Workspaces {
                assigned: after.desktop.workspaces.assigned,
                ..before.desktop.workspaces
            },
            ..before.desktop
        },
        pending_initial_center: after.pending_initial_center,
        ..before
    })
}

/// What a window that is gone leaves: nothing of it, and all of the others.
pub open spec fn window_forgotten(before: ShoestringWm, window: u64, after: ShoestringWm) -> bool {
    &&& after.desktop.toplevels@ == before.desktop.toplevels@.filter(not_tracked(window))
    &&& after.desktop.workspaces.assigned@ == before.desktop.workspaces.assigned@.filter(
        crate::desktop::not_assigned(window),
    )
    &&& after.desktop.layout.meta@ == before.desktop.layout.meta@.remove(window)
    &&& after.desktop.layout.minimized@ == before.desktop.layout.minimized@.filter(
        crate::layout::not_hidden(window),
    )
    &&& after.rules_applied@ == before.rules_applied@.filter(not_listed(window))
    &&& after.pending_initial_center@ == before.pending_initial_center@.filter(
        not_listed(window),
    )
    &&& after == (ShoestringWm {
        desktop: Desktop {
            layout: after.desktop.layout,
            toplevels: after.desktop.toplevels,
            workspaces: Workspaces {
                assigned: after.desktop.workspaces.assigned,
                ..before.desktop.workspaces
            },
            ..before.desktop
        },
        rules_applied: after.rules_applied,
        pending_initial_center: after.pending_initial_center,
        ..before
    })
}

/// Whether nothing is known of a window.
pub open spec fn window_unknown(wm: ShoestringWm, window: u64) -> bool {
    &&& forall|i: int|
        0 <= i < wm.desktop.toplevels@.len() ==> (
        #[trigger] wm.desktop.toplevels@[i]).window.id != window
    &&& forall|i: int|
        0 <= i < wm.desktop.workspaces.assigned@.len() ==> (
        #[trigger] wm.desktop.workspaces.assigned@[i]).0 != window
    &&& !wm.desktop.layout.meta@.contains_key(window)
    &&& forall|i: int|
        0 <= i < wm.desktop.layout.minimized@.len() ==> (
        #[trigger] wm.desktop.layout.minimized@[i]).0 != window
    &&& !wm.rules_applied@.contains(window)
    &&& !wm.pending_initial_center@.contains(window)
}

/// A window that comes and goes leaves everything that is known of the others as
/// it was.
pub proof fn law_window_leaves_no_trace(
    before: ShoestringWm,
    opened: ShoestringWm,
    after: ShoestringWm,
    window: Window,
    handle: Seq<char>,
    r: NewToplevel,
)
    requires
        window_unknown(before, window.id),
        window_opened(before, window, handle, opened, r),
        window_forgotten(opened, window.id, after),
    ensures
        after.desktop.toplevels@ == before.desktop.toplevels@,
        after.desktop.workspaces.assigned@ == before.desktop.workspaces.assigned@,
        after.desktop.layout.meta@ == before.desktop.layout.meta@,
        after.desktop.layout.minimized@ == before.desktop.layout.minimized@,
        after.rules_applied@ == before.rules_applied@,
        after.pending_initial_center@ == before.pending_initial_center@,
{
    let id = window.id;
    crate::seqs::lemma_filter_all(before.desktop.workspaces.assigned@, crate::desktop::not_assigned(id));
    lemma_filter_pushed(
        before.desktop.workspaces.assigned@,
        (id, before.desktop.workspaces.active),
        crate::desktop::not_assigned(id),
    );
    lemma_filter_pushed(
        before.desktop.toplevels@,
        opened.desktop.toplevels@.last(),
        not_tracked(id),
    );
    assert(opened.desktop.toplevels@ =~= before.desktop.toplevels@.push(
        opened.desktop.toplevels@.last(),
    ));
    assert forall|i: int| 0 <= i < before.pending_initial_center@.len() implies not_listed(id)(
        #[trigger] before.pending_initial_center@[i],
    ) by {
        assert(before.pending_initial_center@.contains(before.pending_initial_center@[i]));
    }
    lemma_filter_pushed(before.pending_initial_center@, id, not_listed(id));
    assert forall|i: int| 0 <= i < before.rules_applied@.len() implies not_listed(id)(
        #[trigger] before.rules_applied@[i],
    ) by {
        assert(before.rules_applied@.contains(before.rules_applied@[i]));
    }
    crate::seqs::lemma_filter_all(before.rules_applied@, not_listed(id));
    crate::seqs::lemma_filter_all(
        before.desktop.layout.minimized@,
        crate::layout::not_hidden(id),
    );
    assert(after.desktop.layout.meta@ =~= before.desktop.layout.meta@);
}

/// Filtering takes the one entry that does not pass off the end.
proof fn lemma_filter_pushed<A>(s: Seq<A>, a: A, p: spec_fn(A) -> bool)
    requires
        forall|i: int| 0 <= i < s.len() ==> p(#[trigger] s[i]),
        !p(a),
    ensures
        s.push(a).filter(p) == s,
{
    reveal(Seq::filter);
    crate::seqs::lemma_filter_all(s, p);
    assert(s.push(a).drop_last() =~= s);
}

/// Whether the entry at `i` is the first of a window.
pub open spec fn first_tracked(ts: Seq<Toplevel>, window: u64, i: int) -> bool {
    &&& 0 <= i < ts.len()
    &&& ts[i].window.id == window
    &&& forall|j: int| 0 <= j < i ==> (#[trigger] ts[j]).window.id != window
}

/// A window that fits the first output has as much room on its left as on its right and
/// above as below, to the pixel; one that does not fit begins at the output's corner.
/// Without an output it is put at the origin.
pub proof fn law_new_window_in_the_middle(space: Space, size: Size)
    requires
        place_fits(space, size),
    ensures
        space.outputs@.len() == 0 || space.outputs@[0].geometry is None ==> new_place(space, size)
            == (Point { x: 0, y: 0 }),
        space.outputs@.len() > 0 ==> (space.outputs@[0].geometry matches Some(geo) ==> {
            let p = new_place(space, size);
            let left = p.x - geo.loc.x;
            let right = geo.size.w - size.w - left;
            let above = p.y - geo.loc.y;
            let below = geo.size.h - size.h - above;
            &&& size.w <= geo.size.w ==> left == right || left + 1 == right
            &&& size.w > geo.size.w ==> left == 0
            &&& size.h <= geo.size.h ==> above == below || above + 1 == below
            &&& size.h > geo.size.h ==> above == 0
        }),
{
}

/// A popup's room holds a point, seen from the popup, exactly where the first output
/// holds it in the desktop.
pub proof fn law_popup_room(space: Space, window: Point, popup: Point, x: int, y: int)
    requires
        popup_fits(space, window, popup),
        space.outputs@.len() > 0,
        space.outputs@[0].geometry is Some,
    ensures
        popup_room(space, window, popup) is Some,
        (popup_room(space, window, popup)->0).holds(x, y) <==> (
        space.outputs@[0].geometry->0).holds(x + popup.x + window.x, y + popup.y + window.y),
{
}

/// A new window is known to clients behind the others, is assigned to the active
/// workspace alone, waits to be put in the middle, and is given the focus.
pub proof fn law_new_window_opened(
    before: ShoestringWm,
    window: Window,
    handle: Seq<char>,
    after: ShoestringWm,
    r: NewToplevel,
    w: u8,
)
    requires
        window_opened(before, window, handle, after, r),
    ensures
        after.desktop.toplevels@.len() == before.desktop.toplevels@.len() + 1,
        after.desktop.toplevels@.last().window == window,
        after.desktop.toplevels@.last().handle@ == handle,
        after.desktop.workspaces.assigned@.contains((window.id, w)) <==> w
            == before.desktop.workspaces.active,
        r.workspace == before.desktop.workspaces.active,
        r.focus == window.id,
        after.pending_initial_center@.contains(window.id),
        after.desktop.space == before.desktop.space && after.desktop.layout == before.desktop.layout,
{
    let p = crate::desktop::not_assigned(window.id);
    let s = before.desktop.workspaces.assigned@;
    let active = before.desktop.workspaces.active;
    crate::seqs::lemma_filter_in(s, p, (window.id, w));
    crate::seqs::lemma_push_contains(s.filter(p), (window.id, active), (window.id, w));
    crate::seqs::lemma_push_contains(before.pending_initial_center@, window.id, window.id);
}

/// Nothing is known of a window that is gone, and of any other as much as before.
pub proof fn law_gone_is_forgotten(
    before: ShoestringWm,
    window: u64,
    after: ShoestringWm,
    t: Toplevel,
    other: u64,
    w: u8,
)
    requires
        window_forgotten(before, window, after),
    ensures
        after.desktop.toplevels@.contains(t) <==> before.desktop.toplevels@.contains(t)
            && t.window.id != window,
        after.desktop.workspaces.assigned@.contains((other, w))
            <==> before.desktop.workspaces.assigned@.contains((other, w)) && other != window,
        after.desktop.layout.meta@.contains_key(other)
            <==> before.desktop.layout.meta@.contains_key(other) && other != window,
        other != window && before.desktop.layout.meta@.contains_key(other)
            ==> after.desktop.layout.meta@[other] == before.desktop.layout.meta@[other],
        after.rules_applied@.contains(other) <==> before.rules_applied@.contains(other) && other
            != window,
        after.pending_initial_center@.contains(other)
            <==> before.pending_initial_center@.contains(other) && other != window,
        forall|e: (u64, Rect)| #[trigger]
            after.desktop.layout.minimized@.contains(e)
                <==> before.desktop.layout.minimized@.contains(e) && e.0 != window,
{
    crate::seqs::lemma_filter_in(before.desktop.toplevels@, not_tracked(window), t);
    crate::seqs::lemma_filter_in(
        before.desktop.workspaces.assigned@,
        crate::desktop::not_assigned(window),
        (other, w),
    );
    crate::seqs::lemma_filter_in(before.rules_applied@, not_listed(window), other);
    crate::seqs::lemma_filter_in(before.pending_initial_center@, not_listed(window), other);
    assert forall|e: (u64, Rect)| #[trigger]
        after.desktop.layout.minimized@.contains(e) == (
        before.desktop.layout.minimized@.contains(e) && e.0 != window) by {
        crate::seqs::lemma_filter_in(
            before.desktop.layout.minimized@,
            crate::layout::not_hidden(window),
            e,
        );
    }
}

/// A window is found by its identifier, the first entry of it.
pub proof fn law_window_found(ts: Seq<Toplevel>, window: u64, i: int, j: int)
    ensures
        first_tracked(ts, window, i) ==> 0 <= i < ts.len() && ts[i].window.id == window && (0 <= j
            < i ==> ts[j].window.id != window),
        first_tracked(ts, window, i) && first_tracked(ts, window, j) ==> i == j,
        0 <= i < ts.len() && ts[i].window.id == window && (forall|k: int|
            0 <= k < i ==> (#[trigger] ts[k]).window.id != window) ==> first_tracked(ts, window, i),
{
    if first_tracked(ts, window, i) && 0 <= j < i {
        assert(ts[j].window.id != window);
    }
    if first_tracked(ts, window, j) && 0 <= i < j {
        assert(ts[i].window.id != window);
    }
}

/// A window that comes or goes changes nothing else: not the outputs, not where windows
/// are mapped, and not which workspace is active.
pub proof fn law_windows_change_little(
    before: ShoestringWm,
    window: Window,
    handle: Seq<char>,
    opened: ShoestringWm,
    r: NewToplevel,
    gone: u64,
    forgotten: ShoestringWm,
)
    requires
        window_opened(before, window, handle, opened, r),
        window_forgotten(before, gone, forgotten),
    ensures
        opened == (ShoestringWm {
            desktop: opened.desktop,
            pending_initial_center: opened.pending_initial_center,
            ..before
        }),
        opened.desktop == (Desktop {
            toplevels: opened.desktop.toplevels,
            workspaces: opened.desktop.workspaces,
            ..before.desktop
        }),
        opened.desktop.workspaces.active == before.desktop.workspaces.active,
        opened.desktop.workspaces.count == before.desktop.workspaces.count,
        opened.desktop.workspaces.names == before.desktop.workspaces.names,
        forgotten == (ShoestringWm {
            desktop: forgotten.desktop,
            rules_applied: forgotten.rules_applied,
            pending_initial_center: forgotten.pending_initial_center,
            ..before
        }),
        forgotten.desktop == (Desktop {
            layout: forgotten.desktop.layout,
            toplevels: forgotten.desktop.toplevels,
            workspaces: forgotten.desktop.workspaces,
            ..before.desktop
        }),
        forgotten.desktop.workspaces.active == before.desktop.workspaces.active,
        forgotten.desktop.workspaces.count == before.desktop.workspaces.count,
        forgotten.desktop.workspaces.names == before.desktop.workspaces.names,
{
}

} // verus!
