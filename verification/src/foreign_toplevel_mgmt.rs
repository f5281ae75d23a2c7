//! Windows for taskbars: one handle per window and bound manager, and what the
//! handles are told and may ask for.

use vstd::prelude::*;

use crate::layout;
use crate::layout::contains_id;
use crate::layout::GeometryChange;
use crate::layout::LayoutState;
use crate::layout::Window;
use crate::seqs::copy_vec;
use crate::seqs::retain;
use crate::state::ShoestringWm;
use crate::wire::lowest_first;
use crate::wire::push_u32;

verus! {

/// The code of a maximized window.
pub const STATE_MAXIMIZED: u32 = 0;

/// The code of a minimized window.
pub const STATE_MINIMIZED: u32 = 1;

/// The code of the window with the focus.
pub const STATE_ACTIVATED: u32 = 2;

/// Attached to each manager.
#[derive(Clone, Copy, Debug)]
pub struct ForeignToplevelManagerData;

/// Attached to each handle: its window.
#[derive(Clone, Copy, Debug)]
pub struct ForeignToplevelHandleData {
    pub window: u64,
}

/// The handles of a window, and the outputs that they were last told of.
#[derive(Debug)]
pub struct WindowHandles {
    pub window: u64,
    pub handles: Vec<u64>,
    pub last_outputs: Vec<u64>,
}

/// A window's handles by their values.
pub struct HandlesView {
    pub window: u64,
    pub handles: Seq<u64>,
    pub last_outputs: Seq<u64>,
}

impl View for WindowHandles {
    type V = HandlesView;

    open spec fn view(&self) -> HandlesView {
        HandlesView {
            window: self.window,
            handles: self.handles@,
            last_outputs: self.last_outputs@,
        }
    }
}

/// Windows with handles, by their values.
pub open spec fn handle_views(ws: Seq<WindowHandles>) -> Seq<HandlesView> {
    ws.map_values(|w: WindowHandles| w@)
}

/// The bound managers and the windows with handles.
#[derive(Debug)]
pub struct ForeignToplevelMgmtState {
    pub managers: Vec<u64>,
    pub windows: Vec<WindowHandles>,
}

/// The codes of the flags that are set, in ascending order, as bytes.
pub open spec fn state_bytes(maximized: bool, minimized: bool, activated: bool, little: bool) -> Seq<
    u8,
> {
    (if maximized {
        crate::wire::bytes_of(STATE_MAXIMIZED, little)
    } else {
        Seq::empty()
    }) + (if minimized {
        crate::wire::bytes_of(STATE_MINIMIZED, little)
    } else {
        Seq::empty()
    }) + (if activated {
        crate::wire::bytes_of(STATE_ACTIVATED, little)
    } else {
        Seq::empty()
    })
}

/// Whether bytes are the state array of the flags, in the byte order of some
/// machine.
pub open spec fn is_state_array(
    maximized: bool,
    minimized: bool,
    activated: bool,
    r: Seq<u8>,
) -> bool {
    exists|little: bool| r == #[trigger] state_bytes(maximized, minimized, activated, little)
}

/// The state array of a window: one 32-bit code per flag that is set, in the
/// byte order of the machine. Fullscreen has no flag.
pub fn state_array_bytes(maximized: bool, minimized: bool, activated: bool) -> (r: Vec<u8>)
    ensures
        is_state_array(maximized, minimized, activated, r@),
{
    let little = lowest_first();
    let v = state_array_in(maximized, minimized, activated, little);
    assert(v@ == state_bytes(maximized, minimized, activated, little));
    v
}

/// The state array of a window in the given byte order.
pub fn state_array_in(maximized: bool, minimized: bool, activated: bool, little: bool) -> (r: Vec<
    u8,
>)
    ensures
        r@ == state_bytes(maximized, minimized, activated, little),
{
    let mut v: Vec<u8> = Vec::new();
    if maximized {
        push_u32(&mut v, STATE_MAXIMIZED, little);
    }
    if minimized {
        push_u32(&mut v, STATE_MINIMIZED, little);
    }
    if activated {
        push_u32(&mut v, STATE_ACTIVATED, little);
    }
    assert(v@ =~= state_bytes(maximized, minimized, activated, little));
    v
}

/// The state array has four bytes per flag that is set.
pub proof fn law_state_array_length(
    maximized: bool,
    minimized: bool,
    activated: bool,
    r: Seq<u8>,
)
    requires
        is_state_array(maximized, minimized, activated, r),
    ensures
        r.len() == 4 * ((if maximized {
            1int
        } else {
            0
        }) + (if minimized {
            1int
        } else {
            0
        }) + (if activated {
            1int
        } else {
            0
        })),
{
}

/// What a window's handles are told besides its title and its application
/// identifier: the outputs that it has left and entered, and its state.
#[derive(Debug)]
pub struct SyncPlan {
    pub handles: Vec<u64>,
    pub leave: Vec<u64>,
    pub enter: Vec<u64>,
    pub state: Vec<u8>,
}

/// What a handle is told of a window besides its title and its application
/// identifier.
#[derive(Debug)]
pub struct WlrInfo {
    pub outputs: Vec<u64>,
    pub state_bytes: Vec<u8>,
}

/// Whether bytes are the state array of a window as it is now.
pub open spec fn tells_state(d: crate::desktop::Desktop, window: u64, bytes: Seq<u8>) -> bool {
    is_state_array(
        d.layout.meta_of(window).layout == LayoutState::Maximized,
        d.minimized(window),
        d.has_focus(window),
        bytes,
    )
}

/// The entries of the first list that the second one lacks, in order.
pub open spec fn missing(a: Seq<u64>, b: Seq<u64>) -> Seq<u64> {
    a.filter(|x: u64| !b.contains(x))
}

/// The entries of the first list that the second one lacks.
fn difference(a: &Vec<u64>, b: &Vec<u64>) -> (r: Vec<u64>)
    ensures
        r@ == missing(a@, b@),
{
    let ghost p = |x: u64| !b@.contains(x);
    let mut r: Vec<u64> = Vec::new();
    let mut i: usize = 0;
    assert(a@.take(0).filter(p) =~= Seq::empty()) by {
        reveal(Seq::filter);
    }
    while i < a.len()
        invariant
            i <= a@.len(),
            p == (|x: u64| !b@.contains(x)),
            r@ == a@.take(i as int).filter(p),
        decreases a@.len() - i,
    {
        proof {
            reveal(Seq::filter);
            assert(a@.take(i + 1).drop_last() =~= a@.take(i as int));
        }
        if !contains_id(b, a[i]) {
            r.push(a[i]);
        }
        i += 1;
    }
    assert(a@.take(i as int) =~= a@);
    r
}

/// The outputs that show a window.
pub open spec fn outputs_of(space: crate::layout::Space, id: u64) -> Seq<u64> {
    if exists|i: int| space.placed_at(id, i) {
        space.elements@[choose|i: int| space.placed_at(id, i)].outputs@
    } else {
        Seq::empty()
    }
}

/// The outputs that show a window.
pub fn outputs_for(space: &crate::layout::Space, id: u64) -> (r: Vec<u64>)
    ensures
        r@ == outputs_of(*space, id),
{
    let mut i: usize = 0;
    while i < space.elements.len()
        invariant
            i <= space.elements@.len(),
            forall|j: int| 0 <= j < i ==> (#[trigger] space.elements@[j]).window.id != id,
        decreases space.elements@.len() - i,
    {
        if space.elements[i].window.id == id {
            proof {
                assert(space.placed_at(id, i as int));
                let c = choose|c: int| space.placed_at(id, c);
                assert(space.placed_at(id, c));
                if c < i {
                    assert(space.elements@[c].window.id != id);
                }
                if (i as int) < c {
                    assert(space.elements@[i as int].window.id != id);
                }
            }
            return copy_vec(&space.elements[i].outputs);
        }
        i += 1;
    }
    assert(forall|k: int| !space.placed_at(id, k));
    Vec::new()
}

impl ForeignToplevelMgmtState {
    /// Whether no window is listed twice, and each has a handle.
    pub open spec fn wf(self) -> bool {
        &&& forall|i: int, j: int|
            0 <= i < j < self.windows@.len() ==> (#[trigger] self.windows@[i]).window != (
            #[trigger] self.windows@[j]).window
        &&& forall|i: int|
            0 <= i < self.windows@.len() ==> (#[trigger] self.windows@[i]).handles@.len() > 0
    }

    /// No managers and no windows.
    pub fn new() -> (r: Self)
        ensures
            r.wf(),
            r.managers@.len() == 0,
            r.windows@.len() == 0,
    {
        ForeignToplevelMgmtState { managers: Vec::new(), windows: Vec::new() }
    }

    /// Whether the entry at `i` is that of the window.
    pub open spec fn at(self, window: u64, i: int) -> bool {
        0 <= i < self.windows@.len() && self.windows@[i].window == window
    }

    fn find(&self, window: u64) -> (r: Option<usize>)
        ensures
            match r {
                Some(i) => self.at(window, i as int),
                None => forall|i: int| !self.at(window, i),
            },
    {
        let mut i: usize = 0;
        while i < self.windows.len()
            invariant
                i <= self.windows@.len(),
                forall|j: int| 0 <= j < i ==> (#[trigger] self.windows@[j]).window != window,
            decreases self.windows@.len() - i,
        {
            if self.windows[i].window == window {
                return Some(i);
            }
            i += 1;
        }
        None
    }

    /// Adds handles of a window, and notes the outputs that they are told of.
    /// Without handles nothing changes.
    pub fn announce(&mut self, window: u64, created: &Vec<u64>, outputs: Vec<u64>)
        requires
            old(self).wf(),
        ensures
            final(self).wf(),
            final(self).managers == old(self).managers,
            handle_views(final(self).windows@) == announced(
                handle_views(old(self).windows@),
                window,
                created@,
                outputs@,
            ),
    {
        if created.len() == 0 {
            return ;
        }
        let ghost before = self.windows@;
        match self.find(window) {
            Some(i) => {
                let e = &mut self.windows[i];
                let mut more = copy_vec(created);
                e.handles.append(&mut more);
                e.last_outputs = outputs;
                proof {
                    let after = self.windows@;
                    assert(before[i as int].window == window);
                    assert forall|a: int, b: int| 0 <= a < b < after.len() implies (
                    #[trigger] after[a]).window != (#[trigger] after[b]).window by {
                        assert(before[a].window != before[b].window);
                    }
                    assert forall|j: int| 0 <= j < before.len() && j != i implies (
                    #[trigger] before[j]).window != window by {
                        if j < i {
                            assert(before[j].window != before[i as int].window);
                        } else {
                            assert(before[i as int].window != before[j].window);
                        }
                    }
                    assert(handle_views(before)[i as int].window == window);
                    assert(handle_views(after) =~= announced(
                        handle_views(before),
                        window,
                        created@,
                        outputs@,
                    ));
                }
            },
            None => {
                proof {
                    assert forall|j: int| 0 <= j < before.len() implies (
                    #[trigger] before[j]).window != window by {
                        assert(!self.at(window, j));
                    }
                    assert forall|j: int| 0 <= j < handle_views(before).len() implies (
                    #[trigger] handle_views(before)[j]).window != window by {
                        assert(before[j].window != window);
                    }
                }
                self.windows.push(
                    WindowHandles { window, handles: copy_vec(created), last_outputs: outputs },
                );
                assert(handle_views(self.windows@) =~= announced(
                    handle_views(before),
                    window,
                    created@,
                    outputs@,
                ));
            },
        }
    }

    /// A handle is gone. A window without handles is dropped.
    pub fn handle_destroyed(&mut self, window: u64, handle: u64)
        requires
            old(self).wf(),
        ensures
            final(self).wf(),
            final(self).managers == old(self).managers,
            (forall|i: int| !old(self).at(window, i)) ==> final(self).windows@
                == old(self).windows@,
            forall|i: int| #[trigger] old(self).at(window, i) ==> {
                let left = old(self).windows@[i].handles@.filter(|h: u64| h != handle);
                if left.len() == 0 {
                    final(self).windows@ == old(self).windows@.remove(i)
                } else {
                    &&& final(self).windows@.len() == old(self).windows@.len()
                    &&& final(self).windows@[i].handles@ == left
                    &&& final(self).windows@[i].window == window
                    &&& final(self).windows@[i].last_outputs
                        == old(self).windows@[i].last_outputs
                    &&& forall|j: int|
                        0 <= j < old(self).windows@.len() && j != i ==> #[trigger] final(self).windows@[j] == old(self).windows@[j]
                }
            },
    {
        let ghost before = self.windows@;
        match self.find(window) {
            Some(i) => {
                proof {
                    assert forall|j: int| #[trigger] old(self).at(window, j) implies j == i by {
                        if j < i {
                            assert(before[j].window != before[i as int].window);
                        }
                        if (i as int) < j {
                            assert(before[i as int].window != before[j].window);
                        }
                    }
                }
                let e = &mut self.windows[i];
                let keep = |h: &u64| -> (b: bool)
                    ensures
                        b == (*h != handle),
                    { *h != handle };
                retain(&mut e.handles, keep, Ghost(|h: u64| h != handle));
                let empty = e.handles.len() == 0;
                proof {
                    assert forall|a: int, b: int| 0 <= a < b < self.windows@.len() implies (
                    #[trigger] self.windows@[a]).window != (#[trigger] self.windows@[b]).window by {
                        assert(before[a].window != before[b].window);
                    }
                }
                if empty {
                    let ghost mid = self.windows@;
                    self.windows.remove(i);
                    proof {
                        assert(self.windows@ =~= before.remove(i as int));
                        assert forall|a: int, b: int| 0 <= a < b < self.windows@.len() implies (
                        #[trigger] self.windows@[a]).window != (
                        #[trigger] self.windows@[b]).window by {
                            let oa = if a < i {
                                a
                            } else {
                                a + 1
                            };
                            let ob = if b < i {
                                b
                            } else {
                                b + 1
                            };
                            assert(before[oa].window != before[ob].window);
                        }
                    }
                }
            },
            None => {},
        }
    }

    /// A window is closed. The result lists its handles, which are to be told
    /// where they are still there.
    pub fn close_toplevel(&mut self, window: u64) -> (r: Vec<u64>)
        requires
            old(self).wf(),
        ensures
            final(self).wf(),
            final(self).managers == old(self).managers,
            (forall|i: int| !old(self).at(window, i)) ==> r@.len() == 0 && final(self).windows@
                == old(self).windows@,
            forall|i: int| #[trigger] old(self).at(window, i) ==> r@
                == old(self).windows@[i].handles@ && final(self).windows@
                == old(self).windows@.remove(i),
    {
        let ghost before = self.windows@;
        match self.find(window) {
            Some(i) => {
                let e = self.windows.remove(i);
                proof {
                    assert forall|j: int| #[trigger] old(self).at(window, j) implies j == i by {
                        if j < i {
                            assert(before[j].window != before[i as int].window);
                        }
                        if (i as int) < j {
                            assert(before[i as int].window != before[j].window);
                        }
                    }
                    assert forall|a: int, b: int| 0 <= a < b < self.windows@.len() implies (
                    #[trigger] self.windows@[a]).window != (#[trigger] self.windows@[b]).window by {
                        let oa = if a < i {
                            a
                        } else {
                            a + 1
                        };
                        let ob = if b < i {
                            b
                        } else {
                            b + 1
                        };
                        assert(before[oa].window != before[ob].window);
                    }
                }
                e.handles
            },
            None => Vec::new(),
        }
    }

    /// A manager is gone, or its client has stopped it.
    pub fn forget_manager(&mut self, manager: u64)
        ensures
            final(self).windows == old(self).windows,
            final(self).managers@ == old(self).managers@.filter(|m: u64| m != manager),
    {
        let keep = |m: &u64| -> (b: bool)
            ensures
                b == (*m != manager),
            { *m != manager };
        retain(&mut self.managers, keep, Ghost(|m: u64| m != manager));
    }
}

/// The windows after handles of one were announced: they stand behind those that
/// it had.
pub open spec fn announced(
    before: Seq<HandlesView>,
    window: u64,
    created: Seq<u64>,
    outputs: Seq<u64>,
) -> Seq<HandlesView> {
    if created.len() == 0 {
        before
    } else if exists|i: int| 0 <= i < before.len() && (#[trigger] before[i]).window == window {
        before.map_values(
            |v: HandlesView|
                if v.window == window {
                    HandlesView {
                        window,
                        handles: v.handles + created,
                        last_outputs: outputs,
                    }
                } else {
                    v
                },
        )
    } else {
        before.push(HandlesView { window, handles: created, last_outputs: outputs })
    }
}

/// The windows after one handle of each of some windows was announced.
pub open spec fn announced_each(
    before: Seq<HandlesView>,
    space: crate::layout::Space,
    created: Seq<(u64, u64)>,
) -> Seq<HandlesView>
    decreases created.len(),
{
    if created.len() == 0 {
        before
    } else {
        announced(
            announced_each(before, space, created.drop_last()),
            created.last().0,
            seq![created.last().1],
            outputs_of(space, created.last().0),
        )
    }
}

/// What a handle can ask for.
#[derive(Clone, Copy, Debug, PartialEq, Eq, Structural)]
pub enum HandleRequest {
    Destroy,
    Activate,
    Close,
    SetMinimized,
    UnsetMinimized,
    SetMaximized,
    UnsetMaximized,
    SetRectangle { width: i32, height: i32 },
    Other,
}

/// What is done for a handle.
#[derive(Clone, Copy, Debug, PartialEq, Eq, Structural)]
pub enum HandlePlan {
    Nothing,
    Activate,
    Close,
    Minimize,
    Unminimize,
    /// The layout was toggled; the handles are told afterwards.
    Apply(Option<GeometryChange>),
    /// The client is told of its mistake.
    InvalidRectangle,
}

/// What a request does, given the window's layout. Maximizing toggles, so it is
/// done only where it changes something.
pub open spec fn handle_toggles(request: HandleRequest, layout: LayoutState) -> bool {
    ||| request == HandleRequest::SetMaximized && layout != LayoutState::Maximized
    ||| request == HandleRequest::UnsetMaximized && layout == LayoutState::Maximized
}

impl ShoestringWm {
    /// The managers that a new window is announced to.
    pub fn managers_to_tell(&self, alive: &Vec<u64>) -> (r: Vec<u64>)
        ensures
            r@ == self.foreign_toplevel_mgmt.managers@.filter(|m: u64| alive@.contains(m)),
    {
        let mut r = copy_vec(&self.foreign_toplevel_mgmt.managers);
        let keep = |m: &u64| -> (b: bool)
            ensures
                b == alive@.contains(*m),
            { contains_id(alive, *m) };
        retain(&mut r, keep, Ghost(|m: u64| alive@.contains(m)));
        r
    }

    /// A window was announced with these handles.
    pub fn announce_to_all_managers(&mut self, window: u64, created: &Vec<u64>)
        requires
            old(self).foreign_toplevel_mgmt.wf(),
        ensures
            final(self).foreign_toplevel_mgmt.wf(),
            final(self).only_toplevels_differ(*old(self)),
            handle_views(final(self).foreign_toplevel_mgmt.windows@) == announced(
                handle_views(old(self).foreign_toplevel_mgmt.windows@),
                window,
                created@,
                outputs_of(old(self).desktop.space, window),
            ),
    {
        let outputs = outputs_for(&self.desktop.space, window);
        self.foreign_toplevel_mgmt.announce(window, created, outputs);
    }

    /// The windows that there are were announced to a new manager, each with one
    /// handle.
    pub fn announce_existing_to_manager(&mut self, created: &Vec<(u64, u64)>)
        requires
            old(self).foreign_toplevel_mgmt.wf(),
        ensures
            final(self).foreign_toplevel_mgmt.wf(),
            final(self).only_toplevels_differ(*old(self)),
            handle_views(final(self).foreign_toplevel_mgmt.windows@) == announced_each(
                handle_views(old(self).foreign_toplevel_mgmt.windows@),
                old(self).desktop.space,
                created@,
            ),
    {
        let mut i: usize = 0;
        let ghost before = handle_views(self.foreign_toplevel_mgmt.windows@);
        while i < created.len()
            invariant
                i <= created@.len(),
                self.foreign_toplevel_mgmt.wf(),
                self.only_toplevels_differ(*old(self)),
                before == handle_views(old(self).foreign_toplevel_mgmt.windows@),
                handle_views(self.foreign_toplevel_mgmt.windows@) == announced_each(
                    before,
                    old(self).desktop.space,
                    created@.take(i as int),
                ),
            decreases created@.len() - i,
        {
            assert(created@.take(i + 1).drop_last() =~= created@.take(i as int));
            let mut one: Vec<u64> = Vec::new();
            one.push(created[i].1);
            assert(one@ =~= seq![created@[i as int].1]);
            self.announce_to_all_managers(created[i].0, &one);
            i += 1;
        }
        assert(created@.take(i as int) =~= created@);
    }

    /// Whether nothing else than the windows' handles differs.
    pub open spec fn only_toplevels_differ(self, before: ShoestringWm) -> bool {
        &&& self == (ShoestringWm {
            foreign_toplevel_mgmt: self.foreign_toplevel_mgmt,
            ..before
        })
        &&& self.foreign_toplevel_mgmt.managers == before.foreign_toplevel_mgmt.managers
    }

    /// What a window is now: the outputs that show it, and its state. A handle
    /// that is new is told all of it.
    pub fn window_info(&self, window: u64) -> (r: WlrInfo)
        ensures
            r.outputs@ == outputs_of(self.desktop.space, window),
            tells_state(self.desktop, window, r.state_bytes@),
    {
        let outputs = outputs_for(&self.desktop.space, window);
        let maximized = self.desktop.layout.layout_state(window) == LayoutState::Maximized;
        let minimized = self.desktop.layout.is_minimized(window);
        let activated = match self.desktop.focused {
            Some(f) => f.id == window,
            None => false,
        };
        let state_bytes = state_array_bytes(maximized, minimized, activated);
        WlrInfo { outputs, state_bytes }
    }

    /// What the handles of the window at `i` are told. The outputs are noted, so
    /// that the next time only changes are told.
    fn sync_at(&mut self, i: usize) -> (r: SyncPlan)
        requires
            old(self).foreign_toplevel_mgmt.wf(),
            i < old(self).foreign_toplevel_mgmt.windows@.len(),
        ensures
            final(self).foreign_toplevel_mgmt.wf(),
            final(self).only_toplevels_differ(*old(self)),
            sync_told(
                old(self).desktop,
                handle_views(old(self).foreign_toplevel_mgmt.windows@)[i as int],
                r,
            ),
            handle_views(final(self).foreign_toplevel_mgmt.windows@) == handle_views(
                old(self).foreign_toplevel_mgmt.windows@,
            ).update(
                i as int,
                synced(
                    old(self).desktop.space,
                    handle_views(old(self).foreign_toplevel_mgmt.windows@)[i as int],
                ),
            ),
    {
        let ghost before = self.foreign_toplevel_mgmt.windows@;
        let window = self.foreign_toplevel_mgmt.windows[i].window;
        let info = self.window_info(window);
        let outputs = info.outputs;
        let leave = difference(&self.foreign_toplevel_mgmt.windows[i].last_outputs, &outputs);
        let enter = difference(&outputs, &self.foreign_toplevel_mgmt.windows[i].last_outputs);
        let handles = copy_vec(&self.foreign_toplevel_mgmt.windows[i].handles);
        let e = &mut self.foreign_toplevel_mgmt.windows[i];
        e.last_outputs = outputs;
        proof {
            let after = self.foreign_toplevel_mgmt.windows@;
            assert forall|a: int, b: int| 0 <= a < b < after.len() implies (
            #[trigger] after[a]).window != (#[trigger] after[b]).window by {
                assert(before[a].window != before[b].window);
            }
            assert(before[i as int].handles@.len() > 0);
            assert(handle_views(after) =~= handle_views(before).update(
                i as int,
                synced(self.desktop.space, handle_views(before)[i as int]),
            ));
        }
        SyncPlan { handles, leave, enter, state: info.state_bytes }
    }

    /// What a window's handles are told now; none where it has no handles.
    pub fn sync_wlr_toplevel(&mut self, window: u64) -> (r: Option<SyncPlan>)
        requires
            old(self).foreign_toplevel_mgmt.wf(),
        ensures
            final(self).foreign_toplevel_mgmt.wf(),
            final(self).only_toplevels_differ(*old(self)),
            match r {
                Some(p) => exists|i: int| #[trigger]
                    old(self).foreign_toplevel_mgmt.at(window, i) && sync_told(
                        old(self).desktop,
                        handle_views(old(self).foreign_toplevel_mgmt.windows@)[i],
                        p,
                    ) && handle_views(final(self).foreign_toplevel_mgmt.windows@)
                        == handle_views(old(self).foreign_toplevel_mgmt.windows@).update(
                        i,
                        synced(
                            old(self).desktop.space,
                            handle_views(old(self).foreign_toplevel_mgmt.windows@)[i],
                        ),
                    ),
                None => {
                    &&& *final(self) == *old(self)
                    &&& forall|i: int| !old(self).foreign_toplevel_mgmt.at(window, i)
                },
            },
    {
        match self.foreign_toplevel_mgmt.find(window) {
            Some(i) => {
                assert(old(self).foreign_toplevel_mgmt.at(window, i as int));
                Some(self.sync_at(i))
            },
            None => None,
        }
    }

    /// What the handles of each window are told now, in the order of the windows.
    pub fn broadcast_all(&mut self) -> (r: Vec<SyncPlan>)
        requires
            old(self).foreign_toplevel_mgmt.wf(),
        ensures
            final(self).foreign_toplevel_mgmt.wf(),
            final(self).only_toplevels_differ(*old(self)),
            r@.len() == old(self).foreign_toplevel_mgmt.windows@.len(),
            forall|i: int|
                0 <= i < r@.len() ==> sync_told(
                    old(self).desktop,
                    handle_views(old(self).foreign_toplevel_mgmt.windows@)[i],
                    #[trigger] r@[i],
                ),
            handle_views(final(self).foreign_toplevel_mgmt.windows@) == handle_views(
                old(self).foreign_toplevel_mgmt.windows@,
            ).map_values(|v: HandlesView| synced(old(self).desktop.space, v)),
    {
        let ghost before = handle_views(self.foreign_toplevel_mgmt.windows@);
        let ghost space = self.desktop.space;
        let ghost done = before.map_values(|v: HandlesView| synced(space, v));
        let mut r: Vec<SyncPlan> = Vec::new();
        let mut i: usize = 0;
        assert(before =~= done.take(0) + before.skip(0));
        while i < self.foreign_toplevel_mgmt.windows.len()
            invariant
                i <= before.len(),
                self.foreign_toplevel_mgmt.wf(),
                self.only_toplevels_differ(*old(self)),
                before == handle_views(old(self).foreign_toplevel_mgmt.windows@),
                space == old(self).desktop.space,
                done == before.map_values(|v: HandlesView| synced(space, v)),
                handle_views(self.foreign_toplevel_mgmt.windows@) == done.take(i as int)
                    + before.skip(i as int),
                self.foreign_toplevel_mgmt.windows@.len() == before.len(),
                r@.len() == i,
                forall|j: int|
                    0 <= j < i ==> sync_told(old(self).desktop, before[j], #[trigger] r@[j]),
            decreases before.len() - i,
        {
            let ghost now = handle_views(self.foreign_toplevel_mgmt.windows@);
            assert(now[i as int] == before.skip(i as int)[0]);
            let p = self.sync_at(i);
            r.push(p);
            assert(now.update(i as int, synced(space, before[i as int])) =~= done.take(i + 1)
                + before.skip(i + 1));
            assert(handle_views(self.foreign_toplevel_mgmt.windows@).len() == before.len());
            i += 1;
        }
        assert(done.take(i as int) + before.skip(i as int) =~= done);
        r
    }

    /// What is done for a handle of a window; `alive` tells whether the window is
    /// still there. The layout is toggled here, the rest is left to the caller.
    pub fn handle_request(&mut self, window: Window, alive: bool, request: HandleRequest) -> (r:
        HandlePlan)
        requires
            old(self).desktop.space.fits(),
        ensures
            ({
                let layout = old(self).desktop.layout.meta_of(window.id).layout;
                if !alive || request == HandleRequest::Destroy {
                    r == HandlePlan::Nothing && *final(self) == *old(self)
                } else if handle_toggles(request, layout) {
                    &&& final(self).same_but_layout(*old(self))
                    &&& final(self).desktop.layout.minimized == old(self).desktop.layout.minimized
                    &&& r is Apply
                    &&& match layout::usable_of(old(self).desktop.space, window) {
                        Some(usable) => {
                            let t = layout::toggled(
                                old(self).desktop.layout.meta_of(window.id),
                                LayoutState::Maximized,
                                layout::rect_of(old(self).desktop.space, window),
                                usable,
                            );
                            &&& final(self).desktop.layout.meta@ == old(self).desktop.layout.meta@.insert(window.id, t.0)
                            &&& r->Apply_0 == Some(layout::change_to(window.id, t.1, t.2))
                        },
                        None => final(self).desktop.layout.meta@ == old(self).desktop.layout.meta@ && r->Apply_0 is None,
                    }
                } else {
                    &&& *final(self) == *old(self)
                    &&& r == (match request {
                        HandleRequest::Activate => HandlePlan::Activate,
                        HandleRequest::Close => HandlePlan::Close,
                        HandleRequest::SetMinimized => HandlePlan::Minimize,
                        HandleRequest::UnsetMinimized => HandlePlan::Unminimize,
                        HandleRequest::SetRectangle { width, height } => if width < 0 || height < 0 {
                            HandlePlan::InvalidRectangle
                        } else {
                            HandlePlan::Nothing
                        },
                        _ => HandlePlan::Nothing,
                    })
                }
            }),
    {
        if !alive {
            return HandlePlan::Nothing;
        }
        let maximized = self.desktop.layout.layout_state(window.id) == LayoutState::Maximized;
        let toggle = match request {
            HandleRequest::SetMaximized => !maximized,
            HandleRequest::UnsetMaximized => maximized,
            _ => false,
        };
        if toggle {
            return HandlePlan::Apply(
                layout::set_layout(
                    &self.desktop.space,
                    &mut self.desktop.layout,
                    window,
                    LayoutState::Maximized,
                ),
            );
        }
        match request {
            HandleRequest::Activate => HandlePlan::Activate,
            HandleRequest::Close => HandlePlan::Close,
            HandleRequest::SetMinimized => HandlePlan::Minimize,
            HandleRequest::UnsetMinimized => HandlePlan::Unminimize,
            HandleRequest::SetRectangle { width, height } => if width < 0 || height < 0 {
                HandlePlan::InvalidRectangle
            } else {
                HandlePlan::Nothing
            },
            _ => HandlePlan::Nothing,
        }
    }
}

/// Whether a plan is what a window's handles are told.
pub open spec fn sync_told(d: crate::desktop::Desktop, w: HandlesView, p: SyncPlan) -> bool {
    let outputs = outputs_of(d.space, w.window);
    &&& p.handles@ == w.handles
    &&& p.leave@ == missing(w.last_outputs, outputs)
    &&& p.enter@ == missing(outputs, w.last_outputs)
    &&& tells_state(d, w.window, p.state@)
}

/// A window once its handles were told.
pub open spec fn synced(space: crate::layout::Space, w: HandlesView) -> HandlesView {
    HandlesView { last_outputs: outputs_of(space, w.window), ..w }
}

/// What a handle is told to leave it was told to have entered, what it is told
/// to enter it was not, and afterwards it knows exactly the outputs that show
/// the window.
pub proof fn law_outputs_told(known: Seq<u64>, now: Seq<u64>, x: u64)
    ensures
        missing(known, now).contains(x) ==> known.contains(x) && !now.contains(x),
        missing(now, known).contains(x) ==> now.contains(x) && !known.contains(x),
        now.contains(x) <==> (known.contains(x) && !missing(known, now).contains(x)) || missing(
            now,
            known,
        ).contains(x),
{
    crate::seqs::lemma_filter_in(known, |y: u64| !now.contains(y), x);
    crate::seqs::lemma_filter_in(now, |y: u64| !known.contains(y), x);
}

/// The state of a window is a list of codes, in ascending order: 0 where it is
/// maximized, 1 where it is minimized, 2 where it has the focus, and nothing else.
pub proof fn law_state_codes(maximized: bool, minimized: bool, activated: bool, little: bool)
    ensures
        ({
            let r = state_bytes(maximized, minimized, activated, little);
            let m: int = if maximized {
                4
            } else {
                0
            };
            let n: int = m + if minimized {
                4int
            } else {
                0
            };
            &&& maximized ==> r.subrange(0, 4) == crate::wire::bytes_of(0, little)
            &&& minimized ==> r.subrange(m, m + 4) == crate::wire::bytes_of(1, little)
            &&& activated ==> r.subrange(n, n + 4) == crate::wire::bytes_of(2, little)
            &&& r.len() == n + if activated {
                4int
            } else {
                0
            }
        }),
{
    let r = state_bytes(maximized, minimized, activated, little);
    let m: int = if maximized {
        4
    } else {
        0
    };
    let n: int = m + if minimized {
        4int
    } else {
        0
    };
    if maximized {
        assert(r.subrange(0, 4) =~= crate::wire::bytes_of(0, little));
    }
    if minimized {
        assert(r.subrange(m, m + 4) =~= crate::wire::bytes_of(1, little));
    }
    if activated {
        assert(r.subrange(n, n + 4) =~= crate::wire::bytes_of(2, little));
    }
}

/// The state that is told is that of the window: whether its layout is the maximized
/// one, whether it is minimized, and whether it has the focus.
pub proof fn law_state_is_of_the_window(
    d: crate::desktop::Desktop,
    window: u64,
    bytes: Seq<u8>,
    minimized: bool,
    focused: bool,
)
    requires
        tells_state(d, window, bytes),
        minimized <==> exists|i: int|
            0 <= i < d.layout.minimized@.len() && (#[trigger] d.layout.minimized@[i]).0 == window,
        focused <==> d.focused is Some && d.focused->0.id == window,
    ensures
        exists|little: bool|
            bytes == #[trigger] state_bytes(
                d.layout.meta_of(window).layout is Maximized,
                minimized,
                focused,
                little,
            ),
{
    assert(minimized == d.minimized(window));
    assert(focused == d.has_focus(window));
    let maximized = d.layout.meta_of(window).layout == LayoutState::Maximized;
    assert(is_state_array(maximized, minimized, focused, bytes));
    let little = choose|little: bool|
        bytes == #[trigger] state_bytes(maximized, minimized, focused, little);
    assert(bytes == state_bytes(
        d.layout.meta_of(window).layout is Maximized,
        minimized,
        focused,
        little,
    ));
}

/// The outputs that show a window are those of its place in the space; a window
/// without a place is shown by none.
pub proof fn law_outputs_of_the_window(space: crate::layout::Space, id: u64, i: int)
    ensures
        0 <= i < space.elements@.len() && space.elements@[i].window.id == id && (forall|j: int|
            0 <= j < i ==> (#[trigger] space.elements@[j]).window.id != id) ==> outputs_of(
            space,
            id,
        ) == space.elements@[i].outputs@,
        (forall|j: int|
            0 <= j < space.elements@.len() ==> (#[trigger] space.elements@[j]).window.id != id)
            ==> outputs_of(space, id).len() == 0,
{
    if 0 <= i < space.elements@.len() && space.elements@[i].window.id == id && (forall|j: int|
        0 <= j < i ==> (#[trigger] space.elements@[j]).window.id != id) {
        assert(space.placed_at(id, i));
        let k = choose|k: int| space.placed_at(id, k);
        assert(space.placed_at(id, k));
        if k < i {
            assert(space.elements@[k].window.id != id);
        }
        if i < k {
            assert(space.elements@[i].window.id != id);
        }
    }
}

/// Handles that are announced come behind those that their window has, which is then
/// told of its outputs; no other window changes, and without handles nothing does.
pub proof fn law_announced_to_one(
    before: Seq<HandlesView>,
    window: u64,
    created: Seq<u64>,
    outputs: Seq<u64>,
    i: int,
)
    requires
        0 <= i < before.len(),
    ensures
        ({
            let after = announced(before, window, created, outputs);
            &&& before[i].window != window || created.len() == 0 ==> after[i] == before[i]
            &&& before[i].window == window && created.len() > 0 ==> after[i] == (HandlesView {
                window,
                handles: before[i].handles + created,
                last_outputs: outputs,
            })
            &&& created.len() == 0 ==> after == before
            &&& created.len() > 0 && (forall|j: int|
                0 <= j < before.len() ==> (#[trigger] before[j]).window != window) ==> after.len()
                == before.len() + 1 && after.last() == (HandlesView {
                window,
                handles: created,
                last_outputs: outputs,
            })
            &&& before[i].window == window ==> after.len() == before.len()
        }),
{
    if before[i].window == window {
        assert(exists|j: int| 0 <= j < before.len() && (#[trigger] before[j]).window == window);
    }
}

/// The windows that a new manager learns of are announced one by one, each with its
/// own handle and the outputs that show it.
pub proof fn law_announced_one_by_one(
    before: Seq<HandlesView>,
    space: crate::layout::Space,
    created: Seq<(u64, u64)>,
    window: u64,
    handle: u64,
)
    ensures
        announced_each(before, space, Seq::empty()) == before,
        announced_each(before, space, created.push((window, handle))) == announced(
            announced_each(before, space, created),
            window,
            seq![handle],
            outputs_of(space, window),
        ),
{
    assert(created.push((window, handle)).drop_last() =~= created);
}

/// A window's own handles are told: to leave what they knew and the window is not
/// shown by any more, and to enter what they did not know. Afterwards they know what
/// shows the window.
pub proof fn law_sync_told(d: crate::desktop::Desktop, w: HandlesView, p: SyncPlan, x: u64)
    requires
        sync_told(d, w, p),
    ensures
        p.handles@ == w.handles,
        p.leave@.contains(x) <==> w.last_outputs.contains(x) && !outputs_of(
            d.space,
            w.window,
        ).contains(x),
        p.enter@.contains(x) <==> outputs_of(d.space, w.window).contains(x)
            && !w.last_outputs.contains(x),
        synced(d.space, w).last_outputs == outputs_of(d.space, w.window),
        synced(d.space, w).window == w.window && synced(d.space, w).handles == w.handles,
{
    let now = outputs_of(d.space, w.window);
    crate::seqs::lemma_filter_in(w.last_outputs, |y: u64| !now.contains(y), x);
    crate::seqs::lemma_filter_in(now, |y: u64| !w.last_outputs.contains(y), x);
}

/// To maximize a window that is not, and to unmaximize one that is, toggles it; no
/// other request does.
pub proof fn law_what_toggles(request: HandleRequest, layout: LayoutState)
    ensures
        handle_toggles(request, layout) <==> request is SetMaximized && !(layout is Maximized)
            || request is UnsetMaximized && layout is Maximized,
{
}

/// Telling taskbars changes what is noted of the windows' handles, and neither the
/// managers nor anything of the desktop.
pub proof fn law_telling_changes_notes_alone(before: ShoestringWm, after: ShoestringWm)
    requires
        after.only_toplevels_differ(before),
    ensures
        after.foreign_toplevel_mgmt.managers == before.foreign_toplevel_mgmt.managers,
        after.desktop == before.desktop,
        after.config == before.config && after.ipc == before.ipc,
        after.foreign_toplevel_mgmt == before.foreign_toplevel_mgmt ==> after == before,
{
}

/// A window is listed once, and only while it has a handle.
pub proof fn law_listed_while_it_has_handles(s: ForeignToplevelMgmtState, i: int, j: int)
    requires
        s.wf(),
        0 <= i < s.windows@.len(),
        0 <= j < s.windows@.len(),
    ensures
        s.windows@[i].handles@.len() > 0,
        s.windows@[i].window == s.windows@[j].window ==> i == j,
{
}

} // verus!
