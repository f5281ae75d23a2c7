//! Workspaces for bars: one group for all outputs and one handle per workspace,
//! for every client that binds the manager.

use vstd::prelude::*;

use crate::layout::contains_id;
use crate::seqs::pick_map;
use crate::seqs::retain;
use crate::state::ShoestringWm;
use crate::text::decimal_string;
use crate::wire::lowest_first;
use crate::wire::push_u32;

verus! {

/// A handle, with its workspace, counted from zero.
#[derive(Clone, Copy, Debug, PartialEq, Eq, Structural)]
pub struct WorkspaceHandle {
    pub index: u8,
    pub handle: u64,
}

/// One client's view of the workspaces.
#[derive(Debug)]
pub struct ExtWorkspaceInstance {
    pub manager: u64,
    pub group: u64,
    /// The handles, in the order of the workspaces. A workspace whose handle
    /// could not be made has none.
    pub workspaces: Vec<WorkspaceHandle>,
    /// The workspace that the client has asked for since its last commit,
    /// counted from one.
    pub pending_activate: Option<u8>,
}

/// Every client's view.
#[derive(Debug)]
pub struct ExtWorkspaceState {
    pub instances: Vec<ExtWorkspaceInstance>,
}

/// Attached to each manager.
#[derive(Clone, Copy, Debug)]
pub struct ExtWorkspaceManagerData;

/// Attached to each group.
#[derive(Clone, Copy, Debug)]
pub struct ExtWorkspaceGroupData;

/// Attached to each handle: its workspace, counted from zero.
#[derive(Clone, Copy, Debug)]
pub struct ExtWorkspaceHandleData {
    pub index: u8,
}

/// The coordinates of a workspace in a row: its index as one 32-bit number in
/// the byte order of the machine.
pub fn coordinates_bytes(index: u8) -> (r: Vec<u8>)
    ensures
        exists|little: bool| r@ == #[trigger] crate::wire::bytes_of(index as u32, little),
{
    let mut v: Vec<u8> = Vec::new();
    let little = lowest_first();
    push_u32(&mut v, index as u32, little);
    assert(v@ =~= crate::wire::bytes_of(index as u32, little));
    v
}

/// Whether the workspace at `ws_index`, counted from zero, is the active one.
/// `active` is counted from one.
pub fn handle_state(ws_index: u8, active: u8) -> (r: bool)
    ensures
        r == (ws_index + 1 == active),
{
    active >= 1 && ws_index == active - 1
}

/// The name of the workspace at `index`: the configured one, or its number
/// counted from one.
pub open spec fn name_at(names: Seq<String>, index: int) -> Seq<char> {
    if index < names.len() && names[index]@.len() > 0 {
        names[index]@
    } else {
        crate::text::decimal((index + 1) as nat)
    }
}

/// The name of the workspace at `index`, counted from zero: the configured one
/// where it is not empty, else its number counted from one.
pub fn workspace_name(names: &Vec<String>, index: u8) -> (r: String)
    ensures
        r@ == name_at(names@, index as int),
{
    let i: usize = index as usize;
    if i < names.len() {
        if !names[i].as_str().is_empty() {
            return names[i].clone();
        }
    }
    decimal_string(index as u64 + 1)
}

/// What a client is told of a workspace at first.
#[derive(Debug)]
pub struct Announcement {
    pub handle: u64,
    pub id: String,
    pub name: String,
    pub coordinates: Vec<u8>,
    pub active: bool,
}

/// Whether an announcement is that of the workspace at `index`.
pub open spec fn announces(wm: ShoestringWm, index: int, handle: u64, a: Announcement) -> bool {
    &&& a.handle == handle
    &&& a.id@ == crate::text::decimal((index + 1) as nat)
    &&& a.name@ == name_at(wm.desktop.workspaces.names@, index)
    &&& exists|little: bool|
        a.coordinates@ == #[trigger] crate::wire::bytes_of(index as u32, little)
    &&& a.active == (index + 1 == wm.desktop.workspaces.active)
}

/// The places of the handles that could be made.
pub open spec fn made(handles: Seq<Option<u64>>) -> Seq<int>
    decreases handles.len(),
{
    if handles.len() == 0 {
        Seq::empty()
    } else {
        let before = made(handles.drop_last());
        if handles.last() is Some {
            before.push(handles.len() - 1)
        } else {
            before
        }
    }
}

/// Whether announcements and handles are those at the places.
pub open spec fn announced(
    wm: ShoestringWm,
    handles: Seq<Option<u64>>,
    places: Seq<int>,
    out: Seq<Announcement>,
    kept: Seq<WorkspaceHandle>,
) -> bool {
    &&& out.len() == places.len()
    &&& kept.len() == places.len()
    &&& forall|i: int|
        0 <= i < places.len() ==> #[trigger] announced_at(wm, handles, places[i], out[i], kept[i])
}

/// Whether an announcement and a handle are those at the place.
pub open spec fn announced_at(
    wm: ShoestringWm,
    handles: Seq<Option<u64>>,
    place: int,
    a: Announcement,
    kept: WorkspaceHandle,
) -> bool {
    &&& 0 <= place < handles.len()
    &&& handles[place] == Some(kept.handle)
    &&& kept.index == place
    &&& announces(wm, place, kept.handle, a)
}

/// Whether handles come in the order of their workspaces, each workspace once.
pub open spec fn in_order(handles: Seq<WorkspaceHandle>) -> bool {
    forall|i: int, j: int|
        0 <= i < j < handles.len() ==> (#[trigger] handles[i]).index < (
        #[trigger] handles[j]).index
}

/// A message to clients about the workspaces.
#[derive(Clone, Copy, Debug, PartialEq, Eq, Structural)]
pub enum WorkspaceMsg {
    State { handle: u64, active: bool },
    Done { manager: u64 },
}

/// The state of each living handle, which is that of its workspace, in order.
pub open spec fn state_messages(
    handles: Seq<WorkspaceHandle>,
    active: u8,
    alive: Seq<u64>,
) -> Seq<WorkspaceMsg>
    decreases handles.len(),
{
    if handles.len() == 0 {
        Seq::empty()
    } else {
        let h = handles.last();
        let before = state_messages(handles.drop_last(), active, alive);
        if alive.contains(h.handle) {
            before.push(WorkspaceMsg::State { handle: h.handle, active: h.index + 1 == active })
        } else {
            before
        }
    }
}

/// What every client with a living manager is told when the active workspace
/// has changed.
pub open spec fn active_messages(
    instances: Seq<ExtWorkspaceInstance>,
    active: u8,
    alive: Seq<u64>,
) -> Seq<WorkspaceMsg>
    decreases instances.len(),
{
    if instances.len() == 0 {
        Seq::empty()
    } else {
        let i = instances.last();
        let before = active_messages(instances.drop_last(), active, alive);
        if alive.contains(i.manager) {
            before + state_messages(i.workspaces@, active, alive) + seq![
                WorkspaceMsg::Done { manager: i.manager },
            ]
        } else {
            before
        }
    }
}

/// The messages about the active workspace, for every client. `alive` lists the
/// objects that are still there.
pub fn broadcast_active(state: &ShoestringWm, alive: &Vec<u64>) -> (r: Vec<WorkspaceMsg>)
    ensures
        r@ == active_messages(
            state.ext_workspace.instances@,
            state.desktop.workspaces.active,
            alive@,
        ),
{
    let ghost all = state.ext_workspace.instances@;
    let active = state.desktop.workspaces.active;
    let mut r: Vec<WorkspaceMsg> = Vec::new();
    let mut i: usize = 0;
    while i < state.ext_workspace.instances.len()
        invariant
            i <= all.len(),
            all == state.ext_workspace.instances@,
            r@ == active_messages(all.take(i as int), active, alive@),
        decreases all.len() - i,
    {
        let inst = &state.ext_workspace.instances[i];
        let ghost before = r@;
        proof {
            assert(all.take(i + 1).drop_last() =~= all.take(i as int));
            assert(all.take(i + 1).last() == *inst);
        }
        if crate::layout::contains_id(alive, inst.manager) {
            let ghost hs = inst.workspaces@;
            let mut k: usize = 0;
            assert(r@ =~= before + state_messages(hs.take(0), active, alive@));
            while k < inst.workspaces.len()
                invariant
                    k <= hs.len(),
                    hs == inst.workspaces@,
                    r@ == before + state_messages(hs.take(k as int), active, alive@),
                decreases hs.len() - k,
            {
                proof {
                    assert(hs.take(k + 1).drop_last() =~= hs.take(k as int));
                    assert(hs.take(k + 1).last() == hs[k as int]);
                }
                let h = inst.workspaces[k];
                if crate::layout::contains_id(alive, h.handle) {
                    let flag = handle_state(h.index, active);
                    r.push(WorkspaceMsg::State { handle: h.handle, active: flag });
                    assert(r@ =~= before + state_messages(hs.take(k + 1), active, alive@));
                }
                k += 1;
            }
            assert(hs.take(k as int) =~= hs);
            r.push(WorkspaceMsg::Done { manager: inst.manager });
            assert(r@ =~= before + state_messages(hs, active, alive@) + seq![
                WorkspaceMsg::Done { manager: inst.manager },
            ]);
        }
        i += 1;
    }
    assert(all.take(i as int) =~= all);
    r
}

/// Whether a client with the handle is told: its view has the handle.
pub open spec fn has_handle(i: ExtWorkspaceInstance, handle: u64) -> bool {
    exists|k: int| 0 <= k < i.workspaces@.len() && (#[trigger] i.workspaces@[k]).handle == handle
}

fn holds_handle(i: &ExtWorkspaceInstance, handle: u64) -> (r: bool)
    ensures
        r == has_handle(*i, handle),
{
    let mut k: usize = 0;
    while k < i.workspaces.len()
        invariant
            k <= i.workspaces@.len(),
            forall|j: int| 0 <= j < k ==> (#[trigger] i.workspaces@[j]).handle != handle,
        decreases i.workspaces@.len() - k,
    {
        if i.workspaces[k].handle == handle {
            return true;
        }
        k += 1;
    }
    false
}

/// Whether the view at `k` is the first with the handle.
pub open spec fn first_with(instances: Seq<ExtWorkspaceInstance>, handle: u64, k: int) -> bool {
    &&& 0 <= k < instances.len()
    &&& has_handle(instances[k], handle)
    &&& forall|j: int| 0 <= j < k ==> !has_handle(#[trigger] instances[j], handle)
}

/// Whether the view at `k` is the first of the manager.
pub open spec fn first_of(instances: Seq<ExtWorkspaceInstance>, manager: u64, k: int) -> bool {
    &&& 0 <= k < instances.len()
    &&& instances[k].manager == manager
    &&& forall|j: int| 0 <= j < k ==> (#[trigger] instances[j]).manager != manager
}

impl ShoestringWm {
    /// A client has bound the manager. `handles` holds, for each workspace, the
    /// handle that was made for it, none where that failed. The result is what
    /// to tell the client, before it is told that this was all.
    pub fn announce_to_manager(
        &mut self,
        manager: u64,
        group: u64,
        handles: &Vec<Option<u64>>,
    ) -> (r: Vec<Announcement>)
        requires
            handles@.len() == old(self).desktop.workspaces.count,
        ensures
            *final(self) == (ShoestringWm {
                ext_workspace: final(self).ext_workspace,
                ..*old(self)
            }),
            final(self).ext_workspace.instances@.len() == old(self).ext_workspace.instances@.len() + 1,
            final(self).ext_workspace.instances@.drop_last()
                == old(self).ext_workspace.instances@,
            ({
                let i = final(self).ext_workspace.instances@.last();
                &&& i.manager == manager
                &&& i.group == group
                &&& i.pending_activate is None
                &&& announced(*old(self), handles@, made(handles@), r@, i.workspaces@)
                &&& in_order(i.workspaces@)
            }),
    {
        let ghost hs = handles@;
        let mut out: Vec<Announcement> = Vec::new();
        let mut kept: Vec<WorkspaceHandle> = Vec::new();
        let mut index: usize = 0;
        while index < handles.len()
            invariant
                index <= hs.len(),
                hs == handles@,
                hs.len() <= 255,
                *self == *old(self),
                announced(*self, hs, made(hs.take(index as int)), out@, kept@),
                in_order(kept@),
                forall|k: int| 0 <= k < kept@.len() ==> (#[trigger] kept@[k]).index < index,
            decreases hs.len() - index,
        {
            let ghost places = made(hs.take(index as int));
            proof {
                assert(hs.take(index + 1).drop_last() =~= hs.take(index as int));
                assert(hs.take(index + 1).last() == hs[index as int]);
            }
            if let Some(handle) = handles[index] {
                let ghost before_out = out@;
                let ghost before_kept = kept@;
                let ws: u8 = index as u8;
                let coordinates = coordinates_bytes(ws);
                let name = workspace_name(&self.desktop.workspaces.names, ws);
                let id = decimal_string(index as u64 + 1);
                let active = handle_state(ws, self.desktop.workspaces.active);
                let a = Announcement { handle, id, name, coordinates, active };
                let h = WorkspaceHandle { index: ws, handle };
                proof {
                    assert(announced_at(*self, hs, index as int, a, h));
                }
                out.push(a);
                kept.push(h);
                proof {
                    lemma_announced_push(
                        *self,
                        hs,
                        places,
                        before_out,
                        before_kept,
                        index as int,
                        a,
                        h,
                    );
                    assert(made(hs.take(index + 1)) == places.push(index as int));
                }
            } else {
                assert(made(hs.take(index + 1)) == places);
            }
            index += 1;
        }
        assert(hs.take(index as int) =~= hs);
        self.ext_workspace.instances.push(
            ExtWorkspaceInstance { manager, group, workspaces: kept, pending_activate: None },
        );
        assert(self.ext_workspace.instances@.drop_last() =~= old(self).ext_workspace.instances@);
        out
    }

    /// A client has asked, through one of its handles, for the workspace at
    /// `index`, counted from zero. It is gone to when the client commits. A
    /// workspace that there is none of is not asked for.
    pub fn workspace_activate(&mut self, handle: u64, index: u8)
        ensures
            *final(self) == (ShoestringWm {
                ext_workspace: final(self).ext_workspace,
                ..*old(self)
            }),
            final(self).ext_workspace.instances@.len() == old(self).ext_workspace.instances@.len(),
            forall|k: int|
                0 <= k < old(self).ext_workspace.instances@.len() ==> {
                    let before = old(self).ext_workspace.instances@[k];
                    #[trigger] final(self).ext_workspace.instances@[k] == (if index
                        < old(self).desktop.workspaces.count && first_with(
                        old(self).ext_workspace.instances@,
                        handle,
                        k,
                    ) {
                        ExtWorkspaceInstance {
                            pending_activate: Some((index + 1) as u8),
                            ..before
                        }
                    } else {
                        before
                    })
                },
    {
        if index >= self.desktop.workspaces.count {
            return ;
        }
        let target: u8 = index + 1;
        let ghost all = self.ext_workspace.instances@;
        let mut i: usize = 0;
        while i < self.ext_workspace.instances.len()
            invariant
                i <= all.len(),
                *self == *old(self),
                all == self.ext_workspace.instances@,
                target == index + 1,
                index < self.desktop.workspaces.count,
                forall|j: int| 0 <= j < i ==> !has_handle(#[trigger] all[j], handle),
            decreases all.len() - i,
        {
            if holds_handle(&self.ext_workspace.instances[i], handle) {
                let inst = &mut self.ext_workspace.instances[i];
                inst.pending_activate = Some(target);
                proof {
                    assert(first_with(all, handle, i as int));
                    assert forall|k: int| 0 <= k < all.len() && k != i implies !first_with(
                        all,
                        handle,
                        k,
                    ) by {
                        if k < i {
                            assert(!has_handle(all[k], handle));
                        } else {
                            assert(has_handle(all[i as int], handle));
                        }
                    }
                }
                return ;
            }
            i += 1;
        }
        assert(forall|k: int| !first_with(all, handle, k));
    }

    /// A client commits. The result is the workspace to go to, if it has asked
    /// for one since its last commit.
    pub fn workspace_commit(&mut self, manager: u64) -> (r: Option<u8>)
        ensures
            *final(self) == (ShoestringWm {
                ext_workspace: final(self).ext_workspace,
                ..*old(self)
            }),
            final(self).ext_workspace.instances@.len() == old(self).ext_workspace.instances@.len(),
            forall|k: int|
                0 <= k < old(self).ext_workspace.instances@.len() ==> {
                    let before = old(self).ext_workspace.instances@[k];
                    #[trigger] final(self).ext_workspace.instances@[k] == (if first_of(
                        old(self).ext_workspace.instances@,
                        manager,
                        k,
                    ) {
                        ExtWorkspaceInstance { pending_activate: None, ..before }
                    } else {
                        before
                    })
                },
            forall|k: int|
                #[trigger] first_of(old(self).ext_workspace.instances@, manager, k) ==> r
                    == old(self).ext_workspace.instances@[k].pending_activate,
            (forall|k: int| !first_of(old(self).ext_workspace.instances@, manager, k)) ==> r is None,
    {
        let ghost all = self.ext_workspace.instances@;
        let mut i: usize = 0;
        while i < self.ext_workspace.instances.len()
            invariant
                i <= all.len(),
                *self == *old(self),
                all == self.ext_workspace.instances@,
                forall|j: int| 0 <= j < i ==> (#[trigger] all[j]).manager != manager,
            decreases all.len() - i,
        {
            if self.ext_workspace.instances[i].manager == manager {
                let inst = &mut self.ext_workspace.instances[i];
                let r = inst.pending_activate;
                inst.pending_activate = None;
                proof {
                    assert(first_of(all, manager, i as int));
                    assert forall|k: int| k != i implies !first_of(all, manager, k) by {
                        if 0 <= k < i {
                            assert(all[k].manager != manager);
                        } else if first_of(all, manager, k) {
                            assert(all[i as int].manager != manager);
                        }
                    }
                }
                return r;
            }
            i += 1;
        }
        assert(forall|k: int| !first_of(all, manager, k));
        None
    }

    /// A manager is gone, or its client has stopped it.
    pub fn forget_manager(&mut self, manager: u64)
        ensures
            *final(self) == (ShoestringWm {
                ext_workspace: final(self).ext_workspace,
                ..*old(self)
            }),
            final(self).ext_workspace.instances@ == old(self).ext_workspace.instances@.filter(
                |i: ExtWorkspaceInstance| i.manager != manager,
            ),
    {
        let keep = |i: &ExtWorkspaceInstance| -> (b: bool)
            ensures
                b == (i.manager != manager),
            { i.manager != manager };
        retain(
            &mut self.ext_workspace.instances,
            keep,
            Ghost(|i: ExtWorkspaceInstance| i.manager != manager),
        );
    }
}

proof fn lemma_announced_push(
    wm: ShoestringWm,
    handles: Seq<Option<u64>>,
    places: Seq<int>,
    out: Seq<Announcement>,
    kept: Seq<WorkspaceHandle>,
    place: int,
    a: Announcement,
    h: WorkspaceHandle,
)
    requires
        announced(wm, handles, places, out, kept),
        announced_at(wm, handles, place, a, h),
    ensures
        announced(wm, handles, places.push(place), out.push(a), kept.push(h)),
{
    let ps = places.push(place);
    let os = out.push(a);
    let ks = kept.push(h);
    assert forall|i: int| 0 <= i < ps.len() implies #[trigger] announced_at(
        wm,
        handles,
        ps[i],
        os[i],
        ks[i],
    ) by {
        if i < places.len() {
            assert(announced_at(wm, handles, places[i], out[i], kept[i]));
        }
    }
}

proof fn lemma_message_of(handles: Seq<WorkspaceHandle>, active: u8, alive: Seq<u64>, i: int) -> (k:
    int)
    requires
        0 <= i < state_messages(handles, active, alive).len(),
    ensures
        0 <= k < handles.len(),
        alive.contains(handles[k].handle),
        state_messages(handles, active, alive)[i] == (WorkspaceMsg::State {
            handle: handles[k].handle,
            active: handles[k].index + 1 == active,
        }),
    decreases handles.len(),
{
    let before = state_messages(handles.drop_last(), active, alive);
    if i < before.len() {
        lemma_message_of(handles.drop_last(), active, alive, i)
    } else {
        handles.len() - 1
    }
}

/// Whichever handles could be made: each handle that is told a state is told that
/// of the workspace that it was made for.
pub proof fn law_state_of_own_workspace(
    wm: ShoestringWm,
    handles: Seq<Option<u64>>,
    out: Seq<Announcement>,
    kept: Seq<WorkspaceHandle>,
    active: u8,
    alive: Seq<u64>,
    i: int,
)
    requires
        announced(wm, handles, made(handles), out, kept),
        0 <= i < state_messages(kept, active, alive).len(),
    ensures
        exists|place: int|
            0 <= place < handles.len() && (#[trigger] handles[place]) is Some && state_messages(
                kept,
                active,
                alive,
            )[i] == (WorkspaceMsg::State {
                handle: handles[place]->0,
                active: place + 1 == active,
            }),
{
    let k = lemma_message_of(kept, active, alive, i);
    let place = made(handles)[k];
    assert(announced_at(wm, handles, place, out[k], kept[k]));
    assert(handles[place] is Some);
}

/// Of the handles of one client, at most one is told to be active.
pub proof fn law_one_active(
    handles: Seq<WorkspaceHandle>,
    active: u8,
    alive: Seq<u64>,
    i: int,
    j: int,
)
    requires
        in_order(handles),
        0 <= i < j < state_messages(handles, active, alive).len(),
    ensures
        ({
            let m = state_messages(handles, active, alive);
            !(m[i] matches WorkspaceMsg::State { handle: _, active: true }
                && m[j] matches WorkspaceMsg::State { handle: _, active: true })
        }),
    decreases handles.len(),
{
    let last = handles.last();
    let before = state_messages(handles.drop_last(), active, alive);
    if alive.contains(last.handle) && j == before.len() {
        let k = lemma_message_of(handles.drop_last(), active, alive, i);
        assert(handles[k].index < handles[handles.len() - 1].index);
    } else {
        law_one_active(handles.drop_last(), active, alive, i, j);
    }
}

/// A client that is told of an output: its manager and its group, and whether the
/// output has come.
#[derive(Clone, Copy, Debug, PartialEq, Eq, Structural)]
pub struct GroupTarget {
    pub manager: u64,
    pub group: u64,
    pub enter: bool,
}

/// Who is told of an output: the group is still there, and its manager is one of
/// those listed.
pub open spec fn group_target(
    groups: Seq<u64>,
    managers: Seq<u64>,
    enter: bool,
) -> spec_fn(ExtWorkspaceInstance) -> Option<GroupTarget> {
    |i: ExtWorkspaceInstance|
        if groups.contains(i.group) && managers.contains(i.manager) {
            Some(GroupTarget { manager: i.manager, group: i.group, enter })
        } else {
            None
        }
}

fn output_targets(state: &ShoestringWm, groups: &Vec<u64>, managers: &Vec<u64>, enter: bool) -> (r:
    Vec<GroupTarget>)
    ensures
        r@ == crate::seqs::picked(
            state.ext_workspace.instances@,
            group_target(groups@, managers@, enter),
        ),
{
    let pick = |i: &ExtWorkspaceInstance| -> (t: Option<GroupTarget>)
        ensures
            t == group_target(groups@, managers@, enter)(*i),
        {
            if contains_id(groups, i.group) && contains_id(managers, i.manager) {
                Some(GroupTarget { manager: i.manager, group: i.group, enter })
            } else {
                None
            }
        };
    pick_map(&state.ext_workspace.instances, pick, Ghost(group_target(groups@, managers@, enter)))
}

/// The clients that are told that an output has come: the group is in `groups`,
/// those that are still there, and the manager's client is still there.
pub fn broadcast_output_enter(state: &ShoestringWm, groups: &Vec<u64>, managers: &Vec<u64>) -> (r:
    Vec<GroupTarget>)
    ensures
        r@ == crate::seqs::picked(
            state.ext_workspace.instances@,
            group_target(groups@, managers@, true),
        ),
{
    output_targets(state, groups, managers, true)
}

/// The clients that are told that an output is about to go.
pub fn broadcast_output_leave(state: &ShoestringWm, groups: &Vec<u64>, managers: &Vec<u64>) -> (r:
    Vec<GroupTarget>)
    ensures
        r@ == crate::seqs::picked(
            state.ext_workspace.instances@,
            group_target(groups@, managers@, false),
        ),
{
    output_targets(state, groups, managers, false)
}

/// A client has bound an output: it is told that the output is in its group.
/// `bound_by` lists the managers of that client; none where the client is gone.
pub fn notify_output_bound(
    state: &ShoestringWm,
    groups: &Vec<u64>,
    bound_by: Option<&Vec<u64>>,
) -> (r: Vec<GroupTarget>)
    ensures
        r@ == (match bound_by {
            Some(managers) => crate::seqs::picked(
                state.ext_workspace.instances@,
                group_target(groups@, managers@, true),
            ),
            None => Seq::empty(),
        }),
{
    match bound_by {
        Some(managers) => output_targets(state, groups, managers, true),
        None => Vec::new(),
    }
}

/// A workspace goes by its configured name where that is not empty, and else by its
/// number, counted from one; it is announced with that name and its number, and as
/// active where it is.
pub proof fn law_workspace_announced(
    wm: ShoestringWm,
    index: int,
    handle: u64,
    a: Announcement,
)
    requires
        announces(wm, index, handle, a),
        0 <= index <= 255,
    ensures
        ({
            let names = wm.desktop.workspaces.names@;
            &&& a.handle == handle
            &&& a.id@ == crate::text::decimal((index + 1) as nat)
            &&& index < names.len() && names[index]@.len() > 0 ==> a.name@ == names[index]@
            &&& index >= names.len() || names[index]@.len() == 0 ==> a.name@
                == crate::text::decimal((index + 1) as nat)
            &&& a.active <==> wm.desktop.workspaces.active == index + 1
            &&& a.coordinates@.len() == 4
            &&& a.coordinates@[0] == index && a.coordinates@[3] == 0 || a.coordinates@[3] == index
                && a.coordinates@[0] == 0
            &&& a.coordinates@[1] == 0 && a.coordinates@[2] == 0
        }),
{
    let little = choose|little: bool|
        a.coordinates@ == #[trigger] crate::wire::bytes_of(index as u32, little);
    assert(a.coordinates@ == crate::wire::bytes_of(index as u32, little));
}

/// Each workspace whose handle could be made is announced, once and in order, and no
/// other.
pub proof fn law_made_handles(handles: Seq<Option<u64>>, place: int)
    ensures
        made(handles).contains(place) <==> 0 <= place < handles.len() && handles[place] is Some,
        forall|i: int, j: int|
            0 <= i < j < made(handles).len() ==> (#[trigger] made(handles)[i]) < (#[trigger] made(
                handles,
            )[j]),
        forall|i: int|
            0 <= i < made(handles).len() ==> (#[trigger] made(handles)[i]) < handles.len(),
    decreases handles.len(),
{
    if handles.len() > 0 {
        let init = handles.drop_last();
        law_made_handles(init, place);
        let before = made(init);
        crate::seqs::lemma_push_contains(before, handles.len() - 1, place);
        if 0 <= place < init.len() {
            assert(init[place] == handles[place]);
        }
        let m = made(handles);
        assert forall|i: int| 0 <= i < m.len() implies (#[trigger] m[i]) < handles.len() by {
            if i < before.len() {
                assert(before[i] < init.len());
            }
        }
        assert forall|i: int, j: int| 0 <= i < j < m.len() implies (#[trigger] m[i])
            < (#[trigger] m[j]) by {
            assert(before[i] < init.len());
            if j < before.len() {
                assert(before[i] < before[j]);
            }
        }
    }
}

/// Every living handle of a client is told whether its workspace is the active one,
/// and no handle that is gone is told anything.
pub proof fn law_every_handle_told(
    handles: Seq<WorkspaceHandle>,
    active: u8,
    alive: Seq<u64>,
    msg: WorkspaceMsg,
)
    ensures
        state_messages(handles, active, alive).contains(msg) <==> exists|i: int|
            0 <= i < handles.len() && alive.contains((#[trigger] handles[i]).handle) && msg == (
            WorkspaceMsg::State {
                handle: handles[i].handle,
                active: handles[i].index + 1 == active,
            }),
    decreases handles.len(),
{
    if handles.len() > 0 {
        let init = handles.drop_last();
        let h = handles.last();
        law_every_handle_told(init, active, alive, msg);
        assert(h == handles[handles.len() - 1]);
        crate::seqs::lemma_push_contains(
            state_messages(init, active, alive),
            WorkspaceMsg::State { handle: h.handle, active: h.index + 1 == active },
            msg,
        );
        if state_messages(init, active, alive).contains(msg) {
            let i = choose|i: int|
                0 <= i < init.len() && alive.contains((#[trigger] init[i]).handle) && msg == (
                WorkspaceMsg::State {
                    handle: init[i].handle,
                    active: init[i].index + 1 == active,
                });
            assert(handles[i] == init[i]);
        }
        if exists|i: int|
            0 <= i < handles.len() && alive.contains((#[trigger] handles[i]).handle) && msg == (
            WorkspaceMsg::State {
                handle: handles[i].handle,
                active: handles[i].index + 1 == active,
            }) {
            let i = choose|i: int|
                0 <= i < handles.len() && alive.contains((#[trigger] handles[i]).handle) && msg == (
                WorkspaceMsg::State {
                    handle: handles[i].handle,
                    active: handles[i].index + 1 == active,
                });
            if i < init.len() {
                assert(init[i] == handles[i]);
            }
        }
    }
}

/// Every client whose manager lives is told the states of its handles and then that
/// this was all; a client whose manager is gone is told nothing. The clients are told
/// one after the other.
pub proof fn law_every_client_told(
    instances: Seq<ExtWorkspaceInstance>,
    i: ExtWorkspaceInstance,
    active: u8,
    alive: Seq<u64>,
)
    ensures
        active_messages(Seq::empty(), active, alive).len() == 0,
        !alive.contains(i.manager) ==> active_messages(instances.push(i), active, alive)
            == active_messages(instances, active, alive),
        alive.contains(i.manager) ==> {
            let m = active_messages(instances.push(i), active, alive);
            let n = active_messages(instances, active, alive).len() as int;
            &&& m.take(n) == active_messages(instances, active, alive)
            &&& m.skip(n).drop_last() == state_messages(i.workspaces@, active, alive)
            &&& m.last() == (WorkspaceMsg::Done { manager: i.manager })
        },
{
    assert(instances.push(i).drop_last() =~= instances);
    if alive.contains(i.manager) {
        let m = active_messages(instances.push(i), active, alive);
        let n = active_messages(instances, active, alive).len() as int;
        assert(m.take(n) =~= active_messages(instances, active, alive));
        assert(m.skip(n).drop_last() =~= state_messages(i.workspaces@, active, alive));
    }
}

/// Of an output, a client is told where its group is still there and its manager is
/// one of those meant; it is told in its own group.
pub proof fn law_groups_told(
    instances: Seq<ExtWorkspaceInstance>,
    groups: Seq<u64>,
    managers: Seq<u64>,
    enter: bool,
    t: GroupTarget,
)
    ensures
        crate::seqs::picked(instances, group_target(groups, managers, enter)).contains(t)
            <==> t.enter == enter && groups.contains(t.group) && managers.contains(t.manager)
            && exists|i: int|
            0 <= i < instances.len() && (#[trigger] instances[i]).group == t.group
                && instances[i].manager == t.manager,
{
    let f = group_target(groups, managers, enter);
    crate::seqs::law_picked_members(instances, f, t);
    if exists|i: int|
        0 <= i < instances.len() && (#[trigger] instances[i]).group == t.group
            && instances[i].manager == t.manager {
        let i = choose|i: int|
            0 <= i < instances.len() && (#[trigger] instances[i]).group == t.group
                && instances[i].manager == t.manager;
        if t.enter == enter && groups.contains(t.group) && managers.contains(t.manager) {
            assert(f(instances[i]) == Some(t));
        }
    }
}

/// A view has a handle exactly where one of its workspaces does; of several views, and
/// of several views of one manager, the first counts.
pub proof fn law_first_view(
    instances: Seq<ExtWorkspaceInstance>,
    i: ExtWorkspaceInstance,
    handle: u64,
    manager: u64,
    k: int,
    j: int,
)
    ensures
        0 <= k < i.workspaces@.len() && i.workspaces@[k].handle == handle ==> has_handle(i, handle),
        (forall|m: int|
            0 <= m < i.workspaces@.len() ==> (#[trigger] i.workspaces@[m]).handle != handle)
            ==> !has_handle(i, handle),
        first_with(instances, handle, k) ==> has_handle(instances[k], handle) && (0 <= j < k
            ==> !has_handle(instances[j], handle)),
        first_with(instances, handle, k) && first_with(instances, handle, j) ==> k == j,
        first_of(instances, manager, k) ==> instances[k].manager == manager && (0 <= j < k
            ==> instances[j].manager != manager),
        first_of(instances, manager, k) && first_of(instances, manager, j) ==> k == j,
        first_with(instances, handle, k) || first_of(instances, manager, k) ==> 0 <= k
            < instances.len(),
{
    if first_with(instances, handle, k) && 0 <= j < k {
        assert(!has_handle(instances[j], handle));
    }
    if first_with(instances, handle, j) && 0 <= k < j {
        assert(!has_handle(instances[k], handle));
    }
    if first_of(instances, manager, k) && 0 <= j < k {
        assert(instances[j].manager != manager);
    }
    if first_of(instances, manager, j) && 0 <= k < j {
        assert(instances[k].manager != manager);
    }
}

} // verus!
