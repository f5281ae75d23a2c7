//! Clients that keep the manager from something: from going idle, from taking key
//! combinations, from moving the pointer.

use vstd::prelude::*;

use crate::state::ShoestringWm;

verus! {

/// Whether `i` is the first place of a surface.
pub open spec fn first_place(v: Seq<u64>, surface: u64, i: int) -> bool {
    &&& 0 <= i < v.len()
    &&& v[i] == surface
    &&& forall|j: int| 0 <= j < i ==> #[trigger] v[j] != surface
}

/// The inhibitor to switch off and the one to switch on.
#[derive(Clone, Copy, Debug, PartialEq, Eq, Structural)]
pub struct ShortcutSwitch {
    pub off: Option<u64>,
    pub on: Option<u64>,
}

/// The inhibitor that is on once a client wants one for a surface.
pub open spec fn wanted(active: Option<u64>, inhibitor: u64, surface_has_focus: bool) -> Option<
    u64,
> {
    if surface_has_focus {
        Some(inhibitor)
    } else {
        active
    }
}

/// The inhibitor that is on once one is gone.
pub open spec fn without(active: Option<u64>, inhibitor: u64) -> Option<u64> {
    if active == Some(inhibitor) {
        None
    } else {
        active
    }
}

/// What is switched when the focus moves to a surface with the inhibitor `next`, or
/// without one.
pub open spec fn switched(active: Option<u64>, next: Option<u64>) -> ShortcutSwitch {
    if active == next {
        ShortcutSwitch { off: None, on: None }
    } else {
        ShortcutSwitch { off: active, on: next }
    }
}

/// Something that happens to the inhibitors.
pub enum InhibitorEvent {
    /// A client wants one, on a surface with the focus or without.
    Wanted { inhibitor: u64, surface_has_focus: bool },
    Gone { inhibitor: u64 },
    /// The focus moves to a surface with this inhibitor, or without one.
    Focus { next: Option<u64> },
}

/// The inhibitor that counts as on after an event.
pub open spec fn active_after(active: Option<u64>, e: InhibitorEvent) -> Option<u64> {
    match e {
        InhibitorEvent::Wanted { inhibitor, surface_has_focus } => wanted(
            active,
            inhibitor,
            surface_has_focus,
        ),
        InhibitorEvent::Gone { inhibitor } => without(active, inhibitor),
        InhibitorEvent::Focus { next } => next,
    }
}

/// The inhibitors that were switched on and not off again, after an event.
pub open spec fn on_after(on: Set<u64>, active: Option<u64>, e: InhibitorEvent) -> Set<u64> {
    match e {
        InhibitorEvent::Wanted { inhibitor, surface_has_focus } => if surface_has_focus {
            on.insert(inhibitor)
        } else {
            on
        },
        InhibitorEvent::Gone { inhibitor } => on.remove(inhibitor),
        InhibitorEvent::Focus { next } => {
            let s = switched(active, next);
            let left = match s.off {
                Some(i) => on.remove(i),
                None => on,
            };
            match s.on {
                Some(i) => left.insert(i),
                None => left,
            }
        },
    }
}

/// The inhibitor that counts as on, if there is one, and no other.
pub open spec fn only(active: Option<u64>) -> Set<u64> {
    match active {
        Some(i) => Set::empty().insert(i),
        None => Set::empty(),
    }
}

/// At most one inhibitor is on at a time: that of the surface with the focus. A
/// surface has no second inhibitor, so one is wanted on the surface with the focus
/// only where none is on.
pub proof fn law_one_inhibitor_on(
    actives: Seq<Option<u64>>,
    on: Seq<Set<u64>>,
    events: Seq<InhibitorEvent>,
    k: int,
)
    requires
        actives.len() == events.len() + 1,
        on.len() == events.len() + 1,
        on[0] == only(actives[0]),
        forall|i: int|
            #![trigger events[i]]
            0 <= i < events.len() ==> {
                &&& actives[i + 1] == active_after(actives[i], events[i])
                &&& on[i + 1] == on_after(on[i], actives[i], events[i])
                &&& events[i] matches InhibitorEvent::Wanted { surface_has_focus: true, .. }
                    ==> actives[i] is None
            },
        0 <= k < actives.len(),
    ensures
        on[k] == only(actives[k]),
    decreases k,
{
    if k > 0 {
        law_one_inhibitor_on(actives, on, events, k - 1);
        let e = events[k - 1];
        assert(on[k] == on_after(on[k - 1], actives[k - 1], e));
        assert(on[k] =~= only(actives[k]));
    }
}

/// What a client drags something with.
#[derive(Clone, Copy, Debug, PartialEq, Eq, Structural)]
pub enum DragSource {
    Pointer,
    Touch,
}

/// Whether a drag begins: only one by the pointer does, others are cancelled.
pub fn dnd_requested(source: DragSource) -> (r: bool)
    ensures
        r == (source == DragSource::Pointer),
{
    match source {
        DragSource::Pointer => true,
        DragSource::Touch => false,
    }
}

/// Where a client says that it draws the pointer: the surface, and the place on
/// it by its bits.
#[derive(Clone, Copy, Debug, PartialEq, Eq, Structural)]
pub struct CursorHint {
    pub surface: u64,
    pub x_bits: u64,
    pub y_bits: u64,
}

impl ShoestringWm {
    /// A client wants no idleness while a surface is visible.
    pub fn inhibit(&mut self, surface: u64)
        ensures
            final(self).idle_inhibitors@ == old(self).idle_inhibitors@.push(surface),
            *final(self) == (ShoestringWm {
                idle_inhibitors: final(self).idle_inhibitors,
                ..*old(self)
            }),
    {
        self.idle_inhibitors.push(surface);
    }

    /// A client takes one such wish back. A surface with several keeps the
    /// others.
    pub fn uninhibit(&mut self, surface: u64)
        ensures
            (forall|i: int| !first_place(old(self).idle_inhibitors@, surface, i)) ==> final(self).idle_inhibitors@ == old(self).idle_inhibitors@,
            forall|i: int| #[trigger]
                first_place(old(self).idle_inhibitors@, surface, i) ==> final(self).idle_inhibitors@ == old(self).idle_inhibitors@.remove(i),
            *final(self) == (ShoestringWm {
                idle_inhibitors: final(self).idle_inhibitors,
                ..*old(self)
            }),
    {
        let ghost all = self.idle_inhibitors@;
        let mut i: usize = 0;
        while i < self.idle_inhibitors.len()
            invariant
                i <= all.len(),
                all == self.idle_inhibitors@,
                *self == *old(self),
                forall|j: int| 0 <= j < i ==> #[trigger] all[j] != surface,
            decreases all.len() - i,
        {
            if self.idle_inhibitors[i] == surface {
                assert(first_place(all, surface, i as int));
                assert forall|k: int| #[trigger] first_place(all, surface, k) implies k == i by {
                    if k < i {
                        assert(all[k] != surface);
                    }
                    if (i as int) < k {
                        assert(all[i as int] != surface);
                    }
                }
                self.idle_inhibitors.remove(i);
                return ;
            }
            i += 1;
        }
        assert(forall|k: int| !first_place(all, surface, k));
    }

    /// A client wants to get all key combinations on a surface. It does at once
    /// where the surface has the focus; otherwise once it gets it. The result
    /// tells whether to switch the inhibitor on.
    pub fn new_inhibitor(&mut self, inhibitor: u64, surface_has_focus: bool) -> (r: bool)
        ensures
            r == surface_has_focus,
            *final(self) == (ShoestringWm {
                active_shortcuts_inhibitor: wanted(
                    old(self).active_shortcuts_inhibitor,
                    inhibitor,
                    surface_has_focus,
                ),
                ..*old(self)
            }),
    {
        if surface_has_focus {
            self.active_shortcuts_inhibitor = Some(inhibitor);
        }
        surface_has_focus
    }

    /// An inhibitor is gone.
    pub fn inhibitor_destroyed(&mut self, inhibitor: u64)
        ensures
            *final(self) == (ShoestringWm {
                active_shortcuts_inhibitor: without(
                    old(self).active_shortcuts_inhibitor,
                    inhibitor,
                ),
                ..*old(self)
            }),
    {
        if let Some(a) = self.active_shortcuts_inhibitor {
            if a == inhibitor {
                self.active_shortcuts_inhibitor = None;
            }
        }
    }

    /// The focus has moved to a surface with the given inhibitor, or without one:
    /// that one is on now, and no other.
    pub fn focus_changed(&mut self, next: Option<u64>) -> (r: ShortcutSwitch)
        ensures
            *final(self) == (ShoestringWm { active_shortcuts_inhibitor: next, ..*old(self) }),
            r == switched(old(self).active_shortcuts_inhibitor, next),
    {
        let before = self.active_shortcuts_inhibitor;
        let same = match (before, next) {
            (Some(a), Some(b)) => a == b,
            (None, None) => true,
            _ => false,
        };
        if same {
            return ShortcutSwitch { off: None, on: None };
        }
        self.active_shortcuts_inhibitor = next;
        ShortcutSwitch { off: before, on: next }
    }

    /// A client wants to hold the pointer on a surface. It does at once where the
    /// pointer is on that surface; otherwise once it comes there. The result tells
    /// whether to begin.
    pub fn new_constraint(&self, surface: u64, pointer_focus: Option<u64>) -> (r: bool)
        ensures
            r == (pointer_focus == Some(surface)),
    {
        match pointer_focus {
            Some(f) => f == surface,
            None => false,
        }
    }

    /// Where a client says that it draws the pointer. It counts while the client
    /// holds the pointer.
    pub fn cursor_position_hint(&mut self, hint: CursorHint, active: bool)
        ensures
            *final(self) == (ShoestringWm {
                cursor_hint: if active {
                    Some(hint)
                } else {
                    old(self).cursor_hint
                },
                ..*old(self)
            }),
    {
        if active {
            self.cursor_hint = Some(hint);
        }
    }

    /// A client lets go of the pointer. Where that was its last hold on the
    /// surface, the pointer comes back where the client has said; the hint is
    /// spent.
    pub fn remove_constraint(&mut self, surface: u64, last: bool) -> (r: Option<CursorHint>)
        ensures
            !last ==> r is None && *final(self) == *old(self),
            last ==> {
                &&& *final(self) == (ShoestringWm { cursor_hint: None, ..*old(self) })
                &&& r == (match old(self).cursor_hint {
                    Some(h) => if h.surface == surface {
                        Some(h)
                    } else {
                        None
                    },
                    None => None,
                })
            },
    {
        if !last {
            return None;
        }
        match self.cursor_hint.take() {
            Some(h) => if h.surface == surface {
                Some(h)
            } else {
                None
            },
            None => None,
        }
    }

    /// The output whose scale a surface is told: the first that shows its window,
    /// else the first.
    pub fn new_fractional_scale(&self, window: Option<u64>) -> (r: Option<u64>)
        ensures
            r == ({
                let shown = match window {
                    Some(w) => crate::foreign_toplevel_mgmt::outputs_of(self.desktop.space, w),
                    None => Seq::empty(),
                };
                if shown.len() > 0 {
                    Some(shown[0])
                } else if self.desktop.space.outputs@.len() > 0 {
                    Some(self.desktop.space.outputs@[0].id)
                } else {
                    None
                }
            }),
    {
        if let Some(w) = window {
            let shown = crate::foreign_toplevel_mgmt::outputs_for(&self.desktop.space, w);
            if shown.len() > 0 {
                return Some(shown[0]);
            }
        }
        if self.desktop.space.outputs.len() > 0 {
            Some(self.desktop.space.outputs[0].id)
        } else {
            None
        }
    }
}

/// Wishes for no idleness are counted: one that is taken back leaves as many for
/// every surface as there were before it.
pub proof fn law_wishes_counted(before: Seq<u64>, surface: u64, i: int)
    requires
        first_place(before.push(surface), surface, i),
    ensures
        before.push(surface).remove(i).to_multiset() == before.to_multiset(),
{
    let all = before.push(surface);
    let rest = all.remove(i);
    assert(all =~= rest.insert(i, surface));
    vstd::seq_lib::to_multiset_insert(rest, i, surface);
    vstd::seq_lib::to_multiset_build(before, surface);
    assert(rest.to_multiset() =~= before.to_multiset()) by {
        assert(rest.to_multiset().insert(surface) == before.to_multiset().insert(surface));
        assert(rest.to_multiset().insert(surface).remove(surface) =~= rest.to_multiset());
        assert(before.to_multiset().insert(surface).remove(surface) =~= before.to_multiset());
    }
}

/// A surface has one first place, and it has one exactly where it is listed.
pub proof fn law_first_place(v: Seq<u64>, surface: u64, i: int, j: int)
    ensures
        first_place(v, surface, i) && first_place(v, surface, j) ==> i == j,
        first_place(v, surface, i) ==> v.contains(surface) && v[i] == surface,
        first_place(v, surface, i) && 0 <= j < i ==> v[j] != surface,
        0 <= i < v.len() && v[i] == surface ==> exists|k: int| first_place(v, surface, k),
    decreases i,
{
    if 0 <= i < v.len() && v[i] == surface {
        if exists|k: int| 0 <= k < i && #[trigger] v[k] == surface {
            let k = choose|k: int| 0 <= k < i && #[trigger] v[k] == surface;
            law_first_place(v, surface, k, j);
        } else {
            assert(first_place(v, surface, i));
        }
    }
    if first_place(v, surface, i) && first_place(v, surface, j) {
        if i < j {
            assert(v[i] != surface);
        }
        if j < i {
            assert(v[j] != surface);
        }
    }
}

/// An inhibitor that is wanted on the surface with the focus is on, one that is wanted
/// elsewhere changes nothing, and one that is gone is off, without a change to another.
pub proof fn law_which_inhibitor_is_on(active: Option<u64>, inhibitor: u64, other: u64)
    ensures
        wanted(active, inhibitor, true) == Some(inhibitor),
        wanted(active, inhibitor, false) == active,
        without(Some(inhibitor), inhibitor) is None,
        other != inhibitor ==> without(Some(other), inhibitor) == Some(other),
        without(None, inhibitor) is None,
{
}

/// When the focus moves, the inhibitor that was on goes off and the next goes on;
/// nothing is switched where they are the same.
pub proof fn law_focus_switches(active: Option<u64>, next: Option<u64>)
    ensures
        active == next ==> switched(active, next).off is None && switched(active, next).on is None,
        active != next ==> switched(active, next).off == active && switched(active, next).on
            == next,
{
}

} // verus!
