//! The session lock. While it is up, only lock surfaces are shown, and the
//! keyboard focus is theirs.

use vstd::prelude::*;

use crate::geometry::Point;
use crate::layout::contains_id;
use crate::layout::rect_contains;
use crate::state::ShoestringWm;

verus! {

/// A lock that a client has asked for.
#[derive(Debug)]
pub struct LockState {
    /// The client's request, until it is confirmed.
    pub pending: Option<u64>,
    /// The lock surfaces, each with its output. No output occurs twice.
    pub surfaces: Vec<(u64, u64)>,
    /// The surface that had the keyboard focus when the lock came up.
    pub saved_focus: Option<u64>,
}

impl LockState {
    /// The place of an output's lock surface.
    pub open spec fn at(self, output: u64, i: int) -> bool {
        0 <= i < self.surfaces@.len() && self.surfaces@[i].0 == output
    }

    /// Whether each output has at most one lock surface.
    pub open spec fn wf(self) -> bool {
        forall|i: int, j: int|
            0 <= i < self.surfaces@.len() && 0 <= j < self.surfaces@.len() && (
            #[trigger] self.surfaces@[i]).0 == (#[trigger] self.surfaces@[j]).0 ==> i == j
    }

    /// The lock surface of an output.
    pub open spec fn surface_on(self, output: u64) -> Option<u64> {
        if exists|i: int| self.at(output, i) {
            Some(self.surfaces@[choose|i: int| self.at(output, i)].1)
        } else {
            None
        }
    }
}

/// What comes of a request to lock.
#[derive(Clone, Copy, Debug, PartialEq, Eq, Structural)]
pub enum LockOutcome {
    /// A lock is up already; the request is dropped, which tells its client.
    Rejected,
    /// The lock is up. The keyboard focus is cleared, and the window picker
    /// that was running, if any, is cancelled.
    Locked { cancelled_picker: Option<u64> },
}

/// What comes of a new lock surface.
#[derive(Clone, Copy, Debug)]
pub struct SurfacePlan {
    /// The size to configure the surface with.
    pub size: (u32, u32),
    /// The surface to give the keyboard focus to.
    pub focus: Option<u64>,
}

/// The size that a lock surface is configured with: the output's mode in
/// logical pixels, or nothing without a mode. A scale below one counts as one.
pub open spec fn lock_size(mode: Option<(i32, i32)>, scale: i32) -> (int, int) {
    let s = crate::geometry::max(scale as int, 1);
    match mode {
        Some(m) => (m.0 as int / s, m.1 as int / s),
        None => (0, 0),
    }
}

impl ShoestringWm {
    /// Whether a session lock is up.
    pub fn is_locked(&self) -> (r: bool)
        ensures
            r == self.lock_session is Some,
    {
        self.lock_session.is_some()
    }

    /// A client asks to lock, while the surface `focus` has the keyboard focus.
    pub fn lock(&mut self, locker: u64, focus: Option<u64>) -> (r: LockOutcome)
        ensures
            match old(self).lock_session {
                Some(_) => r == LockOutcome::Rejected && *final(self) == *old(self),
                None => {
                    &&& r == (LockOutcome::Locked { cancelled_picker: old(self).pending_picker })
                    &&& lock_opened(*old(self), locker, focus, *final(self))
                },
            },
    {
        if self.lock_session.is_some() {
            return LockOutcome::Rejected;
        }
        let cancelled_picker = self.pending_picker.take();
        self.lock_session = Some(
            LockState { pending: Some(locker), surfaces: Vec::new(), saved_focus: focus },
        );
        LockOutcome::Locked { cancelled_picker }
    }

    /// The client unlocks. The result is the surface to give the keyboard focus
    /// back to.
    pub fn unlock(&mut self) -> (r: Option<u64>)
        ensures
            r == unlocks_to(*old(self)),
            *final(self) == (ShoestringWm { lock_session: None, ..*old(self) }),
    {
        match self.lock_session.take() {
            Some(l) => l.saved_focus,
            None => None,
        }
    }

    /// A lock surface for an output appears; `mode` and `scale` are those of the
    /// output, `pointer` is where the pointer is, rounded down, and `focused` is
    /// the surface with the keyboard focus.
    pub fn new_lock_surface(
        &mut self,
        surface: u64,
        output: u64,
        mode: Option<(i32, i32)>,
        scale: i32,
        pointer: Option<Point>,
        focused: Option<u64>,
    ) -> (r: SurfacePlan)
        requires
            mode matches Some(m) ==> m.0 >= 0 && m.1 >= 0,
            old(self).lock_session is Some ==> old(self).lock_session->0.wf(),
        ensures
            r.size.0 == lock_size(mode, scale).0,
            r.size.1 == lock_size(mode, scale).1,
            r.focus == final(self).focus_to_take(pointer, focused),
            lock_covered(*old(self), surface, output, *final(self)),
    {
        let s: i32 = if scale >= 1 {
            scale
        } else {
            1
        };
        let size: (u32, u32) = match mode {
            Some(m) => {
                let w: i32 = m.0 / s;
                let h: i32 = m.1 / s;
                proof {
                    lemma_shrinks(m.0 as int, s as int);
                    lemma_shrinks(m.1 as int, s as int);
                }
                (w as u32, h as u32)
            },
            None => (0, 0),
        };
        if let Some(l) = self.lock_session.take() {
            let mut lock = l;
            lock.put(output, surface);
            self.lock_session = Some(lock);
        }
        let focus = self.focus_lock_surface(pointer, focused);
        SurfacePlan { size, focus }
    }

    /// Whether the output at `i` is the first that holds a point.
    pub open spec fn first_under(self, i: int, p: Point) -> bool {
        self.under(i, p) && forall|j: int| 0 <= j < i ==> !self.under(j, p)
    }

    /// The output under the pointer.
    pub open spec fn output_at(self, pointer: Option<Point>) -> Option<u64> {
        match pointer {
            Some(p) => if exists|i: int| self.first_under(i, p) {
                Some(self.desktop.space.outputs@[choose|i: int| self.first_under(i, p)].id)
            } else {
                None
            },
            None => None,
        }
    }

    fn output_under_pointer(&self, pointer: Option<Point>) -> (r: Option<u64>)
        ensures
            r == self.output_at(pointer),
    {
        let p = match pointer {
            Some(p) => p,
            None => return None,
        };
        let outputs = &self.desktop.space.outputs;
        let mut i: usize = 0;
        while i < outputs.len()
            invariant
                i <= outputs@.len(),
                outputs@ == self.desktop.space.outputs@,
                pointer == Some(p),
                forall|j: int| 0 <= j < i ==> !self.under(j, p),
            decreases outputs@.len() - i,
        {
            let here = match outputs[i].geometry {
                Some(g) => rect_contains(g, p),
                None => false,
            };
            if here {
                proof {
                    assert(self.under(i as int, p));
                    assert(self.first_under(i as int, p));
                    let k = choose|k: int| self.first_under(k, p);
                    assert(self.under(k, p));
                    assert(!(k < i));
                    assert(!(i < k));
                }
                return Some(outputs[i].id);
            }
            i += 1;
        }
        assert(forall|k: int| !self.first_under(k, p));
        None
    }

    /// The lock surface that the user faces: that of the output under the
    /// pointer, else the first one.
    pub open spec fn faced(self, pointer: Option<Point>) -> Option<u64> {
        match self.lock_session {
            Some(l) => {
                let here = match self.output_at(pointer) {
                    Some(output) => l.surface_on(output),
                    None => None,
                };
                if here is Some {
                    here
                } else if l.surfaces@.len() > 0 {
                    Some(l.surfaces@[0].1)
                } else {
                    None
                }
            },
            None => None,
        }
    }

    /// The lock surface that should take the keyboard focus: the one that the
    /// user faces, unless it has the focus already.
    pub open spec fn focus_to_take(self, pointer: Option<Point>, focused: Option<u64>) -> Option<
        u64,
    > {
        let s = self.faced(pointer);
        if s == focused {
            None
        } else {
            s
        }
    }

    /// The lock surface to give the keyboard focus to, if it has to change.
    /// `pointer` is where the pointer is, rounded down.
    pub fn focus_lock_surface(&self, pointer: Option<Point>, focused: Option<u64>) -> (r: Option<
        u64,
    >)
        requires
            self.lock_session is Some ==> self.lock_session->0.wf(),
        ensures
            r == self.focus_to_take(pointer, focused),
    {
        let here = match self.output_under_pointer(pointer) {
            Some(output) => self.lock_surface_for(output),
            None => None,
        };
        let s = match &self.lock_session {
            Some(l) => match here {
                Some(s) => s,
                None => {
                    if l.surfaces.len() == 0 {
                        return None;
                    }
                    l.surfaces[0].1
                },
            },
            None => return None,
        };
        match focused {
            Some(f) => if f == s {
                None
            } else {
                Some(s)
            },
            None => Some(s),
        }
    }

    /// The lock surface of an output.
    pub fn lock_surface_for(&self, output: u64) -> (r: Option<u64>)
        requires
            self.lock_session is Some ==> self.lock_session->0.wf(),
        ensures
            r == (match self.lock_session {
                Some(l) => l.surface_on(output),
                None => None,
            }),
    {
        match &self.lock_session {
            Some(l) => {
                let mut i: usize = 0;
                while i < l.surfaces.len()
                    invariant
                        i <= l.surfaces@.len(),
                        self.lock_session == Some(*l),
                        l.wf(),
                        forall|j: int| 0 <= j < i ==> (#[trigger] l.surfaces@[j]).0 != output,
                    decreases l.surfaces@.len() - i,
                {
                    if l.surfaces[i].0 == output {
                        proof {
                            assert(l.at(output, i as int));
                            let k = choose|k: int| l.at(output, k);
                            assert(l.surfaces@[k].0 == output);
                        }
                        return Some(l.surfaces[i].1);
                    }
                    i += 1;
                }
                assert(forall|k: int| !l.at(output, k));
                None
            },
            None => None,
        }
    }

    /// Confirms the lock to its client once a lock surface has something to show,
    /// and once only. `painted` lists the surfaces with a committed buffer. The
    /// result is the request to confirm.
    pub fn maybe_confirm_lock(&mut self, painted: &Vec<u64>) -> (r: Option<u64>)
        ensures
            lock_confirmed(*old(self), painted@, *final(self), r),
    {
        match self.lock_session.take() {
            Some(l) => {
                let mut lock = l;
                let confirmed = if lock.shows_any(painted) {
                    lock.pending.take()
                } else {
                    None
                };
                self.lock_session = Some(lock);
                confirmed
            },
            None => None,
        }
    }
}

/// Whether a lock surface is among those with a committed buffer.
pub open spec fn shows(l: LockState, painted: Seq<u64>) -> bool {
    exists|i: int| 0 <= i < l.surfaces@.len() && painted.contains((#[trigger] l.surfaces@[i]).1)
}

/// What a commit does to the lock: where it waits to be confirmed and a lock
/// surface has something to show, it no longer waits.
pub open spec fn lock_confirmed(
    before: ShoestringWm,
    painted: Seq<u64>,
    after: ShoestringWm,
    r: Option<u64>,
) -> bool {
    let ready = match before.lock_session {
        Some(l) => l.pending is Some && shows(l, painted),
        None => false,
    };
    if ready {
        let l = before.lock_session->0;
        &&& r == l.pending
        &&& after == (ShoestringWm {
            lock_session: Some(LockState { pending: None, ..l }),
            ..before
        })
    } else {
        r is None && after == before
    }
}

/// What a lock that comes up leaves: nothing is confirmed yet, no surface is
/// there, and the surface with the keyboard focus is noted.
pub open spec fn lock_opened(
    before: ShoestringWm,
    locker: u64,
    focus: Option<u64>,
    after: ShoestringWm,
) -> bool {
    &&& before.lock_session is None
    &&& after.lock_session is Some
    &&& after.lock_session->0.pending == Some(locker)
    &&& after.lock_session->0.surfaces@ == Seq::<(u64, u64)>::empty()
    &&& after.lock_session->0.saved_focus == focus
    &&& after.lock_session->0.wf()
    &&& after == (ShoestringWm {
        lock_session: after.lock_session,
        pending_picker: None,
        ..before
    })
}

/// What a lock surface that appears leaves: it is that of its output, and the
/// other outputs keep theirs. Without a lock nothing changes.
pub open spec fn lock_covered(
    before: ShoestringWm,
    surface: u64,
    output: u64,
    after: ShoestringWm,
) -> bool {
    &&& after == (ShoestringWm { lock_session: after.lock_session, ..before })
    &&& match (before.lock_session, after.lock_session) {
        (Some(a), Some(b)) => {
            &&& b.wf()
            &&& b.pending == a.pending
            &&& b.saved_focus == a.saved_focus
            &&& b.surface_on(output) == Some(surface)
            &&& forall|o: u64| o != output ==> #[trigger] b.surface_on(o) == a.surface_on(o)
        },
        (None, None) => true,
        _ => false,
    }
}

/// What happens to a lock while it is up.
pub enum LockMove {
    /// A surface is committed; those listed have a buffer.
    Commit { painted: Seq<u64>, confirmed: Option<u64> },
    /// A lock surface appears.
    Cover { surface: u64, output: u64 },
}

/// Whether the state at `i` turns into the next one by the move at `i`.
pub open spec fn lock_moved(states: Seq<ShoestringWm>, moves: Seq<LockMove>, i: int) -> bool {
    match moves[i] {
        LockMove::Commit { painted, confirmed } => lock_confirmed(
            states[i],
            painted,
            states[i + 1],
            confirmed,
        ),
        LockMove::Cover { surface, output } => lock_covered(
            states[i],
            surface,
            output,
            states[i + 1],
        ),
    }
}

/// Whatever lock surfaces come and however the lock is confirmed, the lock stays
/// up, and the surface to give the keyboard focus back to is the one that had it
/// when the lock came up.
pub proof fn law_unlock_returns_focus(
    before: ShoestringWm,
    locker: u64,
    focus: Option<u64>,
    states: Seq<ShoestringWm>,
    moves: Seq<LockMove>,
    k: int,
)
    requires
        states.len() == moves.len() + 1,
        lock_opened(before, locker, focus, states[0]),
        forall|i: int| 0 <= i < moves.len() ==> #[trigger] lock_moved(states, moves, i),
        0 <= k < states.len(),
    ensures
        states[k].lock_session is Some,
        unlocks_to(states[k]) == focus,
    decreases k,
{
    if k > 0 {
        law_unlock_returns_focus(before, locker, focus, states, moves, k - 1);
        assert(lock_moved(states, moves, k - 1));
    }
}

proof fn lemma_stays_confirmed(states: Seq<ShoestringWm>, moves: Seq<LockMove>, i: int, j: int)
    requires
        states.len() == moves.len() + 1,
        forall|k: int| 0 <= k < moves.len() ==> #[trigger] lock_moved(states, moves, k),
        0 <= i <= j < states.len(),
        states[i].lock_session matches Some(l) ==> l.pending is None,
    ensures
        states[j].lock_session matches Some(l) ==> l.pending is None,
    decreases j - i,
{
    if i < j {
        lemma_stays_confirmed(states, moves, i, j - 1);
        assert(lock_moved(states, moves, j - 1));
    }
}

proof fn lemma_pending_locker(
    before: ShoestringWm,
    locker: u64,
    focus: Option<u64>,
    states: Seq<ShoestringWm>,
    moves: Seq<LockMove>,
    k: int,
)
    requires
        states.len() == moves.len() + 1,
        lock_opened(before, locker, focus, states[0]),
        forall|i: int| 0 <= i < moves.len() ==> #[trigger] lock_moved(states, moves, i),
        0 <= k < states.len(),
    ensures
        states[k].lock_session matches Some(l) ==> (l.pending matches Some(p) ==> p == locker),
    decreases k,
{
    if k > 0 {
        lemma_pending_locker(before, locker, focus, states, moves, k - 1);
        assert(lock_moved(states, moves, k - 1));
    }
}

/// Whatever happens while a lock is up: the client that asked for it hears that the
/// session is locked only when a lock surface has something to show, and never a
/// second time. No other client hears it.
pub proof fn law_confirmed_once(
    before: ShoestringWm,
    locker: u64,
    focus: Option<u64>,
    states: Seq<ShoestringWm>,
    moves: Seq<LockMove>,
    i: int,
)
    requires
        states.len() == moves.len() + 1,
        lock_opened(before, locker, focus, states[0]),
        forall|k: int| 0 <= k < moves.len() ==> #[trigger] lock_moved(states, moves, k),
        0 <= i < moves.len(),
        moves[i] matches LockMove::Commit { confirmed, .. } && confirmed is Some,
    ensures
        moves[i] matches LockMove::Commit { painted, confirmed } && confirmed == Some(locker)
            && states[i].lock_session is Some && shows(states[i].lock_session->0, painted),
        forall|j: int|
            0 <= j < moves.len() && j != i ==> ((#[trigger] moves[j]) matches LockMove::Commit {
                confirmed,
                ..
            } ==> confirmed is None),
{
    assert(lock_moved(states, moves, i));
    lemma_pending_locker(before, locker, focus, states, moves, i);
    assert forall|j: int| 0 <= j < moves.len() && j != i implies ((
    #[trigger] moves[j]) matches LockMove::Commit { confirmed, .. } ==> confirmed is None) by {
        assert(lock_moved(states, moves, j));
        if i < j {
            lemma_stays_confirmed(states, moves, i + 1, j);
        } else if moves[j] matches LockMove::Commit { confirmed, .. } && confirmed is Some {
            lemma_stays_confirmed(states, moves, j + 1, i);
        }
    }
}

/// The surface that unlocking gives the keyboard focus back to.
pub open spec fn unlocks_to(wm: ShoestringWm) -> Option<u64> {
    match wm.lock_session {
        Some(l) => l.saved_focus,
        None => None,
    }
}

impl LockState {
    fn shows_any(&self, painted: &Vec<u64>) -> (r: bool)
        ensures
            r == shows(*self, painted@),
    {
        let mut i: usize = 0;
        while i < self.surfaces.len()
            invariant
                i <= self.surfaces@.len(),
                forall|j: int|
                    0 <= j < i ==> !painted@.contains((#[trigger] self.surfaces@[j]).1),
            decreases self.surfaces@.len() - i,
        {
            if contains_id(painted, self.surfaces[i].1) {
                return true;
            }
            i += 1;
        }
        false
    }
}

impl LockState {
    /// Sets the lock surface of an output.
    fn put(&mut self, output: u64, surface: u64)
        requires
            old(self).wf(),
        ensures
            final(self).wf(),
            final(self).pending == old(self).pending,
            final(self).saved_focus == old(self).saved_focus,
            final(self).surface_on(output) == Some(surface),
            forall|o: u64|
                o != output ==> #[trigger] final(self).surface_on(o) == old(self).surface_on(o),
    {
        let ghost before = *self;
        let mut i: usize = 0;
        while i < self.surfaces.len()
            invariant
                i <= self.surfaces@.len(),
                *self == before,
                before == *old(self),
                before.wf(),
                forall|j: int| 0 <= j < i ==> (#[trigger] self.surfaces@[j]).0 != output,
            decreases self.surfaces@.len() - i,
        {
            if self.surfaces[i].0 == output {
                self.surfaces.set(i, (output, surface));
                proof {
                    assert(self.at(output, i as int));
                    assert forall|o: u64| o != output implies #[trigger] self.surface_on(o)
                        == before.surface_on(o) by {
                        lemma_same_surface(before, *self, o, output);
                    }
                }
                return ;
            }
            i += 1;
        }
        self.surfaces.push((output, surface));
        proof {
            assert(self.at(output, i as int));
            assert forall|o: u64| o != output implies #[trigger] self.surface_on(o)
                == before.surface_on(o) by {
                lemma_same_surface(before, *self, o, output);
            }
        }
    }
}

proof fn lemma_same_surface(a: LockState, b: LockState, o: u64, output: u64)
    requires
        a.wf(),
        b.wf(),
        o != output,
        forall|i: int| #[trigger] a.at(o, i) <==> b.at(o, i),
        forall|i: int| #[trigger] a.at(o, i) ==> a.surfaces@[i] == b.surfaces@[i],
    ensures
        a.surface_on(o) == b.surface_on(o),
{
    if exists|i: int| a.at(o, i) {
        let i = choose|i: int| a.at(o, i);
        assert(b.at(o, i));
        let j = choose|j: int| b.at(o, j);
        assert(a.surfaces@[i].0 == o && b.surfaces@[j].0 == o);
        assert(b.surfaces@[i].0 == o);
    } else {
        assert forall|i: int| !b.at(o, i) by {
            assert(a.at(o, i) <==> b.at(o, i));
        }
    }
}

proof fn lemma_shrinks(a: int, s: int)
    requires
        a >= 0,
        s >= 1,
    ensures
        0 <= a / s <= a,
{
    assert(0 <= a / s <= a) by (nonlinear_arith)
        requires
            a >= 0,
            s >= 1,
    ;
}

/// A lock surface is as large as its output in logical pixels, rounded down, and a scale
/// below one counts as one; without a mode it has no size.
pub proof fn law_lock_size(w: i32, h: i32, scale: i32)
    requires
        w >= 0,
        h >= 0,
    ensures
        scale >= 1 ==> {
            let s = lock_size(Some((w, h)), scale);
            &&& s.0 * scale <= w < (s.0 + 1) * scale
            &&& s.1 * scale <= h < (s.1 + 1) * scale
        },
        scale < 1 ==> lock_size(Some((w, h)), scale) == (w as int, h as int),
        lock_size(None, scale) == (0int, 0int),
{
    if scale >= 1 {
        let k = scale as int;
        vstd::arithmetic::div_mod::lemma_fundamental_div_mod(w as int, k);
        vstd::arithmetic::div_mod::lemma_fundamental_div_mod(h as int, k);
        let a = w as int / k;
        let b = h as int / k;
        assert(k * a == a * k && (a + 1) * k == a * k + k && k * b == b * k && (b + 1) * k == b * k
            + k) by (nonlinear_arith);
    }
}

/// The lock surface of an output is the one that is listed with it, and an output that
/// is not listed has none.
pub proof fn law_surface_of_the_output(l: LockState, output: u64, i: int)
    requires
        l.wf(),
    ensures
        0 <= i < l.surfaces@.len() && l.surfaces@[i].0 == output ==> l.surface_on(output) == Some(
            l.surfaces@[i].1,
        ),
        (forall|j: int| 0 <= j < l.surfaces@.len() ==> (#[trigger] l.surfaces@[j]).0 != output)
            ==> l.surface_on(output) is None,
{
    if 0 <= i < l.surfaces@.len() && l.surfaces@[i].0 == output {
        assert(l.at(output, i));
        let k = choose|k: int| l.at(output, k);
        assert(l.at(output, k));
        assert(l.surfaces@[i].0 == l.surfaces@[k].0);
    }
}

/// The user faces the lock surface of the first output that the pointer is over; where
/// the pointer is over none, or that one has no lock surface, the first of all.
pub proof fn law_surface_faced(wm: ShoestringWm, l: LockState, pointer: Option<Point>, i: int)
    requires
        wm.lock_session == Some(l),
    ensures
        ({
            let over = |k: int|
                pointer is Some && wm.desktop.space.outputs@[k].geometry is Some
                    && wm.desktop.space.outputs@[k].geometry->0.holds(
                    pointer->0.x as int,
                    pointer->0.y as int,
                );
            let first = if l.surfaces@.len() > 0 {
                Some(l.surfaces@[0].1)
            } else {
                None
            };
            &&& 0 <= i < wm.desktop.space.outputs@.len() && over(i) && (forall|k: int|
                0 <= k < i ==> !#[trigger] over(k)) ==> {
                let here = l.surface_on(wm.desktop.space.outputs@[i].id);
                &&& here is Some ==> wm.faced(pointer) == here
                &&& here is None ==> wm.faced(pointer) == first
            }
            &&& (forall|k: int| 0 <= k < wm.desktop.space.outputs@.len() ==> !#[trigger] over(k))
                ==> wm.faced(pointer) == first
        }),
{
    let over = |k: int|
        pointer is Some && wm.desktop.space.outputs@[k].geometry is Some
            && wm.desktop.space.outputs@[k].geometry->0.holds(
            pointer->0.x as int,
            pointer->0.y as int,
        );
    assert forall|k: int|
        0 <= k < wm.desktop.space.outputs@.len() && pointer is Some implies wm.under(k, pointer->0)
        == #[trigger] over(k) by {}
    if 0 <= i < wm.desktop.space.outputs@.len() && over(i) && (forall|k: int|
        0 <= k < i ==> !#[trigger] over(k)) {
        assert forall|k: int| 0 <= k < i implies !wm.under(k, pointer->0) by {
            assert(!over(k));
        }
        assert(wm.under(i, pointer->0));
        assert(wm.first_under(i, pointer->0));
        let k = choose|k: int| wm.first_under(k, pointer->0);
        assert(wm.first_under(k, pointer->0));
        if k < i {
            assert(!wm.under(k, pointer->0));
        }
        if i < k {
            assert(!wm.under(i, pointer->0));
        }
    }
    if forall|k: int| 0 <= k < wm.desktop.space.outputs@.len() ==> !#[trigger] over(k) {
        if pointer is Some {
            assert forall|k: int| !wm.first_under(k, pointer->0) by {
                if wm.first_under(k, pointer->0) {
                    assert(over(k));
                }
            }
        }
    }
}

/// The lock surface that the user faces takes the focus, unless it has it; without a
/// lock nothing does.
pub proof fn law_faced_takes_focus(wm: ShoestringWm, pointer: Option<Point>, focused: Option<u64>)
    ensures
        wm.lock_session is None ==> wm.focus_to_take(pointer, focused) is None,
        wm.faced(pointer) != focused ==> wm.focus_to_take(pointer, focused) == wm.faced(pointer),
        wm.faced(pointer) == focused ==> wm.focus_to_take(pointer, focused) is None,
{
}

/// A lock that waits is confirmed exactly by a commit after which one of its surfaces
/// has a buffer; its client is told, and from then on it does not wait.
pub proof fn law_when_confirmed(
    before: ShoestringWm,
    l: LockState,
    painted: Seq<u64>,
    after: ShoestringWm,
    r: Option<u64>,
)
    requires
        before.lock_session == Some(l),
        lock_confirmed(before, painted, after, r),
    ensures
        r is Some <==> l.pending is Some && exists|i: int|
            0 <= i < l.surfaces@.len() && painted.contains((#[trigger] l.surfaces@[i]).1),
        r is Some ==> r == l.pending && after.lock_session is Some
            && after.lock_session->0.pending is None,
        after.lock_session is Some && after.lock_session->0.surfaces == l.surfaces
            && after.lock_session->0.saved_focus == l.saved_focus,
        r is None ==> after == before,
{
}

/// Unlocking gives the focus back to the surface that had it when the lock came up.
pub proof fn law_focus_back(wm: ShoestringWm)
    ensures
        wm.lock_session matches Some(l) ==> unlocks_to(wm) == l.saved_focus,
        wm.lock_session is None ==> unlocks_to(wm) is None,
{
}

/// A lock that comes up has no surface yet and waits to be confirmed to its client; the
/// focus is noted and a window picker goes. Nothing else changes.
pub proof fn law_lock_comes_up(
    before: ShoestringWm,
    locker: u64,
    focus: Option<u64>,
    after: ShoestringWm,
    output: u64,
)
    requires
        lock_opened(before, locker, focus, after),
    ensures
        before.lock_session is None,
        after.lock_session is Some,
        after.lock_session->0.pending == Some(locker),
        after.lock_session->0.surface_on(output) is None,
        after.lock_session->0.saved_focus == focus,
        after.pending_picker is None,
        after == (ShoestringWm {
            lock_session: after.lock_session,
            pending_picker: after.pending_picker,
            ..before
        }),
{
    law_surface_of_the_output(after.lock_session->0, output, 0);
}

/// A lock surface is that of its output from then on; the other outputs keep theirs, and
/// nothing else changes, be it confirmed or covered.
pub proof fn law_lock_changes_alone(
    before: ShoestringWm,
    surface: u64,
    output: u64,
    covered: ShoestringWm,
    other: u64,
    painted: Seq<u64>,
    confirmed: ShoestringWm,
    r: Option<u64>,
)
    requires
        lock_covered(before, surface, output, covered),
        lock_confirmed(before, painted, confirmed, r),
    ensures
        covered == (ShoestringWm { lock_session: covered.lock_session, ..before }),
        confirmed == (ShoestringWm { lock_session: confirmed.lock_session, ..before }),
        before.lock_session is None ==> covered == before && confirmed == before && r is None,
        before.lock_session matches Some(l) ==> {
            &&& covered.lock_session is Some
            &&& covered.lock_session->0.surface_on(output) == Some(surface)
            &&& other != output ==> covered.lock_session->0.surface_on(other) == l.surface_on(other)
            &&& covered.lock_session->0.pending == l.pending
            &&& covered.lock_session->0.saved_focus == l.saved_focus
        },
{
}

} // verus!
