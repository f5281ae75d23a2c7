//! Bars, docks and menus: the output that they are put on, and the keyboard focus
//! that they take and give back.

use vstd::prelude::*;

use crate::layout::Space;
use crate::state::ShoestringWm;

verus! {

/// The output of a new surface: the one that its client names, else the first.
pub fn new_layer_surface(named: Option<u64>, space: &Space) -> (r: Option<u64>)
    ensures
        r == (match named {
            Some(o) => Some(o),
            None => if space.outputs@.len() > 0 {
                Some(space.outputs@[0].id)
            } else {
                None
            },
        }),
{
    match named {
        Some(o) => Some(o),
        None => if space.outputs.len() > 0 {
            Some(space.outputs[0].id)
        } else {
            None
        },
    }
}

/// Where the focus goes.
#[derive(Clone, Copy, Debug, PartialEq, Eq, Structural)]
pub enum FocusReturn {
    Stay,
    /// To this window, or to none.
    To(Option<u64>),
}

/// The windows that had the focus, the last on top, without those above the last
/// that is still mapped.
pub open spec fn live_focus(stack: Seq<u64>, space: Space) -> Seq<u64>
    decreases stack.len(),
{
    if stack.len() == 0 || space.location(stack.last()) is Some {
        stack
    } else {
        live_focus(stack.drop_last(), space)
    }
}

impl ShoestringWm {
    /// A surface is gone. Where it had the focus, that goes back to the window of
    /// the active workspace that had it last and is still mapped; `stack` lists
    /// those that had it, the last on top. The ones that are gone are taken off.
    pub fn layer_destroyed(&self, had_focus: bool, stack: &mut Vec<u64>) -> (r: FocusReturn)
        ensures
            !had_focus ==> r == FocusReturn::Stay && final(stack)@ == old(stack)@,
            had_focus ==> {
                &&& final(stack)@ == live_focus(old(stack)@, self.desktop.space)
                &&& r == FocusReturn::To(
                    if final(stack)@.len() > 0 {
                        Some(final(stack)@.last())
                    } else {
                        None
                    },
                )
            },
    {
        if !had_focus {
            return FocusReturn::Stay;
        }
        let ghost all = stack@;
        while stack.len() > 0
            invariant
                live_focus(all, self.desktop.space) == live_focus(stack@, self.desktop.space),
                all == old(stack)@,
                had_focus,
            decreases stack@.len(),
        {
            let top = stack[stack.len() - 1];
            if self.desktop.space.element_location(top).is_some() {
                return FocusReturn::To(Some(top));
            }
            let ghost before = stack@;
            stack.pop();
            assert(stack@ =~= before.drop_last());
        }
        FocusReturn::To(None)
    }
}

/// What is done when a surface is committed.
#[derive(Clone, Copy, Debug, PartialEq, Eq, Structural)]
pub struct LayerCommit {
    /// The output whose surfaces are arranged anew, before the configure is sent.
    pub arrange: u64,
    pub configure: bool,
    pub take_focus: bool,
}

/// A surface on the output is committed; without an output it is no surface
/// of a bar, and nothing is done. The first configure is owed until it was
/// sent. A surface that wants the focus for itself takes it, unless it has it
/// or the session is locked.
pub fn handle_commit(
    state: &ShoestringWm,
    output: Option<u64>,
    configured: bool,
    exclusive: bool,
    has_focus: bool,
) -> (r: Option<LayerCommit>)
    ensures
        r == (match output {
            Some(output) => Some(
                LayerCommit {
                    arrange: output,
                    configure: !configured,
                    take_focus: exclusive && !has_focus && state.lock_session is None,
                },
            ),
            None => None,
        }),
{
    match output {
        Some(output) => Some(
            LayerCommit {
                arrange: output,
                configure: !configured,
                take_focus: exclusive && !state.is_locked() && !has_focus,
            },
        ),
        None => None,
    }
}

/// The focus goes back to a window that is mapped.
pub proof fn law_focus_returns_to_mapped(stack: Seq<u64>, space: Space)
    ensures
        live_focus(stack, space).len() > 0 ==> space.location(
            live_focus(stack, space).last(),
        ) is Some,
        live_focus(stack, space).len() == 0 ==> forall|i: int|
            0 <= i < stack.len() ==> space.location(#[trigger] stack[i]) is None,
    decreases stack.len(),
{
    if stack.len() > 0 && space.location(stack.last()) is None {
        let t = stack.drop_last();
        law_focus_returns_to_mapped(t, space);
        if live_focus(stack, space).len() == 0 {
            assert forall|i: int| 0 <= i < stack.len() implies space.location(
                #[trigger] stack[i],
            ) is None by {
                if i < t.len() {
                    assert(t[i] == stack[i]);
                }
            }
        }
    }
}

/// Of the windows that had the focus, only those above the last that is still mapped
/// are taken off; where none is mapped any more, all are.
pub proof fn law_only_gone_are_taken_off(stack: Seq<u64>, space: Space, k: int)
    ensures
        0 <= k < stack.len() && space.location(stack[k]) is Some && (forall|j: int|
            k < j < stack.len() ==> space.location(#[trigger] stack[j]) is None) ==> live_focus(
            stack,
            space,
        ) == stack.take(k + 1),
        (forall|j: int| 0 <= j < stack.len() ==> space.location(#[trigger] stack[j]) is None)
            ==> live_focus(stack, space).len() == 0,
    decreases stack.len(),
{
    if stack.len() > 0 {
        let n = stack.len() - 1;
        assert(stack.last() == stack[n]);
        if space.location(stack.last()) is Some {
            assert(stack.take(stack.len() as int) =~= stack);
        } else {
            let init = stack.drop_last();
            law_only_gone_are_taken_off(init, space, k);
            assert forall|j: int| 0 <= j < init.len() implies init[j] == stack[j] by {}
            if 0 <= k < stack.len() && space.location(stack[k]) is Some {
                assert(k < n);
                assert(init.take(k + 1) =~= stack.take(k + 1));
                if forall|j: int| k < j < stack.len() ==> space.location(#[trigger] stack[j]) is None {
                    assert forall|j: int| k < j < init.len() implies space.location(
                        #[trigger] init[j],
                    ) is None by {
                        assert(init[j] == stack[j]);
                    }
                }
            }
            if forall|j: int| 0 <= j < stack.len() ==> space.location(#[trigger] stack[j]) is None {
                assert forall|j: int| 0 <= j < init.len() implies space.location(
                    #[trigger] init[j],
                ) is None by {
                    assert(init[j] == stack[j]);
                }
            }
        }
    }
}

} // verus!
