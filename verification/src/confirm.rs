//! Asking the user before something is done: a helper program shows the question,
//! and its exit code is the answer.

use vstd::prelude::*;

use crate::state::ShoestringWm;

verus! {

/// What is done when the user agrees.
#[derive(Clone, Copy, Debug, PartialEq, Eq, Structural)]
pub enum OnAccept {
    /// Stop the manager.
    Quit,
}

/// A question that is being asked.
#[derive(Clone, Copy, Debug, PartialEq, Eq, Structural)]
pub struct PendingConfirm {
    /// The helper's process.
    pub pid: u32,
    /// The watch on its output.
    pub stdout_token: Option<u64>,
    pub on_accept: OnAccept,
}

/// How far starting the helper got.
#[derive(Clone, Copy, Debug, PartialEq, Eq, Structural)]
pub enum HelperStart {
    Failed,
    /// It runs, but its output cannot be read.
    NoOutput,
    /// It runs, but its output cannot be watched.
    NoWatch,
    Running { pid: u32, token: u64 },
}

/// What is left to do about the helper.
#[derive(Clone, Copy, Debug, PartialEq, Eq, Structural)]
pub enum HelperFate {
    Nothing,
    /// Kill it and wait for it.
    Kill,
    /// It shows the question.
    Shown,
}

/// How the helper has ended; a signal leaves no code.
#[derive(Clone, Copy, Debug, PartialEq, Eq, Structural)]
pub enum HelperExit {
    Code(i32),
    Signal,
    WaitFailed,
}

/// What is left to do once the helper has ended.
#[derive(Clone, Copy, Debug, PartialEq, Eq, Structural)]
pub struct ConfirmEnd {
    /// The watch to take down.
    pub unwatch: Option<u64>,
    /// What the user has agreed to.
    pub accepted: Option<OnAccept>,
}

/// What comes of starting the helper.
pub open spec fn asked(
    before: ShoestringWm,
    on_accept: OnAccept,
    start: HelperStart,
    after: ShoestringWm,
    fate: HelperFate,
) -> bool {
    match start {
        HelperStart::Running { pid, token } => if before.pending_confirm is None {
            &&& fate == HelperFate::Shown
            &&& after == (ShoestringWm {
                pending_confirm: Some(
                    PendingConfirm { pid, stdout_token: Some(token), on_accept },
                ),
                ..before
            })
        } else {
            fate == HelperFate::Kill && after == before
        },
        HelperStart::Failed => fate == HelperFate::Nothing && after == before,
        _ => fate == HelperFate::Kill && after == before,
    }
}

/// What comes of the helper's end.
pub open spec fn settled(
    before: ShoestringWm,
    exit: HelperExit,
    after: ShoestringWm,
    end: ConfirmEnd,
) -> bool {
    &&& after == (ShoestringWm { pending_confirm: None, ..before })
    &&& end == (match before.pending_confirm {
        Some(p) => ConfirmEnd {
            unwatch: p.stdout_token,
            accepted: if exit == HelperExit::Code(0) {
                Some(p.on_accept)
            } else {
                None
            },
        },
        None => ConfirmEnd { unwatch: None, accepted: None },
    })
}

/// What the user is asked about is done once and only where they agree: the
/// helper showed the question and ended with zero. A second end of the helper
/// does nothing.
pub proof fn law_only_a_yes_acts(
    before: ShoestringWm,
    on_accept: OnAccept,
    start: HelperStart,
    shown: ShoestringWm,
    fate: HelperFate,
    exit: HelperExit,
    after: ShoestringWm,
    end: ConfirmEnd,
    again: HelperExit,
    later: ShoestringWm,
    second: ConfirmEnd,
)
    requires
        before.pending_confirm is None,
        asked(before, on_accept, start, shown, fate),
        settled(shown, exit, after, end),
        settled(after, again, later, second),
    ensures
        end.accepted == (if start is Running && exit == HelperExit::Code(0) {
            Some(on_accept)
        } else {
            None
        }),
        second.accepted is None,
        later == before,
{
}

impl ShoestringWm {
    /// Whether a question may be asked now: only one at a time.
    pub fn may_confirm(&self) -> (r: bool)
        ensures
            r == (self.pending_confirm is None),
    {
        self.pending_confirm.is_none()
    }

    /// The helper was started, or could not be. Where it does not show the
    /// question, nothing is pending, so nothing will be done. A question that is
    /// being asked stays, and another one is dropped.
    pub fn confirm_action(&mut self, on_accept: OnAccept, start: HelperStart) -> (r: HelperFate)
        ensures
            asked(*old(self), on_accept, start, *final(self), r),
    {
        match start {
            HelperStart::Failed => HelperFate::Nothing,
            HelperStart::NoOutput => HelperFate::Kill,
            HelperStart::NoWatch => HelperFate::Kill,
            HelperStart::Running { pid, token } => {
                if self.pending_confirm.is_some() {
                    return HelperFate::Kill;
                }
                self.pending_confirm = Some(
                    PendingConfirm { pid, stdout_token: Some(token), on_accept },
                );
                HelperFate::Shown
            },
        }
    }

    /// The helper has ended. The watch on its output goes. What was asked for is
    /// done where the exit code is zero, and otherwise nothing.
    pub fn finalize_confirm(&mut self, exit: HelperExit) -> (r: ConfirmEnd)
        ensures
            settled(*old(self), exit, *final(self), r),
    {
        match self.pending_confirm.take() {
            Some(p) => {
                let accepted = match exit {
                    HelperExit::Code(code) => if code == 0 {
                        Some(p.on_accept)
                    } else {
                        None
                    },
                    _ => None,
                };
                ConfirmEnd { unwatch: p.stdout_token, accepted }
            },
            None => ConfirmEnd { unwatch: None, accepted: None },
        }
    }
}

/// A question shows exactly where its helper runs and no other question is being
/// asked; it is then remembered with the helper's process and watch. Otherwise nothing
/// is remembered anew, and a helper that runs all the same is killed.
pub proof fn law_one_question_at_a_time(
    before: ShoestringWm,
    on_accept: OnAccept,
    start: HelperStart,
    after: ShoestringWm,
    fate: HelperFate,
)
    requires
        asked(before, on_accept, start, after, fate),
    ensures
        fate is Shown <==> start is Running && before.pending_confirm is None,
        fate is Nothing <==> start is Failed,
        fate is Shown ==> after.pending_confirm == Some(
            PendingConfirm {
                pid: start->pid,
                stdout_token: Some(start->token),
                on_accept,
            },
        ),
        !(fate is Shown) ==> after == before,
{
}

/// Once a helper has ended no question is being asked, the watch on the helper goes,
/// and only an exit code of zero is a yes.
pub proof fn law_question_is_over(
    before: ShoestringWm,
    exit: HelperExit,
    after: ShoestringWm,
    end: ConfirmEnd,
)
    requires
        settled(before, exit, after, end),
    ensures
        after.pending_confirm is None,
        before.pending_confirm is None ==> end.unwatch is None && end.accepted is None,
        before.pending_confirm matches Some(p) ==> end.unwatch == p.stdout_token,
        end.accepted is Some <==> before.pending_confirm is Some && exit == HelperExit::Code(0),
{
}

/// Asking and settling a question changes nothing else of the manager.
pub proof fn law_questions_change_nothing_else(
    before: ShoestringWm,
    on_accept: OnAccept,
    start: HelperStart,
    shown: ShoestringWm,
    fate: HelperFate,
    exit: HelperExit,
    after: ShoestringWm,
    end: ConfirmEnd,
)
    requires
        asked(before, on_accept, start, shown, fate),
        settled(before, exit, after, end),
    ensures
        shown == (ShoestringWm { pending_confirm: shown.pending_confirm, ..before }),
        after == (ShoestringWm { pending_confirm: None, ..before }),
{
}

} // verus!
