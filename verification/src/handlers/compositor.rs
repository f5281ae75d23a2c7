//! What a surface's commit sets off.

use vstd::prelude::*;

use crate::state::ShoestringWm;
use crate::text::str_eq;

verus! {

/// What clients are told of a window whose title or application identifier has
/// changed.
#[derive(Debug)]
pub struct TitleChange {
    /// The new title, for those who list windows.
    pub title: Option<String>,
    /// The new application identifier, for those who list windows.
    pub app_id: Option<String>,
    /// The title under which the manager knows the window.
    pub shown_title: String,
    /// The application identifier as committed, or nothing.
    pub shown_app_id: String,
}

/// Whether a committed text is there and differs from the known one.
pub open spec fn differs(committed: Option<String>, known: Seq<char>) -> bool {
    committed matches Some(s) && s@ != known
}

/// A text after a commit.
pub open spec fn after_commit(committed: Option<String>, known: String) -> String {
    match committed {
        Some(s) => if s@ != known@ {
            s
        } else {
            known
        },
        None => known,
    }
}

fn changed(committed: &Option<String>, known: &str) -> (r: bool)
    ensures
        r == differs(*committed, known@),
{
    match committed {
        Some(s) => !str_eq(s.as_str(), known),
        None => false,
    }
}

fn copy_opt(s: &Option<String>) -> (r: Option<String>)
    ensures
        r == *s,
{
    match s {
        Some(t) => Some(t.clone()),
        None => None,
    }
}

impl ShoestringWm {
    /// A window's client has committed a title and an application identifier. The
    /// result is what clients are told; nothing where nothing is new. A title set
    /// over the client's own goes on being shown.
    pub fn sync_foreign_toplevel(
        &mut self,
        at: usize,
        title: Option<String>,
        app_id: Option<String>,
    ) -> (r: Option<TitleChange>)
        requires
            at < old(self).desktop.toplevels@.len(),
        ensures
            ({
                let t = old(self).desktop.toplevels@[at as int];
                let new_title = differs(title, t.title@);
                let new_app_id = differs(app_id, t.app_id@);
                let now = crate::desktop::Toplevel {
                    title: after_commit(title, t.title),
                    app_id: after_commit(app_id, t.app_id),
                    ..t
                };
                &&& final(self).desktop.toplevels@ == old(self).desktop.toplevels@.update(
                    at as int,
                    now,
                )
                &&& match r {
                    Some(c) => {
                        &&& new_title || new_app_id
                        &&& c.title == (if new_title {
                            title
                        } else {
                            None
                        })
                        &&& c.app_id == (if new_app_id {
                            app_id
                        } else {
                            None
                        })
                        &&& c.shown_title@ == final(self).desktop.title_of(now)
                        &&& c.shown_app_id@ == (match app_id {
                            Some(a) => a@,
                            None => Seq::empty(),
                        })
                    },
                    None => !new_title && !new_app_id,
                }
            }),
            *final(self) == (ShoestringWm {
                desktop: crate::desktop::Desktop {
                    toplevels: final(self).desktop.toplevels,
                    ..old(self).desktop
                },
                ..*old(self)
            }),
    {
        let ghost before = self.desktop.toplevels@;
        let new_title = changed(&title, self.desktop.toplevels[at].title.as_str());
        let new_app_id = changed(&app_id, self.desktop.toplevels[at].app_id.as_str());
        let told_title = if new_title {
            copy_opt(&title)
        } else {
            None
        };
        let told_app_id = if new_app_id {
            copy_opt(&app_id)
        } else {
            None
        };
        let shown_app_id = match &app_id {
            Some(a) => a.clone(),
            None => String::new(),
        };
        let t = &mut self.desktop.toplevels[at];
        if new_title {
            if let Some(s) = title {
                t.title = s;
            }
        }
        if new_app_id {
            if let Some(s) = app_id {
                t.app_id = s;
            }
        }
        assert(self.desktop.toplevels@ =~= before.update(
            at as int,
            crate::desktop::Toplevel {
                title: after_commit(title, before[at as int].title),
                app_id: after_commit(app_id, before[at as int].app_id),
                ..before[at as int]
            },
        ));
        if !new_title && !new_app_id {
            return None;
        }
        let (shown_title, _) = self.desktop.effective_title_app_id(&self.desktop.toplevels[at]);
        Some(TitleChange { title: told_title, app_id: told_app_id, shown_title, shown_app_id })
    }
}

/// What is done on a commit.
#[derive(Clone, Copy, Debug, PartialEq, Eq, Structural)]
pub enum CommitStep {
    /// The window takes its new size in.
    TakeIn { window: u64 },
    /// Clients are told of the window's title and application identifier.
    SyncTitle { window: u64 },
    /// Rules for the window's application are applied, the first time.
    ApplyRules { window: u64 },
    /// A window that waits for its size is centered.
    Recenter { window: u64 },
    RefreshIdle,
    /// Layer surfaces are arranged.
    Layers,
    /// Popups and windows are configured for the first time.
    Shells,
    /// A window that is being resized is moved along.
    Resizes,
    /// The lock is confirmed where it waits for that.
    ConfirmLock,
}

/// What is done on a commit for the window whose surface it is.
pub open spec fn window_steps(window: Option<u64>) -> Seq<CommitStep> {
    match window {
        Some(window) => seq![
            CommitStep::TakeIn { window },
            CommitStep::SyncTitle { window },
            CommitStep::ApplyRules { window },
            CommitStep::Recenter { window },
        ],
        None => Seq::empty(),
    }
}

impl ShoestringWm {
    /// What is done, in order, on a commit. `window` is the window whose surface
    /// is at the root of the committed one. A surface whose state waits for that
    /// of its parent, as `synced` tells, does not reach its window.
    pub fn commit(&self, synced: bool, window: Option<u64>) -> (r: Vec<CommitStep>)
        ensures
            r@ == (if synced {
                Seq::empty()
            } else {
                window_steps(window)
            }) + (if self.idle_inhibitors@.len() > 0 {
                seq![CommitStep::RefreshIdle]
            } else {
                Seq::empty()
            }) + seq![
                CommitStep::Layers,
                CommitStep::Shells,
                CommitStep::Resizes,
                CommitStep::ConfirmLock,
            ],
    {
        let mut r: Vec<CommitStep> = Vec::new();
        if !synced {
            if let Some(window) = window {
                r.push(CommitStep::TakeIn { window });
                r.push(CommitStep::SyncTitle { window });
                r.push(CommitStep::ApplyRules { window });
                r.push(CommitStep::Recenter { window });
                assert(r@ =~= window_steps(Some(window)));
            }
        }
        let ghost first = r@;
        if self.idle_inhibitors.len() > 0 {
            r.push(CommitStep::RefreshIdle);
        }
        let ghost second = r@;
        r.push(CommitStep::Layers);
        r.push(CommitStep::Shells);
        r.push(CommitStep::Resizes);
        r.push(CommitStep::ConfirmLock);
        assert(r@ =~= second + seq![
            CommitStep::Layers,
            CommitStep::Shells,
            CommitStep::Resizes,
            CommitStep::ConfirmLock,
        ]);
        r
    }
}

/// Whether a commit waits for the graphics card: it brings a new buffer of the
/// card, and a point in time at which that is ready.
pub fn waits_for_acquire(new_card_buffer: bool, has_acquire_point: bool) -> (r: bool)
    ensures
        r == (new_card_buffer && has_acquire_point),
{
    new_card_buffer && has_acquire_point
}

/// A committed text is news exactly where it is not the known one; it is then the known
/// one, and otherwise the known one stays.
pub proof fn law_committed_text(committed: Option<String>, known: String)
    ensures
        committed is None ==> !differs(committed, known@) && after_commit(committed, known)
            == known,
        committed matches Some(s) ==> {
            &&& differs(committed, known@) <==> s@ != known@
            &&& after_commit(committed, known)@ == s@
        },
        !differs(committed, known@) ==> after_commit(committed, known) == known,
{
}

/// On a commit of its surface a window first takes its size in, then its title is told,
/// then the rules are applied, and at last it is centered.
pub proof fn law_steps_of_a_commit(window: u64)
    ensures
        window_steps(None).len() == 0,
        window_steps(Some(window)).len() == 4,
        window_steps(Some(window))[0] == (CommitStep::TakeIn { window }),
        window_steps(Some(window))[1] == (CommitStep::SyncTitle { window }),
        window_steps(Some(window))[2] == (CommitStep::ApplyRules { window }),
        window_steps(Some(window))[3] == (CommitStep::Recenter { window }),
{
}

} // verus!
