//! Input: key bindings and their repeat, pointer buttons, motion and scrolling,
//! and the actions that they lead to.

use vstd::prelude::*;

use crate::binds::ModMask;
use crate::binds::ModifiersState;
use crate::config::clone_action;
use crate::config::Action;
use crate::geometry::Point;
use crate::geometry::Rect;
use crate::inject::ClickFocus;
use crate::inject::ClickPlan;
use crate::layout;
use crate::layout::GeometryChange;
use crate::layout::LayoutState;
use crate::layout::Window;
use crate::pointer::activates;
use crate::pointer::axis_frame;
use crate::pointer::hold;
use crate::pointer::motion_moves;
use crate::pointer::AxisInput;
use crate::pointer::AxisOutput;
use crate::pointer::ButtonPlan;
use crate::pointer::ButtonPress;
use crate::pointer::Constraint;
use crate::state::ShoestringWm;
use crate::text::clone_strings;
use crate::text::split_whitespace;

verus! {

pub const BTN_LEFT: u32 = 0x110;

pub const BTN_RIGHT: u32 = 0x111;

/// How long a key must be held before its binding repeats, in milliseconds.
pub const KEY_REPEAT_DELAY_MS: u64 = 600;

/// The time between repeats, in milliseconds.
pub const KEY_REPEAT_INTERVAL_MS: u64 = 250;

/// The keysym of the escape key.
pub const KEY_ESCAPE: u32 = 0xff1b;

/// The binding whose key is held, and its timer. At most one repeats.
#[derive(Debug)]
pub struct KeyRepeat {
    pub keycode: u32,
    pub action: Action,
    pub token: u64,
}

/// Whether an action repeats while its key is held.
pub open spec fn repeats(action: Action) -> bool {
    action is FocusWorkspaceRelative || action is MoveWindowToWorkspaceRelative
}

/// Whether an action repeats while its key is held: walking the workspaces does,
/// starting a program does not.
pub fn is_repeatable(action: &Action) -> (r: bool)
    ensures
        r == repeats(*action),
{
    match action {
        Action::FocusWorkspaceRelative { .. } => true,
        Action::MoveWindowToWorkspaceRelative { .. } => true,
        _ => false,
    }
}

/// What is to be done for an action.
#[derive(Debug)]
pub enum Command {
    Nothing,
    /// Start a program on this display.
    Spawn { command: String, args: Vec<String> },
    /// Ask the user, then stop.
    ConfirmQuit,
    ReloadConfig,
    ApplyGeometry(GeometryChange),
    Hide(HidePlan),
    Show(ShowPlan),
    Close(u64),
    /// Raise the window and give it the keyboard focus.
    Focus(u64),
    Raise(u64),
    Lower(u64),
    ToggleSticky,
    ToggleAlwaysOnTop,
    FocusWorkspace(u8),
    /// Move the focused window to the workspace and go there.
    MoveToWorkspace(u8),
    ChangeVt(u8),
    /// Look the keysym up and inject the key.
    InjectKey(String),
    /// Send the key events that were queued.
    SendKeys,
    Click(ClickPlan),
    CycleLayout,
    /// Start the media helper.
    Media { subject: &'static str, verb: &'static str },
}

/// A window to hide.
#[derive(Clone, Copy, Debug, PartialEq, Eq, Structural)]
pub struct HidePlan {
    pub window: u64,
    /// Whether the keyboard focus was on it and has to be cleared.
    pub clear_focus: bool,
}

/// A window to map at a place, put on a workspace and focus.
#[derive(Clone, Copy, Debug, PartialEq, Eq, Structural)]
pub struct ShowPlan {
    pub window: u64,
    pub loc: Point,
    pub workspace: u8,
}

/// The workspace `delta` steps from `active`, at most to the first or the last.
pub open spec fn shifted_workspace(active: u8, count: u8, delta: int) -> u8 {
    crate::geometry::clamp(active + delta, 1, count as int) as u8
}

/// The workspace `delta` steps away; walking stops at the first and the last.
pub fn shifted(active: u8, count: u8, delta: i32) -> (r: u8)
    requires
        1 <= count,
    ensures
        r == shifted_workspace(active, count, delta as int),
        1 <= r <= count,
{
    let t: i64 = active as i64 + delta as i64;
    if t < 1 {
        1
    } else if t > count as i64 {
        count
    } else {
        t as u8
    }
}

/// Whether a list of words is a program with the arguments.
pub open spec fn is_command(cmd: Command, words: Seq<Seq<char>>) -> bool {
    match cmd {
        Command::Spawn { command, args } => {
            &&& words.len() > 0
            &&& command@ == words[0]
            &&& crate::text::views(args@) == words.drop_first()
        },
        _ => false,
    }
}

/// A command line split into a program and its arguments; none where it is
/// empty.
pub fn command_of(line: &str) -> (r: Command)
    ensures
        crate::text::words(line@).len() == 0 ==> r is Nothing,
        crate::text::words(line@).len() > 0 ==> is_command(r, crate::text::words(line@)),
{
    let words = split_whitespace(line);
    if words.len() == 0 {
        assert(crate::text::views(words@).len() == 0);
        return Command::Nothing;
    }
    let ghost all = crate::text::views(words@);
    let mut args: Vec<String> = Vec::new();
    let mut i: usize = 1;
    while i < words.len()
        invariant
            1 <= i <= words@.len(),
            args@ == words@.subrange(1, i as int),
        decreases words@.len() - i,
    {
        args.push(words[i].clone());
        i += 1;
    }
    assert(crate::text::views(args@) =~= all.drop_first());
    Command::Spawn { command: words[0].clone(), args }
}

/// What the keyboard does with a key event.
#[derive(Debug)]
pub enum KeyVerdict {
    /// The client with the focus gets it.
    Forward,
    /// No client gets it; `cancel` ends the window picker.
    Swallow { cancel: bool },
    /// A binding takes it.
    Act(Action),
}

/// What comes of a key event.
#[derive(Debug)]
pub struct KeyOutcome {
    /// The repeat timer to stop.
    pub stop: Option<u64>,
    pub verdict: KeyVerdict,
}

/// Whether a verdict is to carry out the action of the binding at `i`.
pub open spec fn acts(v: KeyVerdict, binds: Seq<crate::binds::CompiledBind>, i: int) -> bool {
    match v {
        KeyVerdict::Act(a) => crate::config::same_action(binds[i].action, a),
        _ => false,
    }
}

/// The timer of a binding that repeats.
pub open spec fn timer_of(repeat: Option<KeyRepeat>) -> Option<u64> {
    match repeat {
        Some(kr) => Some(kr.token),
        None => None,
    }
}

/// What the action of a bound key does to the repeat: one that repeats takes the
/// place of what repeated before, any other ends it. `stop` is the timer to stop.
pub open spec fn key_acted(
    before: Option<KeyRepeat>,
    keycode: u32,
    action: Action,
    token: Option<u64>,
    after: Option<KeyRepeat>,
    stop: Option<u64>,
) -> bool {
    &&& stop == timer_of(before)
    &&& match after {
        Some(kr) => repeats(action) && token == Some(kr.token) && kr.keycode == keycode
            && crate::config::same_action(action, kr.action),
        None => !repeats(action) || token is None,
    }
}

/// Something that happens to the repeat: a key event, with the timer that it stops,
/// or an action of a bound key, with the timer that was started for it and the one
/// that it stops.
pub enum RepeatEvent {
    Key { keycode: u32, pressed: bool, stop: Option<u64> },
    Acted { keycode: u32, action: Action, token: Option<u64>, stop: Option<u64> },
}

/// Whether an event leads from one repeat to the next. A timer is started only for
/// an action that repeats.
pub open spec fn repeat_step(
    before: Option<KeyRepeat>,
    e: RepeatEvent,
    after: Option<KeyRepeat>,
) -> bool {
    match e {
        RepeatEvent::Key { keycode, pressed, stop } => key_ends(
            before,
            keycode,
            pressed,
            stop,
            after,
        ),
        RepeatEvent::Acted { keycode, action, token, stop } => {
            &&& token is Some ==> repeats(action)
            &&& key_acted(before, keycode, action, token, after, stop)
        },
    }
}

/// What a key event does to the repeat: releasing the key whose binding repeats
/// ends it. `stop` is the timer to stop.
pub open spec fn key_ends(
    before: Option<KeyRepeat>,
    keycode: u32,
    pressed: bool,
    stop: Option<u64>,
    after: Option<KeyRepeat>,
) -> bool {
    if !pressed && before is Some && before->0.keycode == keycode {
        stop == timer_of(before) && after is None
    } else {
        stop is None && after == before
    }
}

/// The timers that run after an event.
pub open spec fn timers_after(running: Set<u64>, e: RepeatEvent) -> Set<u64> {
    let (stop, start) = match e {
        RepeatEvent::Key { stop, .. } => (stop, None),
        RepeatEvent::Acted { token, stop, .. } => (stop, token),
    };
    let left = match stop {
        Some(t) => running.remove(t),
        None => running,
    };
    match start {
        Some(t) => left.insert(t),
        None => left,
    }
}

/// The timer of a repeat, if there is one, and no other.
pub open spec fn only_timer(repeat: Option<KeyRepeat>) -> Set<u64> {
    match timer_of(repeat) {
        Some(t) => Set::empty().insert(t),
        None => Set::empty(),
    }
}

/// However keys are pressed and released, at most one timer runs: that of the
/// binding that repeats.
pub proof fn law_one_repeat_timer(
    kept: Seq<Option<KeyRepeat>>,
    running: Seq<Set<u64>>,
    events: Seq<RepeatEvent>,
    k: int,
)
    requires
        kept.len() == events.len() + 1,
        running.len() == events.len() + 1,
        running[0] == only_timer(kept[0]),
        forall|i: int|
            #![trigger events[i]]
            0 <= i < events.len() ==> repeat_step(kept[i], events[i], kept[i + 1])
                && running[i + 1] == timers_after(running[i], events[i]),
        0 <= k < kept.len(),
    ensures
        running[k] == only_timer(kept[k]),
    decreases k,
{
    if k > 0 {
        law_one_repeat_timer(kept, running, events, k - 1);
        let e = events[k - 1];
        assert(repeat_step(kept[k - 1], e, kept[k]));
        assert(running[k] =~= only_timer(kept[k]));
    }
}

/// What comes of a key event: releasing the key whose binding repeats ends the
/// repeat. While a window is being picked no client sees keys, and escape ends
/// the picking. A release goes to the client, a press to the binding that takes
/// it, else to the client.
pub open spec fn key_outcome(
    before: ShoestringWm,
    keycode: u32,
    pressed: bool,
    sym: Option<u32>,
    mods: ModifiersState,
    r: KeyOutcome,
    after: ShoestringWm,
) -> bool {
    &&& key_ends(before.key_repeat, keycode, pressed, r.stop, after.key_repeat)
    &&& after == (ShoestringWm { key_repeat: after.key_repeat, ..before })
    &&& if before.pending_picker is Some {
        r.verdict == (KeyVerdict::Swallow { cancel: pressed && sym == Some(KEY_ESCAPE) })
    } else if !pressed {
        r.verdict is Forward
    } else {
        &&& forall|i: int| #[trigger] before.takes(mods, sym, i) ==> acts(
            r.verdict,
            before.bindings.binds@,
            i,
        )
        &&& (forall|i: int| !before.takes(mods, sym, i)) ==> r.verdict is Forward
    }
}

impl ShoestringWm {
    /// Whether the binding at `i` takes a press of the key: it is the first for
    /// the modifiers and the key, and while the session is locked it switches
    /// the virtual terminal.
    pub open spec fn takes(self, mods: ModifiersState, sym: Option<u32>, i: int) -> bool {
        &&& sym is Some
        &&& crate::binds::first_bound(
            self.bindings.binds@,
            ModMask { bits: crate::binds::state_bits(mods) },
            sym->0,
            i,
        )
        &&& self.lock_session is Some ==> self.bindings.binds@[i].action is ChangeVt
    }

    /// What the keyboard does with a key event. While a window is being picked
    /// no client sees keys, and escape ends the picking. A release goes to the
    /// client. A press goes to the binding that takes it, else to the client.
    pub fn key_filter(&self, pressed: bool, sym: Option<u32>, mods: &ModifiersState) -> (r:
        KeyVerdict)
        ensures
            if self.pending_picker is Some {
                r == (KeyVerdict::Swallow { cancel: pressed && sym == Some(KEY_ESCAPE) })
            } else if !pressed {
                r is Forward
            } else {
                &&& forall|i: int| #[trigger] self.takes(*mods, sym, i) ==> acts(
                    r,
                    self.bindings.binds@,
                    i,
                )
                &&& (forall|i: int| !self.takes(*mods, sym, i)) ==> r is Forward
            },
    {
        if self.pending_picker.is_some() {
            let cancel = match sym {
                Some(s) => pressed && s == KEY_ESCAPE,
                None => false,
            };
            return KeyVerdict::Swallow { cancel };
        }
        if !pressed {
            return KeyVerdict::Forward;
        }
        let s = match sym {
            Some(s) => s,
            None => {
                return KeyVerdict::Forward;
            },
        };
        let mask = ModMask::from_state(mods);
        match self.bindings.lookup(mask, s) {
            Some(a) => {
                proof {
                    let i = choose|i: int|
                        #[trigger] crate::binds::first_bound(self.bindings.binds@, mask, s, i) && *a
                            == self.bindings.binds@[i].action;
                    assert forall|k: int| #[trigger] self.takes(*mods, sym, k) implies k == i by {
                        lemma_first_bound_unique(self.bindings.binds@, mask, s, i, k);
                    }
                    assert(self.takes(*mods, sym, i) || self.lock_session is Some);
                }
                let vt = match a {
                    Action::ChangeVt { .. } => true,
                    _ => false,
                };
                if self.is_locked() && !vt {
                    KeyVerdict::Forward
                } else {
                    KeyVerdict::Act(clone_action(a))
                }
            },
            None => KeyVerdict::Forward,
        }
    }

    /// A key goes down or up. Releasing the key whose binding repeats ends the
    /// repeat first. A key that acts is followed by
    /// [`ShoestringWm::start_key_repeat`] where its action repeats, and by
    /// [`ShoestringWm::cancel_key_repeat`] where it does not.
    pub fn on_key(
        &mut self,
        keycode: u32,
        pressed: bool,
        sym: Option<u32>,
        mods: &ModifiersState,
    ) -> (r: KeyOutcome)
        ensures
            key_outcome(*old(self), keycode, pressed, sym, *mods, r, *final(self)),
    {
        let mut stop: Option<u64> = None;
        if !pressed {
            let ends = match &self.key_repeat {
                Some(kr) => kr.keycode == keycode,
                None => false,
            };
            if ends {
                stop = self.cancel_key_repeat();
            }
        }
        let verdict = self.key_filter(pressed, sym, mods);
        KeyOutcome { stop, verdict }
    }

    /// Replaces the repeating binding. `token` is the new timer, none where it
    /// could not be set up. The result is the timer to stop.
    pub fn start_key_repeat(&mut self, keycode: u32, action: &Action, token: Option<u64>) -> (r:
        Option<u64>)
        ensures
            r == (match old(self).key_repeat {
                Some(kr) => Some(kr.token),
                None => None,
            }),
            *final(self) == (ShoestringWm { key_repeat: final(self).key_repeat, ..*old(self) }),
            match (token, final(self).key_repeat) {
                (Some(t), Some(kr)) => kr.token == t && kr.keycode == keycode
                    && crate::config::same_action(*action, kr.action),
                (None, None) => true,
                _ => false,
            },
    {
        let stop = self.cancel_key_repeat();
        if let Some(t) = token {
            self.key_repeat = Some(KeyRepeat { keycode, action: clone_action(action), token: t });
        }
        stop
    }

    /// The action of a bound key has been dispatched: one that repeats takes the
    /// place of what repeated before, any other ends it. `token` is the timer of
    /// one that repeats, none where it could not be set up. The result is the
    /// timer to stop.
    pub fn bound_key_acted(&mut self, keycode: u32, action: &Action, token: Option<u64>) -> (r:
        Option<u64>)
        ensures
            *final(self) == (ShoestringWm { key_repeat: final(self).key_repeat, ..*old(self) }),
            key_acted(old(self).key_repeat, keycode, *action, token, final(self).key_repeat, r),
    {
        if is_repeatable(action) {
            self.start_key_repeat(keycode, action, token)
        } else {
            self.cancel_key_repeat()
        }
    }

    /// The action to dispatch again when the repeat timer fires.
    pub fn tick_key_repeat(&self) -> (r: Option<Action>)
        ensures
            match (self.key_repeat, r) {
                (Some(kr), Some(a)) => crate::config::same_action(kr.action, a),
                (None, None) => true,
                _ => false,
            },
    {
        match &self.key_repeat {
            Some(kr) => Some(clone_action(&kr.action)),
            None => None,
        }
    }

    /// Ends the repeat. The result is the timer to stop.
    pub fn cancel_key_repeat(&mut self) -> (r: Option<u64>)
        ensures
            r == (match old(self).key_repeat {
                Some(kr) => Some(kr.token),
                None => None,
            }),
            *final(self) == (ShoestringWm { key_repeat: None, ..*old(self) }),
    {
        match self.key_repeat.take() {
            Some(kr) => Some(kr.token),
            None => None,
        }
    }

    /// The command for the lock key: the configured program, unless the session
    /// is locked or no program is configured.
    pub fn spawn_lock(&self) -> (r: Command)
        ensures
            ({
                let words = crate::text::words(self.config.lock_command@);
                if self.lock_session is Some || words.len() == 0 {
                    r is Nothing
                } else {
                    is_command(r, words)
                }
            }),
    {
        if self.is_locked() {
            return Command::Nothing;
        }
        command_of(self.config.lock_command.as_str())
    }

    /// Tiles or maximizes the focused window, or undoes it.
    pub fn window_layout_action(&mut self, target: LayoutState) -> (r: Option<GeometryChange>)
        requires
            old(self).desktop.space.fits(),
            layout::is_tile(target),
        ensures
            final(self).same_but_layout(*old(self)),
            final(self).desktop.layout.minimized == old(self).desktop.layout.minimized,
            layout_action_done(
                old(self).desktop,
                target,
                final(self).desktop.layout.meta@,
                r,
            ),
    {
        match self.desktop.focused {
            Some(window) => layout::set_layout(
                &self.desktop.space,
                &mut self.desktop.layout,
                window,
                target,
            ),
            None => None,
        }
    }

    /// Whether nothing but the layout records differs.
    pub open spec fn same_but_layout(self, other: ShoestringWm) -> bool {
        self == (ShoestringWm {
            desktop: crate::desktop::Desktop { layout: self.desktop.layout, ..other.desktop },
            ..other
        })
    }

    /// Makes a window cover an output: the one that its client names, else its
    /// own. `named` is the rectangle of the named output.
    pub fn fullscreen_window(&mut self, window: Window, named: Option<Rect>) -> (r: Option<
        GeometryChange,
    >)
        ensures
            final(self).same_but_layout(*old(self)),
            final(self).desktop.layout.minimized == old(self).desktop.layout.minimized,
            ({
                let area = match named {
                    Some(geo) => Some(geo),
                    None => layout::area_of(old(self).desktop.space, window),
                };
                match area {
                    Some(geo) => {
                        &&& r == Some(
                            layout::change_to(window.id, geo, LayoutState::Fullscreen),
                        )
                        &&& final(self).desktop.layout.meta@
                            == old(self).desktop.layout.meta@.insert(
                            window.id,
                            layout::fullscreened(
                                old(self).desktop.layout.meta_of(window.id),
                                layout::rect_of(old(self).desktop.space, window),
                            ),
                        )
                    },
                    None => r is None && final(self).desktop.layout.meta@
                        == old(self).desktop.layout.meta@,
                }
            }),
    {
        let area = match named {
            Some(geo) => Some(geo),
            None => layout::output_rect_for(&self.desktop.space, window),
        };
        match area {
            Some(geo) => Some(
                layout::set_fullscreen(
                    &self.desktop.space,
                    &mut self.desktop.layout,
                    window,
                    geo,
                ),
            ),
            None => None,
        }
    }

    /// Ends fullscreen, back to the layout before it.
    pub fn unfullscreen_window(&mut self, window: Window) -> (r: Option<GeometryChange>)
        requires
            old(self).desktop.space.fits(),
        ensures
            final(self).same_but_layout(*old(self)),
            final(self).desktop.layout.minimized == old(self).desktop.layout.minimized,
            ({
                let meta = old(self).desktop.layout.meta_of(window.id);
                let usable = layout::usable_of(old(self).desktop.space, window);
                if meta.layout == LayoutState::Fullscreen && usable is Some {
                    let t = layout::unfullscreened(
                        meta,
                        layout::rect_of(old(self).desktop.space, window),
                        usable->0,
                    );
                    &&& final(self).desktop.layout.meta@ == old(self).desktop.layout.meta@.insert(
                        window.id,
                        t.0,
                    )
                    &&& r == Some(layout::change_to(window.id, t.1, t.2))
                } else {
                    r is None && final(self).desktop.layout.meta@
                        == old(self).desktop.layout.meta@
                }
            }),
    {
        layout::unset_fullscreen(&self.desktop.space, &mut self.desktop.layout, window)
    }

    /// Hides a window, whichever has the focus. A window that is hidden already
    /// is left alone. The focus is given up only where the window has it.
    pub fn minimize_window(&mut self, window: Window) -> (r: Option<HidePlan>)
        ensures
            *final(self) == (ShoestringWm { desktop: final(self).desktop, ..*old(self) }),
            hide_done(old(self).desktop, window, final(self).desktop, r),
    {
        if self.desktop.layout.is_minimized(window.id) {
            return None;
        }
        let rect = layout::current_rect(&self.desktop.space, window);
        let clear_focus = match self.desktop.focused {
            Some(f) => f.id == window.id,
            None => false,
        };
        self.desktop.workspaces.forget(window.id);
        self.desktop.layout.push_minimized(window.id, rect);
        Some(HidePlan { window: window.id, clear_focus })
    }

    /// Hides the focused window.
    pub fn minimize_focused(&mut self) -> (r: Option<HidePlan>)
        ensures
            *final(self) == (ShoestringWm { desktop: final(self).desktop, ..*old(self) }),
            match old(self).desktop.focused {
                Some(w) => hide_done(old(self).desktop, w, final(self).desktop, r),
                None => r is None && *final(self) == *old(self),
            },
    {
        match self.desktop.focused {
            Some(window) => self.minimize_window(window),
            None => None,
        }
    }

    /// Brings a hidden window back to where it was, onto the active workspace. A
    /// window that is not hidden is left alone.
    pub fn unminimize_window(&mut self, window: u64) -> (r: Option<ShowPlan>)
        ensures
            *final(self) == (ShoestringWm { desktop: final(self).desktop, ..*old(self) }),
            match r {
                Some(p) => exists|i: int|
                    {
                        &&& #[trigger] old(self).desktop.layout.stacked_at(window, i)
                        &&& p == show_at(
                            old(self).desktop,
                            old(self).desktop.layout.minimized@[i],
                        )
                        &&& brought_back(
                            old(self).desktop,
                            old(self).desktop.layout.minimized@.remove(i),
                            window,
                            final(self).desktop,
                        )
                    },
                None => !old(self).desktop.minimized(window) && same_but_stack(
                    old(self).desktop,
                    old(self).desktop.layout.minimized@,
                    final(self).desktop,
                ),
            },
    {
        match self.desktop.layout.take_minimized(window) {
            Some(rect) => {
                let workspace = self.desktop.workspaces.assign_active(window);
                Some(ShowPlan { window, loc: rect.loc, workspace })
            },
            None => None,
        }
    }

    /// Brings back the window that was hidden last and is still alive, onto the
    /// active workspace. Dead windows above it are dropped.
    pub fn unminimize_last(&mut self, alive: &Vec<u64>) -> (r: Option<ShowPlan>)
        ensures
            *final(self) == (ShoestringWm { desktop: final(self).desktop, ..*old(self) }),
            restore_done(old(self).desktop, alive@, final(self).desktop, r),
    {
        match self.desktop.layout.pop_live_minimized(alive) {
            Some(e) => {
                proof {
                    let i = choose|i: int|
                        {
                            &&& 0 <= i < old(self).desktop.layout.minimized@.len()
                            &&& #[trigger] old(self).desktop.layout.minimized@[i] == e
                            &&& alive@.contains(e.0)
                            &&& self.desktop.layout.minimized@
                                == old(self).desktop.layout.minimized@.take(i)
                            &&& forall|j: int|
                                i < j < old(self).desktop.layout.minimized@.len()
                                    ==> !alive@.contains(
                                    (#[trigger] old(self).desktop.layout.minimized@[j]).0,
                                )
                        };
                    assert(last_alive(old(self).desktop.layout.minimized@, alive@, i));
                }
                let workspace = self.desktop.workspaces.assign_active(e.0);
                Some(ShowPlan { window: e.0, loc: e.1.loc, workspace })
            },
            None => {
                assert(self.desktop.layout.minimized@ =~= Seq::empty());
                None
            },
        }
    }

    /// The window to close: the focused one.
    pub fn close_focused(&self) -> (r: Option<u64>)
        ensures
            r == (match self.desktop.focused {
                Some(w) => Some(w.id),
                None => None,
            }),
    {
        match self.desktop.focused {
            Some(w) => Some(w.id),
            None => None,
        }
    }

    /// The next window in the round: the lowest mapped window without the focus.
    /// There is no round with fewer than two windows.
    pub fn cycle_windows(&self) -> (r: Option<u64>)
        ensures
            cycle_done(self.desktop, r),
    {
        let space = &self.desktop.space;
        if space.elements.len() < 2 {
            return None;
        }
        let mut i: usize = 0;
        while i < space.elements.len()
            invariant
                i <= space.elements@.len(),
                *space == self.desktop.space,
                space.elements@.len() >= 2,
                forall|j: int|
                    0 <= j < i ==> self.desktop.has_focus((#[trigger] space.elements@[j]).window.id),
            decreases space.elements@.len() - i,
        {
            let id = space.elements[i].window.id;
            let focused = match self.desktop.focused {
                Some(f) => f.id == id,
                None => false,
            };
            if !focused {
                assert(next_in_round(self.desktop, i as int));
                return Some(id);
            }
            i += 1;
        }
        None
    }

    /// Raises or lowers the focused window; the focus stays where it is.
    pub fn restack_focused(&self, up: bool) -> (r: Command)
        ensures
            match self.desktop.focused {
                Some(w) => if up {
                    r == Command::Raise(w.id)
                } else {
                    r == Command::Lower(w.id)
                },
                None => r is Nothing,
            },
    {
        match self.desktop.focused {
            Some(w) => if up {
                Command::Raise(w.id)
            } else {
                Command::Lower(w.id)
            },
            None => Command::Nothing,
        }
    }

    /// Whether input has to be reported as activity.
    pub fn notify_idle_activity(&self) -> (r: bool)
        ensures
            r == self.idle_notifier,
    {
        self.idle_notifier
    }

    /// Carries out an action as far as the manager's own state goes; what is
    /// left to do comes back as a command. `alive` lists the windows whose
    /// clients are still there.
    pub fn dispatch_action(&mut self, action: &Action, alive: &Vec<u64>) -> (r: Command)
        requires
            old(self).desktop.space.fits(),
            old(self).desktop.workspaces.count >= 1,
        ensures
            dispatched(*old(self), *action, alive@, *final(self), r),
    {
        match action {
            Action::Spawn { command, args } => Command::Spawn {
                command: command.clone(),
                args: clone_strings(args),
            },
            Action::Quit => Command::ConfirmQuit,
            Action::ReloadConfig => Command::ReloadConfig,
            Action::TileLeft => geometry_command(self.window_layout_action(LayoutState::TiledLeft)),
            Action::TileRight => geometry_command(
                self.window_layout_action(LayoutState::TiledRight),
            ),
            Action::Maximize => geometry_command(self.window_layout_action(LayoutState::Maximized)),
            Action::Minimize => {
                if self.desktop.focused.is_some() {
                    hide_command(self.minimize_focused())
                } else {
                    show_command(self.unminimize_last(alive))
                }
            },
            Action::Unminimize => show_command(self.unminimize_last(alive)),
            Action::Close => match self.close_focused() {
                Some(w) => Command::Close(w),
                None => Command::Nothing,
            },
            Action::CycleWindows => match self.cycle_windows() {
                Some(w) => Command::Focus(w),
                None => Command::Nothing,
            },
            Action::Raise => self.restack_focused(true),
            Action::Lower => self.restack_focused(false),
            Action::ToggleSticky => Command::ToggleSticky,
            Action::ToggleAlwaysOnTop => Command::ToggleAlwaysOnTop,
            Action::FocusWorkspace { index } => {
                if 1 <= *index && *index <= self.desktop.workspaces.count {
                    Command::FocusWorkspace(*index)
                } else {
                    Command::Nothing
                }
            },
            Action::FocusWorkspaceRelative { delta } => Command::FocusWorkspace(
                shifted(
                    self.desktop.workspaces.active,
                    self.desktop.workspaces.count,
                    *delta as i32,
                ),
            ),
            Action::MoveWindowToWorkspace { index } => {
                if 1 <= *index && *index <= self.desktop.workspaces.count {
                    Command::MoveToWorkspace(*index)
                } else {
                    Command::Nothing
                }
            },
            Action::MoveWindowToWorkspaceRelative { delta } => Command::MoveToWorkspace(
                shifted(
                    self.desktop.workspaces.active,
                    self.desktop.workspaces.count,
                    *delta as i32,
                ),
            ),
            Action::ChangeVt { vt } => Command::ChangeVt(*vt),
            Action::InjectKey { keysym } => Command::InjectKey(keysym.clone()),
            Action::InjectText { text } => {
                let _ = self.inject_text(text.as_str());
                Command::SendKeys
            },
            Action::InjectClick { button } => match self.inject_click(button.as_str(), None) {
                Ok(p) => Command::Click(p),
                Err(_) => Command::Nothing,
            },
            Action::Lock => self.spawn_lock(),
            Action::CycleLayout => Command::CycleLayout,
            Action::ToggleAudioMute => Command::Media { subject: "audio-mute", verb: "toggle" },
            Action::ToggleMicMute => Command::Media { subject: "mic-mute", verb: "toggle" },
        }
    }
}

/// What is around the pointer once it has moved.
#[derive(Clone, Copy, Debug)]
pub struct PointerSpot {
    /// Whether a grab has the pointer.
    pub grabbed: bool,
    /// Whether anything has the keyboard focus.
    pub keyboard_focus: bool,
    /// The window under the pointer.
    pub window: Option<u64>,
}

/// A relative motion of the pointer. Its new place is limited to the rectangle
/// around all outputs.
#[derive(Clone, Copy, Debug)]
pub struct MotionInput {
    /// The constraint on the surface under the pointer.
    pub constraint: Option<Constraint>,
    /// Whether that surface is also under the new place.
    pub same_surface: bool,
    /// Whether the new place is in the constraint's region, if it has one.
    pub inside: Option<bool>,
    /// The constraint on the surface under the new place.
    pub next: Option<Constraint>,
    pub spot: PointerSpot,
}

/// What a scroll event comes from.
#[derive(Clone, Copy, Debug, PartialEq, Eq, Structural)]
pub enum ScrollSource {
    Wheel,
    Finger,
    Other,
}

/// A scroll event.
#[derive(Clone, Copy, Debug)]
pub struct ScrollInput {
    pub source: ScrollSource,
    pub horizontal: AxisInput,
    pub vertical: AxisInput,
    /// The vertical travel; see [`crate::pointer::NOTCH`].
    pub travel: i64,
    /// Whether a grab has the pointer.
    pub grabbed: bool,
    /// Whether any surface is under the pointer.
    pub surface: bool,
}

/// The axes of a tablet tool that have changed.
#[derive(Clone, Copy, Debug, PartialEq, Eq, Structural)]
pub struct ToolAxes {
    pub pressure: bool,
    pub distance: bool,
    pub tilt: bool,
    pub slider: bool,
    pub rotation: bool,
    pub wheel: bool,
}

/// An input event, with what is known of the seat and of the place that it is
/// for. A tablet event is of a known tool, or of a known tablet and tool.
#[derive(Clone, Copy, Debug)]
#[allow(inconsistent_fields)]
pub enum InputEvent {
    Keyboard { keycode: u32, pressed: bool, sym: Option<u32>, mods: ModifiersState },
    PointerMotion(MotionInput),
    PointerMotionAbsolute(PointerSpot),
    PointerButton(ButtonPress),
    PointerAxis(ScrollInput),
    DeviceAdded { tablet: bool },
    /// `left` counts the tablets that are still there.
    DeviceRemoved { tablet: bool, left: usize },
    TabletToolAxis { known: bool, changed: ToolAxes },
    TabletToolProximity { surface: bool, known: bool, near: bool },
    TabletToolTip { known: bool, down: bool, window: Option<u64> },
    TabletToolButton { known: bool },
    Other,
}

/// What comes of an input event.
#[derive(Debug)]
#[allow(inconsistent_fields)]
pub enum InputPlan {
    Nothing,
    Key(KeyOutcome),
    /// The motion is reported as relative. Where the pointer moves, its client is
    /// told, then the focus changes, then the constraint at the new place takes
    /// hold if `activate` says so.
    Motion { moves: bool, focus: ClickFocus, activate: bool },
    /// The pointer moves to the place in the rectangle, then the focus changes.
    MotionAbsolute { area: Rect, focus: ClickFocus },
    Button(ButtonPlan),
    /// The workspaces to go to. No client sees the event.
    ScrollDesktop(Vec<u8>),
    Scroll { horizontal: AxisOutput, vertical: AxisOutput },
    AddTablet,
    RemoveTablet { clear_tools: bool },
    /// The pointer moves to the place in the rectangle; then the axes and the
    /// motion go on to the client.
    ToolMotion { area: Rect, axes: Option<ToolAxes> },
    /// The pointer moves to the place in the rectangle; then the client is told
    /// that the tool is near, or that it is not.
    ToolProximity { area: Rect, tell: Option<bool> },
    /// The window is focused, then the client is told.
    ToolTip { down: bool, focus: Option<u64> },
    ToolButton,
}

/// Whether an input event is activity of the user; plugging in a device is not.
pub open spec fn is_activity(event: InputEvent) -> bool {
    !(event is DeviceAdded || event is DeviceRemoved)
}

/// What comes of a relative motion of the pointer.
pub open spec fn motion_plan(wm: ShoestringWm, m: MotionInput) -> InputPlan {
    let moves = crate::pointer::stays_held(
        crate::pointer::hold_of(m.constraint),
        m.same_surface,
        m.inside,
    );
    InputPlan::Motion {
        moves,
        focus: if moves {
            crate::pointer::followed(wm, m.spot.grabbed, m.spot.keyboard_focus, m.spot.window)
        } else {
            ClickFocus::Keep
        },
        activate: moves && crate::pointer::takes_hold(m.next),
    }
}

/// Whether a scroll event switches workspaces: a wheel with vertical travel over
/// the bare desktop does.
pub open spec fn desktop_scrolls(wm: ShoestringWm, s: ScrollInput) -> bool {
    &&& s.source == ScrollSource::Wheel
    &&& s.vertical.moved
    &&& wm.pending_picker is None
    &&& wm.lock_session is None
    &&& !s.grabbed
    &&& !s.surface
}

/// Whether `plan` is what comes of an input event.
pub open spec fn processed(
    before: ShoestringWm,
    event: InputEvent,
    plan: InputPlan,
    after: ShoestringWm,
) -> bool {
    let area = crate::pointer::area(before.desktop.space, 0);
    match event {
        InputEvent::Keyboard { keycode, pressed, sym, mods } => match plan {
            InputPlan::Key(r) => key_outcome(before, keycode, pressed, sym, mods, r, after),
            _ => false,
        },
        InputEvent::PointerMotion(m) => after == before && plan == motion_plan(before, m),
        InputEvent::PointerMotionAbsolute(s) => after == before && plan == match area {
            Some(area) => InputPlan::MotionAbsolute {
                area,
                focus: crate::pointer::followed(before, s.grabbed, s.keyboard_focus, s.window),
            },
            None => InputPlan::Nothing,
        },
        InputEvent::PointerButton(b) => after == before && plan == InputPlan::Button(
            crate::pointer::button_plan(
                before.pending_picker is Some,
                before.lock_session is Some,
                b,
            ),
        ),
        InputEvent::PointerAxis(s) => if desktop_scrolls(before, s) {
            let walk = crate::pointer::scroll_walk(
                crate::pointer::scroll_start(before.desktop_scroll_accum as int, s.travel as int),
                before.scroll_threshold(),
                before.desktop.workspaces.active,
                before.desktop.workspaces.count,
            );
            &&& match plan {
                InputPlan::ScrollDesktop(targets) => targets@ == walk.0,
                _ => false,
            }
            &&& after == (ShoestringWm {
                desktop_scroll_accum: after.desktop_scroll_accum,
                ..before
            })
            &&& after.desktop_scroll_accum == walk.1
        } else {
            let finger = s.source == ScrollSource::Finger;
            after == before && plan == (InputPlan::Scroll {
                horizontal: crate::pointer::axis_output(finger, s.horizontal),
                vertical: crate::pointer::axis_output(finger, s.vertical),
            })
        },
        InputEvent::DeviceAdded { tablet } => after == before && plan == (if tablet {
            InputPlan::AddTablet
        } else {
            InputPlan::Nothing
        }),
        InputEvent::DeviceRemoved { tablet, left } => after == before && plan == (if tablet {
            InputPlan::RemoveTablet { clear_tools: left == 0 }
        } else {
            InputPlan::Nothing
        }),
        InputEvent::TabletToolAxis { known, changed } => after == before && plan
            == crate::pointer::tool_axis_plan(area, known, changed),
        InputEvent::TabletToolProximity { surface, known, near } => after == before && plan
            == crate::pointer::tool_proximity_plan(area, surface, known, near),
        InputEvent::TabletToolTip { known, down, window } => after == before && plan
            == crate::pointer::tool_tip_plan(
            before.pending_picker is Some || before.lock_session is Some,
            known,
            down,
            window,
        ),
        InputEvent::TabletToolButton { known } => after == before && plan == (if known {
            InputPlan::ToolButton
        } else {
            InputPlan::Nothing
        }),
        InputEvent::Other => after == before && plan is Nothing,
    }
}

impl ShoestringWm {
    /// An input event. The result tells whether it is to be reported as activity
    /// of the user, and what else comes of it.
    pub fn process_input_event(&mut self, event: InputEvent) -> (r: (bool, InputPlan))
        requires
            event matches InputEvent::PointerAxis(s) ==> -crate::pointer::SCROLL_LIMIT <= s.travel
                <= crate::pointer::SCROLL_LIMIT,
            -crate::pointer::SCROLL_LIMIT <= old(self).desktop_scroll_accum
                <= crate::pointer::SCROLL_LIMIT,
            old(self).desktop.workspaces.count >= 1,
        ensures
            r.0 == (old(self).idle_notifier && is_activity(event)),
            processed(*old(self), event, r.1, *final(self)),
            -crate::pointer::SCROLL_LIMIT <= final(self).desktop_scroll_accum
                <= crate::pointer::SCROLL_LIMIT,
    {
        let activity = match event {
            InputEvent::DeviceAdded { .. } => false,
            InputEvent::DeviceRemoved { .. } => false,
            _ => self.notify_idle_activity(),
        };
        let plan = match event {
            InputEvent::Keyboard { keycode, pressed, sym, mods } => InputPlan::Key(
                self.on_key(keycode, pressed, sym, &mods),
            ),
            InputEvent::PointerMotion(m) => {
                let moves = motion_moves(hold(m.constraint), m.same_surface, m.inside);
                let focus = if moves {
                    self.maybe_pointer_focus(m.spot.grabbed, m.spot.keyboard_focus, m.spot.window)
                } else {
                    ClickFocus::Keep
                };
                InputPlan::Motion { moves, focus, activate: moves && activates(m.next) }
            },
            InputEvent::PointerMotionAbsolute(s) => match crate::pointer::absolute_area(
                &self.desktop.space,
            ) {
                Some(area) => InputPlan::MotionAbsolute {
                    area,
                    focus: self.maybe_pointer_focus(s.grabbed, s.keyboard_focus, s.window),
                },
                None => InputPlan::Nothing,
            },
            InputEvent::PointerButton(b) => InputPlan::Button(self.on_button(b)),
            InputEvent::PointerAxis(s) => {
                let wheel = s.source == ScrollSource::Wheel;
                if self.scrolls_desktop(wheel, s.vertical.moved, s.grabbed, s.surface) {
                    InputPlan::ScrollDesktop(self.desktop_scroll(s.travel))
                } else {
                    let finger = s.source == ScrollSource::Finger;
                    InputPlan::Scroll {
                        horizontal: axis_frame(finger, s.horizontal),
                        vertical: axis_frame(finger, s.vertical),
                    }
                }
            },
            InputEvent::DeviceAdded { tablet } => if tablet {
                InputPlan::AddTablet
            } else {
                InputPlan::Nothing
            },
            InputEvent::DeviceRemoved { tablet, left } => if tablet {
                InputPlan::RemoveTablet { clear_tools: left == 0 }
            } else {
                InputPlan::Nothing
            },
            InputEvent::TabletToolAxis { known, changed } => self.on_tablet_tool_axis(
                known,
                changed,
            ),
            InputEvent::TabletToolProximity { surface, known, near } => {
                self.on_tablet_tool_proximity(surface, known, near)
            },
            InputEvent::TabletToolTip { known, down, window } => self.on_tablet_tool_tip(
                known,
                down,
                window,
            ),
            InputEvent::TabletToolButton { known } => self.on_tablet_tool_button(known),
            InputEvent::Other => InputPlan::Nothing,
        };
        (activity, plan)
    }
}

fn geometry_command(change: Option<GeometryChange>) -> (r: Command)
    ensures
        r == (match change {
            Some(c) => Command::ApplyGeometry(c),
            None => Command::Nothing,
        }),
{
    match change {
        Some(c) => Command::ApplyGeometry(c),
        None => Command::Nothing,
    }
}

fn hide_command(plan: Option<HidePlan>) -> (r: Command)
    ensures
        r == (match plan {
            Some(p) => Command::Hide(p),
            None => Command::Nothing,
        }),
{
    match plan {
        Some(p) => Command::Hide(p),
        None => Command::Nothing,
    }
}

fn show_command(plan: Option<ShowPlan>) -> (r: Command)
    ensures
        r == (match plan {
            Some(p) => Command::Show(p),
            None => Command::Nothing,
        }),
{
    match plan {
        Some(p) => Command::Show(p),
        None => Command::Nothing,
    }
}

proof fn lemma_first_bound_unique(
    binds: Seq<crate::binds::CompiledBind>,
    mods: ModMask,
    keysym: u32,
    i: int,
    j: int,
)
    requires
        crate::binds::first_bound(binds, mods, keysym, i),
        crate::binds::first_bound(binds, mods, keysym, j),
    ensures
        i == j,
{
    if i < j {
        assert(binds[i].mods != mods || binds[i].keysym != keysym);
    }
    if j < i {
        assert(binds[j].mods != mods || binds[j].keysym != keysym);
    }
}

/// What a toggle of the focused window's layout leaves behind.
pub open spec fn layout_action_done(
    before: crate::desktop::Desktop,
    target: LayoutState,
    meta: Map<u64, crate::layout::WindowMeta>,
    r: Option<GeometryChange>,
) -> bool {
    let usable = match before.focused {
        Some(w) => layout::usable_of(before.space, w),
        None => None,
    };
    match usable {
        Some(u) => {
            let w = before.focused->0;
            let t = layout::toggled(
                before.layout.meta_of(w.id),
                target,
                layout::rect_of(before.space, w),
                u,
            );
            &&& meta == before.layout.meta@.insert(w.id, t.0)
            &&& r == Some(layout::change_to(w.id, t.1, t.2))
        },
        None => r is None && meta == before.layout.meta@,
    }
}

/// What hiding a window leaves behind: it lies on top of the stack with its
/// rectangle and is on no workspace, unless it was hidden already.
pub open spec fn hide_done(
    before: crate::desktop::Desktop,
    window: Window,
    after: crate::desktop::Desktop,
    r: Option<HidePlan>,
) -> bool {
    if before.minimized(window.id) {
        r is None && after == before
    } else {
        &&& r == Some(HidePlan { window: window.id, clear_focus: before.has_focus(window.id) })
        &&& after.layout.minimized@ == before.layout.minimized@.push(
            (window.id, layout::rect_of(before.space, window)),
        )
        &&& after.layout.meta == before.layout.meta
        &&& after.workspaces.assigned@ == before.workspaces.assigned@.filter(
            crate::desktop::not_assigned(window.id),
        )
        &&& only_hiding_differs(before, after)
    }
}

/// Whether nothing but the layout records and the windows on workspaces differs.
pub open spec fn only_hiding_differs(
    before: crate::desktop::Desktop,
    after: crate::desktop::Desktop,
) -> bool {
    after == (crate::desktop::Desktop {
        layout: after.layout,
        workspaces: crate::desktop::Workspaces {
            assigned: after.workspaces.assigned,
            ..before.workspaces
        },
        ..before
    })
}

/// Whether nothing but the stack of hidden windows differs, which is `stack` now.
pub open spec fn same_but_stack(
    before: crate::desktop::Desktop,
    stack: Seq<(u64, Rect)>,
    after: crate::desktop::Desktop,
) -> bool {
    &&& after.layout.minimized@ == stack
    &&& after.layout.meta == before.layout.meta
    &&& after == (crate::desktop::Desktop { layout: after.layout, ..before })
}

/// What bringing a window back leaves behind: the stack of hidden windows is
/// `stack`, and the window is on the active workspace.
pub open spec fn brought_back(
    before: crate::desktop::Desktop,
    stack: Seq<(u64, Rect)>,
    window: u64,
    after: crate::desktop::Desktop,
) -> bool {
    &&& after.layout.minimized@ == stack
    &&& after.layout.meta == before.layout.meta
    &&& after.workspaces.assigned@ == before.workspaces.assigned@.filter(
        crate::desktop::not_assigned(window),
    ).push((window, before.workspaces.active))
    &&& only_hiding_differs(before, after)
}

/// How a hidden window comes back.
pub open spec fn show_at(before: crate::desktop::Desktop, e: (u64, Rect)) -> ShowPlan {
    ShowPlan { window: e.0, loc: e.1.loc, workspace: before.workspaces.active }
}

/// Whether the entry at `i` is the last of a living window.
pub open spec fn last_alive(stack: Seq<(u64, Rect)>, alive: Seq<u64>, i: int) -> bool {
    &&& 0 <= i < stack.len()
    &&& alive.contains(stack[i].0)
    &&& forall|j: int| i < j < stack.len() ==> !alive.contains((#[trigger] stack[j]).0)
}

/// What bringing back the last hidden window leaves behind.
pub open spec fn restore_done(
    before: crate::desktop::Desktop,
    alive: Seq<u64>,
    after: crate::desktop::Desktop,
    r: Option<ShowPlan>,
) -> bool {
    let s = before.layout.minimized@;
    match r {
        Some(p) => exists|i: int|
            #[trigger] last_alive(s, alive, i) && p == show_at(before, s[i]) && brought_back(
                before,
                s.take(i),
                s[i].0,
                after,
            ),
        None => same_but_stack(before, Seq::empty(), after) && forall|i: int|
            !last_alive(s, alive, i),
    }
}

/// What carrying out the plan to hide a window leaves: it is not mapped any more,
/// and it has lost the focus where it had it.
pub open spec fn put_away(
    before: crate::desktop::Desktop,
    plan: HidePlan,
    after: crate::desktop::Desktop,
) -> bool {
    &&& after.space.elements@ == before.space.elements@.filter(
        |p: crate::layout::Placed| p.window.id != plan.window,
    )
    &&& after.space.outputs == before.space.outputs
    &&& after.focused == (if plan.clear_focus {
        None
    } else {
        before.focused
    })
    &&& after == (crate::desktop::Desktop {
        space: after.space,
        focused: after.focused,
        ..before
    })
}

/// The window hidden last is the first to come back, to where it was, and the
/// windows hidden before it stay hidden in their order.
pub proof fn law_last_hidden_returns_first(
    before: crate::desktop::Desktop,
    hidden: crate::desktop::Desktop,
    window: Window,
    hide: Option<HidePlan>,
    settled: crate::desktop::Desktop,
    alive: Seq<u64>,
    after: crate::desktop::Desktop,
    show: Option<ShowPlan>,
)
    requires
        !before.minimized(window.id),
        hide_done(before, window, hidden, hide),
        settled == hidden || put_away(hidden, hide->0, settled),
        alive.contains(window.id),
        restore_done(settled, alive, after, show),
    ensures
        show == Some(
            ShowPlan {
                window: window.id,
                loc: layout::rect_of(before.space, window).loc,
                workspace: before.workspaces.active,
            },
        ),
        after.layout.minimized@ == before.layout.minimized@,
        after.workspaces.assigned@.last() == (window.id, before.workspaces.active),
{
    let s = hidden.layout.minimized@;
    let top = s.len() - 1;
    assert(last_alive(s, alive, top));
    if let Some(p) = show {
        let i = choose|i: int|
            #[trigger] last_alive(s, alive, i) && p == show_at(settled, s[i]) && brought_back(
                settled,
                s.take(i),
                s[i].0,
                after,
            );
        if i < top {
            assert(!alive.contains(s[top].0));
        }
        assert(s.take(top) =~= before.layout.minimized@);
    }
}

/// The minimize key is a toggle: pressed once it hides the window with the focus,
/// and pressed again, once that window is put away, it brings the window back to
/// where it was and onto the active workspace. The windows hidden before stay
/// hidden in their order.
pub proof fn law_minimize_key_toggles(
    before: ShoestringWm,
    window: Window,
    hidden: ShoestringWm,
    first: Command,
    settled: ShoestringWm,
    alive: Seq<u64>,
    after: ShoestringWm,
    second: Command,
)
    requires
        before.desktop.focused == Some(window),
        !before.desktop.minimized(window.id),
        dispatched(before, Action::Minimize, alive, hidden, first),
        first matches Command::Hide(plan) ==> put_away(hidden.desktop, plan, settled.desktop),
        settled == (ShoestringWm { desktop: settled.desktop, ..hidden }),
        alive.contains(window.id),
        dispatched(settled, Action::Minimize, alive, after, second),
    ensures
        first == Command::Hide(HidePlan { window: window.id, clear_focus: true }),
        settled.desktop.focused is None,
        second == Command::Show(
            ShowPlan {
                window: window.id,
                loc: layout::rect_of(before.desktop.space, window).loc,
                workspace: before.desktop.workspaces.active,
            },
        ),
        after.desktop.layout.minimized@ == before.desktop.layout.minimized@,
        after.desktop.layout.meta == before.desktop.layout.meta,
        after.desktop.workspaces.assigned@.last() == (
            window.id,
            before.desktop.workspaces.active,
        ),
{
    let hide = match first {
        Command::Hide(p) => Some(p),
        _ => None,
    };
    let show = match second {
        Command::Show(p) => Some(p),
        _ => None,
    };
    assert(hide_done(before.desktop, window, hidden.desktop, hide));
    assert(restore_done(settled.desktop, alive, after.desktop, show));
    law_last_hidden_returns_first(
        before.desktop,
        hidden.desktop,
        window,
        hide,
        settled.desktop,
        alive,
        after.desktop,
        show,
    );
}

/// A window that was hidden is on no workspace, so that the tree lists it as
/// minimized.
pub proof fn law_hidden_on_no_workspace(
    before: crate::desktop::Desktop,
    window: Window,
    after: crate::desktop::Desktop,
    r: Option<HidePlan>,
)
    requires
        !before.minimized(window.id),
        hide_done(before, window, after, r),
    ensures
        after.workspace_of(window.id) == 0,
        after.minimized(window.id),
{
    crate::desktop::lemma_unassigned(before.workspaces.assigned@, window.id);
    let top = after.layout.minimized@.len() - 1;
    assert(after.layout.minimized@[top].0 == window.id);
}

/// Whether the mapped window at `i` is the lowest without the focus.
pub open spec fn next_in_round(d: crate::desktop::Desktop, i: int) -> bool {
    &&& 0 <= i < d.space.elements@.len()
    &&& !d.has_focus(d.space.elements@[i].window.id)
    &&& forall|j: int|
        0 <= j < i ==> d.has_focus((#[trigger] d.space.elements@[j]).window.id)
}

/// Which window comes next in the round.
pub open spec fn cycle_done(d: crate::desktop::Desktop, r: Option<u64>) -> bool {
    match r {
        Some(w) => d.space.elements@.len() >= 2 && exists|i: int|
            #[trigger] next_in_round(d, i) && d.space.elements@[i].window.id == w,
        None => d.space.elements@.len() < 2 || forall|i: int| !next_in_round(d, i),
    }
}

/// The mapped windows, lowest first.
pub open spec fn stack_ids(d: crate::desktop::Desktop) -> Seq<u64> {
    d.space.elements@.map_values(|p: crate::layout::Placed| p.window.id)
}

/// Every window but one.
pub open spec fn is_not(w: u64) -> spec_fn(u64) -> bool {
    |x: u64| x != w
}

/// The stack with a window raised to its top.
pub open spec fn raised(stack: Seq<u64>, w: u64) -> Seq<u64> {
    stack.filter(is_not(w)).push(w)
}

/// Whether the next window in the round is raised to the top and gets the focus.
pub open spec fn cycle_step(a: crate::desktop::Desktop, b: crate::desktop::Desktop) -> bool {
    exists|w: u64|
        {
            &&& #[trigger] cycle_done(a, Some(w))
            &&& stack_ids(b) == raised(stack_ids(a), w)
            &&& b.has_focus(w)
        }
}

/// Going round focuses every window once, from the lowest up, and ends with the
/// stack and the focus that it began with: `k` steps turn the stack by `k` places.
pub proof fn law_cycle_comes_round(ds: Seq<crate::desktop::Desktop>, k: int)
    requires
        0 <= k < ds.len(),
        2 <= stack_ids(ds[0]).len(),
        k <= stack_ids(ds[0]).len(),
        forall|i: int, j: int|
            0 <= i < j < stack_ids(ds[0]).len() ==> #[trigger] stack_ids(ds[0])[i]
                != #[trigger] stack_ids(ds[0])[j],
        ds[0].has_focus(stack_ids(ds[0]).last()),
        forall|i: int| 0 <= i < k ==> cycle_step(#[trigger] ds[i], ds[i + 1]),
    ensures
        ({
            let s = stack_ids(ds[0]);
            &&& stack_ids(ds[k]) == s.skip(k) + s.take(k)
            &&& k > 0 ==> ds[k].has_focus(s[k - 1])
            &&& k == s.len() ==> stack_ids(ds[k]) == s && ds[k].has_focus(s.last())
        }),
    decreases k,
{
    let s = stack_ids(ds[0]);
    let n = s.len() as int;
    if k == 0 {
        assert(s.skip(0) + s.take(0) =~= s);
    } else {
        law_cycle_comes_round(ds, k - 1);
        let d = ds[k - 1];
        let t = stack_ids(d);
        assert(t == s.skip(k - 1) + s.take(k - 1));
        assert(t.len() == n);
        assert(t[0] == s[k - 1]);
        assert(t.last() == if k == 1 {
            s[n - 1]
        } else {
            s[k - 2]
        });
        assert(d.has_focus(t.last()));
        assert(t[0] != t.last());
        assert(forall|i: int| 0 <= i < n ==> t[i] == (#[trigger] d.space.elements@[i]).window.id);
        assert(cycle_step(ds[k - 1], ds[k - 1 + 1]));
        let w = choose|w: u64|
            {
                &&& #[trigger] cycle_done(d, Some(w))
                &&& stack_ids(ds[k]) == raised(t, w)
                &&& ds[k].has_focus(w)
            };
        let i = choose|i: int|
            #[trigger] next_in_round(d, i) && d.space.elements@[i].window.id == w;
        assert(next_in_round(d, i));
        if i > 0 {
            assert(d.has_focus(d.space.elements@[0].window.id));
        }
        assert(w == t[0]);
        let other = is_not(w);
        assert forall|j: int| 0 <= j < t.len() && j != 0 implies other(#[trigger] t[j]) by {
            let o = if j < n - (k - 1) {
                j + (k - 1)
            } else {
                j - (n - (k - 1))
            };
            assert(t[j] == s[o]);
        }
        crate::seqs::lemma_filter_remove(t, other, 0);
        assert(raised(t, w) == t.remove(0).push(w));
        assert(t.remove(0).push(w) =~= s.skip(k) + s.take(k));
        if k == n {
            assert(s.skip(n) + s.take(n) =~= s);
        }
    }
}

/// While the session is locked no binding acts but one that switches the virtual
/// terminal, so that there is always a way out, and every other press goes to the
/// lock. A window picker, which a lock ends, would take all presses.
pub proof fn law_locked_keys_pass(
    before: ShoestringWm,
    keycode: u32,
    sym: Option<u32>,
    mods: ModifiersState,
    r: KeyOutcome,
    after: ShoestringWm,
)
    requires
        before.lock_session is Some,
        key_outcome(before, keycode, true, sym, mods, r, after),
    ensures
        r.verdict matches KeyVerdict::Act(a) ==> a is ChangeVt,
        r.verdict is Swallow <==> before.pending_picker is Some,
        before.pending_picker is None ==> (r.verdict is Act <==> exists|i: int|
            #[trigger] crate::binds::first_bound(
                before.bindings.binds@,
                ModMask { bits: crate::binds::state_bits(mods) },
                sym->0,
                i,
            ) && sym is Some && before.bindings.binds@[i].action is ChangeVt),
{
    assert forall|i: int|
        #[trigger] crate::binds::first_bound(
            before.bindings.binds@,
            ModMask { bits: crate::binds::state_bits(mods) },
            sym->0,
            i,
        ) && sym is Some && before.bindings.binds@[i].action is ChangeVt implies before.takes(
        mods,
        sym,
        i,
    ) by {
    }
    if before.pending_picker is None && exists|i: int| before.takes(mods, sym, i) {
        let i = choose|i: int| before.takes(mods, sym, i);
        assert(before.takes(mods, sym, i));
        assert(acts(r.verdict, before.bindings.binds@, i));
    }
}

/// Whether a command is to apply the change, if there is one.
pub open spec fn applies(r: Command, change: Option<GeometryChange>) -> bool {
    match change {
        Some(c) => r == Command::ApplyGeometry(c),
        None => r is Nothing,
    }
}

/// What comes of an action.
pub open spec fn dispatched(
    before: ShoestringWm,
    action: Action,
    alive: Seq<u64>,
    after: ShoestringWm,
    r: Command,
) -> bool {
    let d = before.desktop;
    let ws = d.workspaces;
    match action {
        Action::Spawn { command, args } => {
            &&& after == before
            &&& r matches Command::Spawn { command: c, args: a }
            &&& c@ == command@
            &&& a@ == args@
        },
        Action::Quit => after == before && r is ConfirmQuit,
        Action::ReloadConfig => after == before && r is ReloadConfig,
        Action::TileLeft => toggles(before, LayoutState::TiledLeft, after, r),
        Action::TileRight => toggles(before, LayoutState::TiledRight, after, r),
        Action::Maximize => toggles(before, LayoutState::Maximized, after, r),
        Action::Minimize => match d.focused {
            Some(w) => hides(before, w, after, r),
            None => restores(before, alive, after, r),
        },
        Action::Unminimize => restores(before, alive, after, r),
        Action::Close => after == before && match d.focused {
            Some(w) => r == Command::Close(w.id),
            None => r is Nothing,
        },
        Action::CycleWindows => after == before && match r {
            Command::Focus(w) => cycle_done(d, Some(w)),
            Command::Nothing => cycle_done(d, None),
            _ => false,
        },
        Action::Raise => after == before && match d.focused {
            Some(w) => r == Command::Raise(w.id),
            None => r is Nothing,
        },
        Action::Lower => after == before && match d.focused {
            Some(w) => r == Command::Lower(w.id),
            None => r is Nothing,
        },
        Action::ToggleSticky => after == before && r is ToggleSticky,
        Action::ToggleAlwaysOnTop => after == before && r is ToggleAlwaysOnTop,
        Action::FocusWorkspace { index } => after == before && if 1 <= index <= ws.count {
            r == Command::FocusWorkspace(index)
        } else {
            r is Nothing
        },
        Action::FocusWorkspaceRelative { delta } => after == before && r
            == Command::FocusWorkspace(shifted_workspace(ws.active, ws.count, delta as int)),
        Action::MoveWindowToWorkspace { index } => after == before && if 1 <= index <= ws.count {
            r == Command::MoveToWorkspace(index)
        } else {
            r is Nothing
        },
        Action::MoveWindowToWorkspaceRelative { delta } => after == before && r
            == Command::MoveToWorkspace(shifted_workspace(ws.active, ws.count, delta as int)),
        Action::ChangeVt { vt } => after == before && r == Command::ChangeVt(vt),
        Action::InjectKey { keysym } => after == before && match r {
            Command::InjectKey(k) => k@ == keysym@,
            _ => false,
        },
        Action::InjectText { text } => {
            &&& r is SendKeys
            &&& after == (ShoestringWm { key_queue: after.key_queue, ..before })
            &&& typed(before.keymap@, text@, before.key_queue@, after.key_queue@)
        },
        Action::InjectClick { button } => after == before && match crate::inject::button_of(
            button@,
        ) {
            Some(code) => match r {
                Command::Click(p) => p.button == code && p.move_to is None,
                _ => false,
            },
            None => r is Nothing,
        },
        Action::Lock => {
            let words = crate::text::words(before.config.lock_command@);
            &&& after == before
            &&& if before.lock_session is Some || words.len() == 0 {
                r is Nothing
            } else {
                is_command(r, words)
            }
        },
        Action::CycleLayout => after == before && r is CycleLayout,
        Action::ToggleAudioMute => after == before && is_media(r, "audio-mute"@),
        Action::ToggleMicMute => after == before && is_media(r, "mic-mute"@),
    }
}

/// Whether a command starts the media helper to toggle something.
pub open spec fn is_media(r: Command, what: Seq<char>) -> bool {
    match r {
        Command::Media { subject, verb } => subject@ == what && verb@ == "toggle"@,
        _ => false,
    }
}

/// Toggling the focused window's layout.
pub open spec fn toggles(
    before: ShoestringWm,
    target: LayoutState,
    after: ShoestringWm,
    r: Command,
) -> bool {
    let change = match r {
        Command::ApplyGeometry(c) => Some(c),
        _ => None,
    };
    &&& applies(r, change)
    &&& after.same_but_layout(before)
    &&& after.desktop.layout.minimized == before.desktop.layout.minimized
    &&& layout_action_done(before.desktop, target, after.desktop.layout.meta@, change)
}

/// Hiding a window.
pub open spec fn hides(before: ShoestringWm, w: Window, after: ShoestringWm, r: Command) -> bool {
    let plan = match r {
        Command::Hide(p) => Some(p),
        _ => None,
    };
    &&& plan is Some || r is Nothing
    &&& after == (ShoestringWm { desktop: after.desktop, ..before })
    &&& hide_done(before.desktop, w, after.desktop, plan)
}

/// Bringing back the last hidden window.
pub open spec fn restores(
    before: ShoestringWm,
    alive: Seq<u64>,
    after: ShoestringWm,
    r: Command,
) -> bool {
    let plan = match r {
        Command::Show(p) => Some(p),
        _ => None,
    };
    &&& plan is Some || r is Nothing
    &&& after == (ShoestringWm { desktop: after.desktop, ..before })
    &&& restore_done(before.desktop, alive, after.desktop, plan)
}

/// What typing a text adds to the queue of key events: nothing where a character
/// is not covered, and nothing from the first character without a key on.
pub open spec fn typed(
    keys: Seq<crate::inject::KeyLevels>,
    s: Seq<char>,
    before: Seq<crate::inject::KeyStep>,
    after: Seq<crate::inject::KeyStep>,
) -> bool {
    if exists|i: int| crate::inject::first_untypable(s, i) {
        after == before
    } else if exists|i: int| crate::inject::first_keyless(keys, s, i) {
        exists|i: int|
            #[trigger] crate::inject::first_keyless(keys, s, i) && after == before
                + crate::inject::text_steps(keys, s.take(i))
    } else {
        after == before + crate::inject::text_steps(keys, s)
    }
}

/// Walking the workspaces goes as many steps as it says and stops at the first and
/// the last; it never leads out of them.
pub proof fn law_walk_stops_at_the_ends(active: u8, count: u8, delta: int)
    requires
        1 <= active <= count,
    ensures
        ({
            let to = shifted_workspace(active, count, delta);
            &&& 1 <= to <= count
            &&& 1 <= active + delta <= count ==> to == active + delta
            &&& active + delta < 1 ==> to == 1
            &&& active + delta > count ==> to == count
            &&& 1 <= active + delta <= count ==> shifted_workspace(to, count, -delta) == active
        }),
{
}

/// The actions that name or step to a workspace lead to it, and those that move the
/// window take it along. A workspace that there is not is left alone.
pub proof fn law_workspace_actions(
    before: ShoestringWm,
    action: Action,
    alive: Seq<u64>,
    after: ShoestringWm,
    r: Command,
)
    requires
        1 <= before.desktop.workspaces.active <= before.desktop.workspaces.count,
        dispatched(before, action, alive, after, r),
    ensures
        ({
            let active = before.desktop.workspaces.active;
            let count = before.desktop.workspaces.count;
            &&& action matches Action::FocusWorkspace { index } ==> {
                &&& 1 <= index <= count ==> r == Command::FocusWorkspace(index)
                &&& index == 0 || index > count ==> r is Nothing
            }
            &&& action matches Action::MoveWindowToWorkspace { index } ==> {
                &&& 1 <= index <= count ==> r == Command::MoveToWorkspace(index)
                &&& index == 0 || index > count ==> r is Nothing
            }
            &&& action matches Action::FocusWorkspaceRelative { delta } ==> (
            r matches Command::FocusWorkspace(to) && 1 <= to <= count && (1 <= active + delta
                <= count ==> to == active + delta) && (active + delta < 1 ==> to == 1) && (active
                + delta > count ==> to == count))
            &&& action matches Action::MoveWindowToWorkspaceRelative { delta } ==> (
            r matches Command::MoveToWorkspace(to) && 1 <= to <= count && (1 <= active + delta
                <= count ==> to == active + delta) && (active + delta < 1 ==> to == 1) && (active
                + delta > count ==> to == count))
            &&& action is FocusWorkspace || action is MoveWindowToWorkspace
                || action is FocusWorkspaceRelative || action is MoveWindowToWorkspaceRelative
                ==> after == before
        }),
{
}

/// The actions on the window with the focus act on that window, and without one on
/// none.
pub proof fn law_focused_window_actions(
    before: ShoestringWm,
    action: Action,
    alive: Seq<u64>,
    after: ShoestringWm,
    r: Command,
)
    requires
        dispatched(before, action, alive, after, r),
    ensures
        before.desktop.focused matches Some(w) ==> {
            &&& action is Close ==> r == Command::Close(w.id)
            &&& action is Raise ==> r == Command::Raise(w.id)
            &&& action is Lower ==> r == Command::Lower(w.id)
            &&& action is Minimize && !before.desktop.minimized(w.id) ==> (r matches Command::Hide(
                plan,
            ) && plan.window == w.id && plan.clear_focus)
            &&& action is TileLeft || action is TileRight || action is Maximize
                ==> r is ApplyGeometry || r is Nothing
            &&& (action is TileLeft || action is TileRight || action is Maximize)
                && r is ApplyGeometry ==> r->ApplyGeometry_0.window == w.id
        },
        before.desktop.focused is None && (action is Close || action is Raise || action is Lower
            || action is TileLeft || action is TileRight || action is Maximize) ==> r is Nothing,
        action is Close || action is Raise || action is Lower ==> after == before,
{
}

/// The tile keys give the window with the focus the state that they name, or take
/// it away where the window has it.
pub proof fn law_tile_keys(
    before: ShoestringWm,
    window: Window,
    action: Action,
    target: LayoutState,
    alive: Seq<u64>,
    after: ShoestringWm,
    r: Command,
)
    requires
        before.desktop.focused == Some(window),
        layout::usable_of(before.desktop.space, window) is Some,
        (action is TileLeft && target is TiledLeft) || (action is TileRight
            && target is TiledRight) || (action is Maximize && target is Maximized),
        dispatched(before, action, alive, after, r),
    ensures
        ({
            let was = before.desktop.layout.meta_of(window.id);
            let is = after.desktop.layout.meta_of(window.id);
            &&& r is ApplyGeometry
            &&& was.layout != target ==> is.layout == target
            &&& was.layout == target ==> is.layout is Floating
            &&& r->ApplyGeometry_0.maximized <==> target is Maximized && was.layout != target
            &&& !r->ApplyGeometry_0.fullscreen
            &&& was.layout == target && was.saved_rect is Some ==> r->ApplyGeometry_0.rect
                == was.saved_rect->0
        }),
        forall|w: u64|
            w != window.id ==> #[trigger] after.desktop.layout.meta_of(w)
                == before.desktop.layout.meta_of(w),
        after.desktop.layout.minimized == before.desktop.layout.minimized,
        after.desktop.workspaces == before.desktop.workspaces,
{
}

/// Every other action is handed on as it is: programs with their arguments, the
/// question before quitting, the terminal to switch to, the key or the text to
/// inject, the media keys. None of them changes anything by itself.
pub proof fn law_actions_handed_on(
    before: ShoestringWm,
    action: Action,
    alive: Seq<u64>,
    after: ShoestringWm,
    r: Command,
)
    requires
        dispatched(before, action, alive, after, r),
    ensures
        action matches Action::Spawn { command, args } ==> (r matches Command::Spawn {
            command: c,
            args: a,
        } && c@ == command@ && a@ == args@),
        action is Quit ==> r is ConfirmQuit,
        action is ReloadConfig ==> r is ReloadConfig,
        action is ToggleSticky ==> r is ToggleSticky,
        action is ToggleAlwaysOnTop ==> r is ToggleAlwaysOnTop,
        action is CycleLayout ==> r is CycleLayout,
        action matches Action::ChangeVt { vt } ==> r == Command::ChangeVt(vt),
        action matches Action::InjectKey { keysym } ==> (r matches Command::InjectKey(k) && k@
            == keysym@),
        action is InjectText ==> r is SendKeys,
        action is ToggleAudioMute ==> (r matches Command::Media { subject, verb } && subject@
            == "audio-mute"@ && verb@ == "toggle"@),
        action is ToggleMicMute ==> (r matches Command::Media { subject, verb } && subject@
            == "mic-mute"@ && verb@ == "toggle"@),
        action is Lock && before.lock_session is Some ==> r is Nothing,
        action is Lock && before.lock_session is None && crate::text::words(
            before.config.lock_command@,
        ).len() > 0 ==> (r matches Command::Spawn { command, args } && command@
            == crate::text::words(before.config.lock_command@)[0] && args@.len() + 1
            == crate::text::words(before.config.lock_command@).len()),
        action is Spawn || action is Quit || action is ReloadConfig || action is ChangeVt
            || action is InjectKey || action is Lock || action is CycleWindows ==> after == before,
{
    if let Command::Spawn { command, args } = r {
        assert(crate::text::views(args@).len() == args@.len());
    }
}

/// A press of a bound key carries out the first binding for exactly the modifiers
/// that are down and that key; a press that no binding is for goes to the client. A
/// release always goes to the client.
pub proof fn law_bound_keys_act(
    before: ShoestringWm,
    keycode: u32,
    pressed: bool,
    sym: Option<u32>,
    mods: ModifiersState,
    r: KeyOutcome,
    after: ShoestringWm,
    i: int,
)
    requires
        before.lock_session is None,
        before.pending_picker is None,
        key_outcome(before, keycode, pressed, sym, mods, r, after),
    ensures
        ({
            let down = crate::binds::state_bits(mods);
            let binds = before.bindings.binds@;
            &&& !pressed ==> r.verdict is Forward
            &&& pressed && sym is None ==> r.verdict is Forward
            &&& pressed && sym is Some && 0 <= i < binds.len() && binds[i].mods.bits == down
                && binds[i].keysym == sym->0 && (forall|j: int|
                0 <= j < i ==> (#[trigger] binds[j]).mods.bits != down || binds[j].keysym
                    != sym->0) ==> (r.verdict matches KeyVerdict::Act(a)
                && crate::config::same_action(binds[i].action, a))
            &&& pressed && sym is Some && (forall|j: int|
                0 <= j < binds.len() ==> (#[trigger] binds[j]).mods.bits != down
                    || binds[j].keysym != sym->0) ==> r.verdict is Forward
        }),
{
    let down = crate::binds::state_bits(mods);
    let binds = before.bindings.binds@;
    if pressed && sym is Some && 0 <= i < binds.len() && binds[i].mods.bits == down
        && binds[i].keysym == sym->0 && (forall|j: int|
        0 <= j < i ==> (#[trigger] binds[j]).mods.bits != down || binds[j].keysym != sym->0) {
        assert(before.takes(mods, sym, i));
    }
    if pressed && sym is Some && (forall|j: int|
        0 <= j < binds.len() ==> (#[trigger] binds[j]).mods.bits != down || binds[j].keysym
            != sym->0) {
        assert forall|j: int| !before.takes(mods, sym, j) by {}
    }
}

/// While a window is being picked no key reaches a client or a binding, and nothing
/// but a press of escape ends the picking.
pub proof fn law_picker_takes_keys(
    before: ShoestringWm,
    keycode: u32,
    pressed: bool,
    sym: Option<u32>,
    mods: ModifiersState,
    r: KeyOutcome,
    after: ShoestringWm,
)
    requires
        before.pending_picker is Some,
        key_outcome(before, keycode, pressed, sym, mods, r, after),
    ensures
        r.verdict matches KeyVerdict::Swallow { cancel } && (cancel <==> pressed && sym == Some(
            0xff1bu32,
        )),
{
}

/// A binding repeats while its own key is held: releasing that key ends the repeat
/// and stops its timer, and neither pressing it again nor releasing another key
/// does.
pub proof fn law_release_ends_repeat(
    before: ShoestringWm,
    keycode: u32,
    pressed: bool,
    sym: Option<u32>,
    mods: ModifiersState,
    r: KeyOutcome,
    after: ShoestringWm,
    kr: KeyRepeat,
)
    requires
        before.key_repeat == Some(kr),
        key_outcome(before, keycode, pressed, sym, mods, r, after),
    ensures
        !pressed && keycode == kr.keycode ==> after.key_repeat is None && r.stop == Some(kr.token),
        pressed || keycode != kr.keycode ==> after.key_repeat == Some(kr) && r.stop is None,
        after.desktop == before.desktop,
        after.bindings == before.bindings,
{
}

/// Walking the workspaces repeats, with the window or without it, and nothing else
/// does. Whatever a bound key does, what repeated before it stops.
pub proof fn law_what_repeats(
    before: Option<KeyRepeat>,
    keycode: u32,
    action: Action,
    token: Option<u64>,
    after: Option<KeyRepeat>,
    stop: Option<u64>,
)
    requires
        key_acted(before, keycode, action, token, after, stop),
    ensures
        before matches Some(kr) ==> stop == Some(kr.token),
        before is None ==> stop is None,
        (action is FocusWorkspaceRelative || action is MoveWindowToWorkspaceRelative)
            && token is Some ==> (after matches Some(kr) && kr.keycode == keycode && Some(kr.token)
            == token && crate::config::same_action(action, kr.action)),
        !(action is FocusWorkspaceRelative || action is MoveWindowToWorkspaceRelative)
            ==> after is None,
        token is None ==> after is None,
{
}

/// Hiding a window puts it on top of the stack with the place and the size that it
/// has, off its workspace, and leaves every other window on its own. Only the window
/// that has the focus loses it. A window that is hidden stays as it is.
pub proof fn law_hiding_hides_one(
    before: crate::desktop::Desktop,
    window: Window,
    after: crate::desktop::Desktop,
    r: Option<HidePlan>,
    other: u64,
)
    requires
        hide_done(before, window, after, r),
    ensures
        ({
            let was = exists|i: int|
                0 <= i < before.layout.minimized@.len() && (
                #[trigger] before.layout.minimized@[i]).0 == window.id;
            &&& was ==> r is None && after == before
            &&& !was ==> {
                &&& r matches Some(plan) && plan.window == window.id && (plan.clear_focus
                    <==> before.focused is Some && before.focused->0.id == window.id)
                &&& after.layout.minimized@.len() == before.layout.minimized@.len() + 1
                &&& after.layout.minimized@.last().0 == window.id
                &&& after.layout.minimized@.last().1.size == window.size
                &&& before.space.location(window.id) matches Some(loc)
                    ==> after.layout.minimized@.last().1.loc == loc
                &&& after.layout.minimized@.drop_last() == before.layout.minimized@
                &&& after.workspace_of(window.id) == 0
            }
        }),
        other != window.id ==> after.workspace_of(other) == before.workspace_of(other),
        after.focused == before.focused,
        after.workspaces.active == before.workspaces.active,
        after.layout.meta == before.layout.meta,
{
    crate::desktop::law_window_moves_alone(
        before.workspaces.assigned@,
        window.id,
        0,
        other,
    );
    if !before.minimized(window.id) {
        assert(after.layout.minimized@.drop_last() =~= before.layout.minimized@);
    }
}

/// A window comes back to the place that it was hidden at, onto the workspace that
/// is active then; it is the last that was hidden of those whose clients live, and
/// the windows below it stay hidden. Nothing comes back only where none of them
/// lives.
pub proof fn law_last_living_comes_back(
    before: crate::desktop::Desktop,
    alive: Seq<u64>,
    after: crate::desktop::Desktop,
    r: Option<ShowPlan>,
    i: int,
)
    requires
        restore_done(before, alive, after, r),
    ensures
        ({
            let s = before.layout.minimized@;
            &&& 0 <= i < s.len() && alive.contains(s[i].0) && (forall|j: int|
                i < j < s.len() ==> !alive.contains((#[trigger] s[j]).0)) ==> {
                &&& r matches Some(p) && p.window == s[i].0 && p.loc == s[i].1.loc && p.workspace
                    == before.workspaces.active
                &&& after.layout.minimized@ == s.take(i)
                &&& after.workspace_of(s[i].0) == before.workspaces.active
            }
            &&& (forall|j: int| 0 <= j < s.len() ==> !alive.contains((#[trigger] s[j]).0))
                ==> r is None && after.layout.minimized@.len() == 0 && after.workspaces
                == before.workspaces
        }),
        after.layout.meta == before.layout.meta,
{
    let s = before.layout.minimized@;
    if 0 <= i < s.len() && alive.contains(s[i].0) && (forall|j: int|
        i < j < s.len() ==> !alive.contains((#[trigger] s[j]).0)) {
        assert(last_alive(s, alive, i));
        match r {
            Some(p) => {
                let k = choose|k: int|
                    #[trigger] last_alive(s, alive, k) && p == show_at(before, s[k])
                        && brought_back(before, s.take(k), s[k].0, after);
                assert(last_alive(s, alive, k));
                if k < i {
                    assert(!alive.contains(s[i].0));
                }
                if i < k {
                    assert(!alive.contains(s[k].0));
                }
                crate::desktop::law_window_moves_alone(
                    before.workspaces.assigned@,
                    s[i].0,
                    before.workspaces.active,
                    0,
                );
            },
            None => {},
        }
    }
    if forall|j: int| 0 <= j < s.len() ==> !alive.contains((#[trigger] s[j]).0) {
        assert forall|k: int| !last_alive(s, alive, k) by {}
    }
}

/// Going round leads to the lowest window that has not the focus, and stays where
/// there are fewer than two windows.
pub proof fn law_next_in_round(d: crate::desktop::Desktop, r: Option<u64>)
    requires
        cycle_done(d, r),
        forall|a: int, b: int|
            0 <= a < b < d.space.elements@.len() ==> (#[trigger] d.space.elements@[a]).window.id != (
            #[trigger] d.space.elements@[b]).window.id,
    ensures
        d.space.elements@.len() < 2 ==> r is None,
        d.space.elements@.len() >= 2 ==> {
            let first = d.space.elements@[0].window.id;
            let second = d.space.elements@[1].window.id;
            &&& d.focused is Some && d.focused->0.id == first ==> r == Some(second)
            &&& !(d.focused is Some && d.focused->0.id == first) ==> r == Some(first)
        },
{
    if d.space.elements@.len() >= 2 {
        let first = d.space.elements@[0].window.id;
        if d.has_focus(first) {
            assert(next_in_round(d, 1));
        } else {
            assert(next_in_round(d, 0));
        }
        if let Some(w) = r {
            let k = choose|k: int|
                #[trigger] next_in_round(d, k) && d.space.elements@[k].window.id == w;
            assert(next_in_round(d, k));
            if k > 0 {
                assert(d.has_focus(d.space.elements@[0].window.id));
            }
            if k > 1 {
                assert(d.has_focus(d.space.elements@[1].window.id));
            }
        }
    }
}

/// A wheel over the bare desktop switches workspaces and nothing else does: no
/// touchpad, no horizontal travel, nothing over a surface, during a grab, while a
/// window is being picked or while the session is locked. Otherwise the event goes
/// to the client and the travel so far stays.
pub proof fn law_wheel_over_desktop(
    before: ShoestringWm,
    s: ScrollInput,
    plan: InputPlan,
    after: ShoestringWm,
)
    requires
        processed(before, InputEvent::PointerAxis(s), plan, after),
    ensures
        plan is ScrollDesktop <==> s.source is Wheel && s.vertical.moved && !s.surface && !s.grabbed
            && before.pending_picker is None && before.lock_session is None,
        plan is ScrollDesktop || plan is Scroll,
        plan is Scroll ==> after == before && plan->Scroll_horizontal.send_value == s.horizontal.moved
            && plan->Scroll_vertical.send_value == s.vertical.moved,
{
}

/// Whatever the pointer does, a motion that is held back changes no focus; one that
/// is not is as free as the motion of an absolute device.
pub proof fn law_motion_plans(
    before: ShoestringWm,
    m: MotionInput,
    plan: InputPlan,
    absolute: InputPlan,
    after: ShoestringWm,
    g: Rect,
)
    requires
        processed(before, InputEvent::PointerMotion(m), plan, after),
        processed(before, InputEvent::PointerMotionAbsolute(m.spot), absolute, after),
        before.desktop.space.outputs@.len() > 0,
        before.desktop.space.outputs@[0].geometry == Some(g),
    ensures
        plan matches InputPlan::Motion { moves, focus, activate } && (!moves ==> focus is Keep
            && !activate) && (moves ==> (absolute matches InputPlan::MotionAbsolute {
            area,
            focus: f,
        } && area == g && f == focus)) && (m.constraint is None ==> moves),
        after == before,
{
}

/// Plugging in a tablet adds it, taking out the last one clears its tools, and
/// other devices do nothing. Everything but plugging in and taking out is activity
/// of the user.
pub proof fn law_devices(
    before: ShoestringWm,
    event: InputEvent,
    plan: InputPlan,
    after: ShoestringWm,
)
    requires
        processed(before, event, plan, after),
    ensures
        event matches InputEvent::DeviceAdded { tablet } ==> (if tablet {
            plan is AddTablet
        } else {
            plan is Nothing
        }) && !is_activity(event),
        event matches InputEvent::DeviceRemoved { tablet, left } ==> (if tablet {
            plan == (InputPlan::RemoveTablet { clear_tools: left == 0 })
        } else {
            plan is Nothing
        }) && !is_activity(event),
        event is Keyboard || event is PointerMotion || event is PointerMotionAbsolute
            || event is PointerButton || event is PointerAxis || event is TabletToolAxis
            || event is TabletToolProximity || event is TabletToolTip || event is TabletToolButton
            || event is Other ==> is_activity(event),
        event matches InputEvent::TabletToolButton { known } ==> (plan is ToolButton <==> known),
{
}

/// Typing a text that holds anything but the letters and digits of ASCII and the space
/// types nothing. Any other text is typed up to the first character that no key yields,
/// and whole where every character has a key.
pub proof fn law_what_is_typed(
    keys: Seq<crate::inject::KeyLevels>,
    s: Seq<char>,
    before: Seq<crate::inject::KeyStep>,
    after: Seq<crate::inject::KeyStep>,
    i: int,
)
    requires
        typed(keys, s, before, after),
    ensures
        ({
            let covered = |c: char|
                65 <= c as int <= 90 || 97 <= c as int <= 122 || 48 <= c as int <= 57 || c as int
                    == 32;
            let has_key = |c: char| crate::inject::resolved(keys, c as u32) is Some;
            let all_covered = forall|j: int| 0 <= j < s.len() ==> covered(#[trigger] s[j]);
            &&& 0 <= i < s.len() && !covered(s[i]) ==> after == before
            &&& all_covered && (forall|j: int| 0 <= j < s.len() ==> has_key(#[trigger] s[j]))
                ==> after == before + crate::inject::text_steps(keys, s)
            &&& all_covered && 0 <= i < s.len() && !has_key(s[i]) && (forall|j: int|
                0 <= j < i ==> has_key(#[trigger] s[j])) ==> after == before
                + crate::inject::text_steps(keys, s.take(i))
        }),
{
    let covered = |c: char|
        65 <= c as int <= 90 || 97 <= c as int <= 122 || 48 <= c as int <= 57 || c as int == 32;
    let has_key = |c: char| crate::inject::resolved(keys, c as u32) is Some;
    if 0 <= i < s.len() && !covered(s[i]) {
        lemma_some_untypable(s, i);
    }
    if forall|j: int| 0 <= j < s.len() ==> covered(#[trigger] s[j]) {
        assert forall|k: int| !crate::inject::first_untypable(s, k) by {
            if crate::inject::first_untypable(s, k) {
                assert(covered(s[k]));
            }
        }
        if forall|j: int| 0 <= j < s.len() ==> has_key(#[trigger] s[j]) {
            assert forall|k: int| !crate::inject::first_keyless(keys, s, k) by {
                if crate::inject::first_keyless(keys, s, k) {
                    assert(has_key(s[k]));
                }
            }
        }
        if 0 <= i < s.len() && !has_key(s[i]) && (forall|j: int|
            0 <= j < i ==> has_key(#[trigger] s[j])) {
            assert forall|j: int| 0 <= j < i implies crate::inject::resolved(
                keys,
                (#[trigger] s[j]) as u32,
            ) is Some by {
                assert(has_key(s[j]));
            }
            assert(crate::inject::first_keyless(keys, s, i));
            let k = choose|k: int| #[trigger]
                crate::inject::first_keyless(keys, s, k) && after == before
                    + crate::inject::text_steps(keys, s.take(k));
            assert(crate::inject::first_keyless(keys, s, k));
            if k < i {
                assert(has_key(s[k]));
            }
            if i < k {
                assert(crate::inject::resolved(keys, s[i] as u32) is Some);
            }
        }
    }
}

proof fn lemma_some_untypable(s: Seq<char>, i: int)
    requires
        0 <= i < s.len(),
        !crate::inject::typable(s[i]),
    ensures
        exists|k: int| crate::inject::first_untypable(s, k),
    decreases i,
{
    if exists|j: int| 0 <= j < i && !crate::inject::typable(#[trigger] s[j]) {
        let j = choose|j: int| 0 <= j < i && !crate::inject::typable(#[trigger] s[j]);
        lemma_some_untypable(s, j);
    } else {
        assert(crate::inject::first_untypable(s, i));
    }
}

/// Input changes nothing of the manager but the binding that repeats, by keys, and the
/// travel that has not switched a workspace yet, by the wheel.
pub proof fn law_input_changes_little(
    before: ShoestringWm,
    event: InputEvent,
    plan: InputPlan,
    after: ShoestringWm,
)
    requires
        processed(before, event, plan, after),
    ensures
        after == (ShoestringWm {
            key_repeat: after.key_repeat,
            desktop_scroll_accum: after.desktop_scroll_accum,
            ..before
        }),
        !(event is Keyboard) ==> after.key_repeat == before.key_repeat,
        !(event is PointerAxis) ==> after.desktop_scroll_accum == before.desktop_scroll_accum,
{
}

/// A key event changes nothing of the manager but the binding that repeats.
pub proof fn law_keys_change_repeat_alone(
    before: ShoestringWm,
    keycode: u32,
    pressed: bool,
    sym: Option<u32>,
    mods: ModifiersState,
    r: KeyOutcome,
    after: ShoestringWm,
)
    requires
        key_outcome(before, keycode, pressed, sym, mods, r, after),
    ensures
        after == (ShoestringWm { key_repeat: after.key_repeat, ..before }),
{
}

/// An action changes the desktop only where it tiles, maximizes, hides or shows a
/// window, and the queue of keys only where it types; nothing else changes. Neither the
/// outputs nor the places of windows change, nor which windows are known, which has the
/// focus, and which workspace is active.
pub proof fn law_actions_change_little(
    before: ShoestringWm,
    action: Action,
    alive: Seq<u64>,
    after: ShoestringWm,
    r: Command,
)
    requires
        dispatched(before, action, alive, after, r),
    ensures
        after == (ShoestringWm { desktop: after.desktop, key_queue: after.key_queue, ..before }),
        !(action is InjectText) ==> after.key_queue == before.key_queue,
        !(action is TileLeft || action is TileRight || action is Maximize || action is Minimize
            || action is Unminimize) ==> after.desktop == before.desktop,
        after.desktop.space == before.desktop.space,
        after.desktop.outputs == before.desktop.outputs,
        after.desktop.toplevels == before.desktop.toplevels,
        after.desktop.focused == before.desktop.focused,
        after.desktop.workspaces.active == before.desktop.workspaces.active,
        after.desktop.workspaces.count == before.desktop.workspaces.count,
{
}

/// A window that is put away is off the desktop, and every other one is where it was;
/// the focus is cleared where that was said, and nothing else changes.
pub proof fn law_put_away_alone(
    before: crate::desktop::Desktop,
    plan: HidePlan,
    after: crate::desktop::Desktop,
    p: crate::layout::Placed,
)
    requires
        put_away(before, plan, after),
    ensures
        after.space.elements@.contains(p) <==> before.space.elements@.contains(p) && p.window.id
            != plan.window,
        after.space.outputs == before.space.outputs,
        plan.clear_focus ==> after.focused is None,
        !plan.clear_focus ==> after.focused == before.focused,
        after == (crate::desktop::Desktop {
            space: after.space,
            focused: after.focused,
            ..before
        }),
{
    crate::seqs::lemma_filter_in(
        before.space.elements@,
        |p: crate::layout::Placed| p.window.id != plan.window,
        p,
    );
}

/// With fewer than two windows there is none to go on to.
pub proof fn law_no_round_of_one(d: crate::desktop::Desktop)
    requires
        d.space.elements@.len() < 2,
    ensures
        cycle_done(d, None),
{
}

} // verus!
