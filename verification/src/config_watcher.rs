//! Reading the configuration anew when its file changes.

use vstd::prelude::*;

use crate::binds::Binding;
use crate::binds::BindingTable;
use crate::config::xkb_changed;
use crate::config::Config;
use crate::ipc::ClientId;
use crate::state::ShoestringWm;
use crate::text::concat2;
use crate::text::concat3;
use crate::text::str_eq;

verus! {

/// How long the file has to rest before it is read, in milliseconds.
pub const DEBOUNCE_MS: u64 = 150;

/// What is watched: the directory, and the name of the file in it. A file is
/// replaced by renaming, so a watch on the file itself would be lost.
#[derive(Debug)]
pub struct ConfigWatcher {
    pub directory: String,
    pub file_name: String,
}

/// What came of starting the watcher.
#[derive(Debug)]
pub enum WatchStart {
    /// No file is in use.
    NoFile,
    Started,
    Failed(String),
}

/// The kind of a change in the directory.
#[derive(Clone, Copy, Debug, PartialEq, Eq, Structural)]
pub enum ChangeKind {
    Any,
    Access,
    Create,
    Modify,
    Remove,
    Other,
}

/// A configuration that was read: the settings, the bindings, and for each
/// binding the keysym of its key.
#[derive(Debug)]
pub struct Loaded {
    pub config: Config,
    pub bindings: Vec<Binding>,
    pub keysyms: Vec<u32>,
}

/// What follows a successful reload.
#[derive(Debug)]
pub struct Reloaded {
    /// What was wrong with the bindings.
    pub warnings: Vec<String>,
    /// Whether the keymap is built anew. That resets the active layout, so it is
    /// done only where the settings have changed.
    pub rebuild_keymap: bool,
    /// The connections that are told of it.
    pub subscribers: Vec<ClientId>,
}

/// Whether some name of a list is the given one.
pub open spec fn names_file(names: Seq<Option<String>>, file: Seq<char>) -> bool {
    exists|i: int|
        0 <= i < names.len() && crate::text::opt_view(#[trigger] names[i]) == Some(file)
}

impl ConfigWatcher {
    /// What to watch for a file, given the directory that it is in and its name
    /// there.
    pub fn target(path: &str, directory: Option<String>, file_name: Option<String>) -> (r: Result<
        ConfigWatcher,
        String,
    >)
        ensures
            match r {
                Ok(w) => directory == Some(w.directory) && file_name == Some(w.file_name),
                Err(e) => if directory is None {
                    e@ == "config path has no parent: "@ + path@
                } else {
                    file_name is None && e@ == "config path has no file name: "@ + path@
                },
            },
    {
        match directory {
            None => Err(concat2("config path has no parent: ", path)),
            Some(directory) => match file_name {
                None => Err(concat2("config path has no file name: ", path)),
                Some(file_name) => Ok(ConfigWatcher { directory, file_name }),
            },
        }
    }

    /// Whether a change in the directory may have changed the file. `names` are
    /// the file names of the changed paths.
    pub fn concerns(&self, kind: ChangeKind, names: &Vec<Option<String>>) -> (r: bool)
        ensures
            r == ((kind == ChangeKind::Create || kind == ChangeKind::Modify || kind
                == ChangeKind::Remove) && names_file(names@, self.file_name@)),
    {
        let changes = match kind {
            ChangeKind::Create => true,
            ChangeKind::Modify => true,
            ChangeKind::Remove => true,
            _ => false,
        };
        if !changes {
            return false;
        }
        let mut i: usize = 0;
        while i < names.len()
            invariant
                i <= names@.len(),
                changes,
                changes == (kind == ChangeKind::Create || kind == ChangeKind::Modify || kind
                    == ChangeKind::Remove),
                forall|j: int|
                    0 <= j < i ==> crate::text::opt_view(#[trigger] names@[j]) != Some(
                        self.file_name@,
                    ),
            decreases names@.len() - i,
        {
            if let Some(n) = &names[i] {
                if str_eq(n.as_str(), self.file_name.as_str()) {
                    assert(crate::text::opt_view(names@[i as int]) == Some(self.file_name@));
                    return true;
                }
            }
            i += 1;
        }
        false
    }
}

impl ShoestringWm {
    /// The watcher was installed, or could not be. Without a file there is none.
    /// A failure leaves the manager running, without a watcher of its own.
    pub fn start_config_watcher(&mut self, installed: Result<ConfigWatcher, String>) -> (r:
        WatchStart)
        ensures
            *final(self) == (ShoestringWm {
                config_watcher: final(self).config_watcher,
                ..*old(self)
            }),
            match (old(self).config_path, installed) {
                (None, _) => r is NoFile && final(self).config_watcher == old(self).config_watcher,
                (Some(_), Ok(w)) => r is Started && final(self).config_watcher == Some(w),
                (Some(_), Err(e)) => r == WatchStart::Failed(e) && final(self).config_watcher
                    == old(self).config_watcher,
            },
    {
        if self.config_path.is_none() {
            return WatchStart::NoFile;
        }
        match installed {
            Ok(w) => {
                self.config_watcher = Some(w);
                WatchStart::Started
            },
            Err(e) => WatchStart::Failed(e),
        }
    }

    /// The file was read, or could not be. On success the settings and the
    /// bindings are the new ones; on failure nothing changes.
    pub fn reload_config_from_disk(&mut self, loaded: Result<Loaded, String>) -> (r: Result<
        Reloaded,
        String,
    >)
        requires
            loaded matches Ok(l) ==> l.bindings@.len() == l.keysyms@.len(),
        ensures
            *final(self) == (ShoestringWm {
                config: final(self).config,
                bindings: final(self).bindings,
                ..*old(self)
            }),
            match (old(self).config_path, loaded) {
                (None, _) => {
                    &&& *final(self) == *old(self)
                    &&& r matches Err(e)
                    &&& e@ == "no config file is in use (WM was launched without --config)"@
                },
                (Some(path), Err(why)) => {
                    &&& *final(self) == *old(self)
                    &&& r matches Err(e)
                    &&& e@ == path@ + ": "@ + why@
                },
                (Some(_), Ok(l)) => {
                    &&& final(self).config == l.config
                    &&& crate::binds::compiled(
                        l.bindings@,
                        l.keysyms@,
                        crate::binds::usable(l.bindings@, l.keysyms@),
                        final(self).bindings.binds@,
                    )
                    &&& r matches Ok(done)
                    &&& crate::text::views(done.warnings@) == crate::binds::complaints(
                        l.bindings@,
                        l.keysyms@,
                    )
                    &&& done.rebuild_keymap == !crate::config::same_xkb(
                        old(self).config.xkb,
                        l.config.xkb,
                    )
                    &&& done.subscribers@ == crate::backend::outputs::followers(*old(self))
                },
            },
    {
        match &self.config_path {
            None => Err(
                "no config file is in use (WM was launched without --config)".to_string(),
            ),
            Some(path) => match loaded {
                Err(why) => Err(concat3(path.as_str(), ": ", why.as_str())),
                Ok(l) => {
                    let (table, warnings) = BindingTable::compile(&l.bindings, &l.keysyms);
                    let rebuild_keymap = xkb_changed(&self.config.xkb, &l.config.xkb);
                    self.config = l.config;
                    self.bindings = table;
                    Ok(Reloaded { warnings, rebuild_keymap, subscribers: self.emit_ipc() })
                },
            },
        }
    }

    /// The file has changed. The result is the timer to cancel: only a change
    /// that none follows within [`DEBOUNCE_MS`] leads to a reload.
    pub fn debounce_config_reload(&mut self) -> (r: Option<u64>)
        ensures
            debounced(*old(self), r, *final(self)),
    {
        self.pending_reload_token.take()
    }

    /// The timer was set, or could not be.
    pub fn reload_armed(&mut self, token: Option<u64>)
        ensures
            armed(*old(self), token, *final(self)),
    {
        if token.is_some() {
            self.pending_reload_token = token;
        }
    }

    /// The timer has fired; the file is read now.
    pub fn reload_fired(&mut self)
        ensures
            *final(self) == (ShoestringWm { pending_reload_token: None, ..*old(self) }),
    {
        self.pending_reload_token = None;
    }
}

/// What a change of the file leaves: no timer, and the one to cancel.
pub open spec fn debounced(before: ShoestringWm, stop: Option<u64>, after: ShoestringWm) -> bool {
    &&& stop == before.pending_reload_token
    &&& after == (ShoestringWm { pending_reload_token: None, ..before })
}

/// What setting the timer leaves; one that could not be set changes nothing.
pub open spec fn armed(before: ShoestringWm, token: Option<u64>, after: ShoestringWm) -> bool {
    after == (ShoestringWm {
        pending_reload_token: match token {
            Some(t) => Some(t),
            None => before.pending_reload_token,
        },
        ..before
    })
}

/// A change of the file: the timer that it cancels, the state between, and the
/// timer that it sets.
pub struct FileChange {
    pub stop: Option<u64>,
    pub between: ShoestringWm,
    pub token: u64,
}

/// Whether a change of the file leads from one state to another.
pub open spec fn change_step(before: ShoestringWm, c: FileChange, after: ShoestringWm) -> bool {
    debounced(before, c.stop, c.between) && armed(c.between, Some(c.token), after)
}

/// A manager that waits for a timer, and is otherwise as it was.
pub open spec fn waiting(before: ShoestringWm, token: u64) -> ShoestringWm {
    ShoestringWm { pending_reload_token: Some(token), ..before }
}

proof fn lemma_change(before: ShoestringWm, c: FileChange, after: ShoestringWm)
    requires
        change_step(before, c, after),
    ensures
        c.stop == before.pending_reload_token,
        after == waiting(before, c.token),
{
}

proof fn lemma_waits(states: Seq<ShoestringWm>, changes: Seq<FileChange>, k: int)
    requires
        0 <= k < changes.len(),
        forall|i: int|
            #![trigger changes[i]]
            0 <= i < changes.len() ==> change_step(states[i], changes[i], states[i + 1]),
    ensures
        states[k + 1] == waiting(states[0], changes[k].token),
        changes[k].stop == if k == 0 {
            states[0].pending_reload_token
        } else {
            Some(changes[k - 1].token)
        },
    decreases k,
{
    lemma_change(states[k], changes[k], states[k + 1]);
    if k > 0 {
        lemma_waits(states, changes, k - 1);
    }
}

/// However many changes come in a row, one timer is left: the one that the last
/// change has set. Each change cancels the timer of the one before, and nothing
/// else of the state changes.
pub proof fn law_burst_reloads_once(states: Seq<ShoestringWm>, changes: Seq<FileChange>)
    requires
        changes.len() > 0,
        states.len() == changes.len() + 1,
        states[0].pending_reload_token is None,
        forall|i: int|
            #![trigger changes[i]]
            0 <= i < changes.len() ==> change_step(states[i], changes[i], states[i + 1]),
    ensures
        changes[0].stop is None,
        forall|i: int|
            1 <= i < changes.len() ==> (#[trigger] changes[i]).stop == Some(changes[i - 1].token),
        states.last() == waiting(states[0], changes.last().token),
{
    assert forall|i: int| 0 <= i < changes.len() implies (#[trigger] changes[i]).stop == if i
        == 0 {
        None
    } else {
        Some(changes[i - 1].token)
    } by {
        lemma_waits(states, changes, i);
    }
    lemma_waits(states, changes, changes.len() - 1);
}

/// A change of the file cancels the timer that runs, and a timer that was set is the
/// one that runs; one that could not be set leaves things as they are.
pub proof fn law_timer_of_a_change(
    before: ShoestringWm,
    stop: Option<u64>,
    between: ShoestringWm,
    token: Option<u64>,
    after: ShoestringWm,
)
    requires
        debounced(before, stop, between),
        armed(between, token, after),
    ensures
        stop == before.pending_reload_token,
        between.pending_reload_token is None,
        after.pending_reload_token == token,
        after.config == before.config && after.bindings == before.bindings,
{
}

/// A list of names names a file exactly where one of them is its name.
pub proof fn law_file_named(names: Seq<Option<String>>, file: Seq<char>, i: int)
    ensures
        0 <= i < names.len() && (names[i] matches Some(s) && s@ == file) ==> names_file(names, file),
        (forall|j: int|
            0 <= j < names.len() ==> ((#[trigger] names[j]) matches Some(s) ==> s@ != file))
            ==> !names_file(names, file),
{
}

/// A change of the file changes nothing of the manager but the timer.
pub proof fn law_change_sets_timer_alone(
    before: ShoestringWm,
    stop: Option<u64>,
    between: ShoestringWm,
    token: Option<u64>,
    after: ShoestringWm,
)
    requires
        debounced(before, stop, between),
        armed(between, token, after),
    ensures
        between == (ShoestringWm { pending_reload_token: None, ..before }),
        after == (ShoestringWm { pending_reload_token: token, ..before }),
{
}

} // verus!
