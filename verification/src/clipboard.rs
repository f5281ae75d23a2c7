//! The clipboard and the primary selection for clients of the socket: reading
//! what a window offers, and offering what a client has set.

use std::collections::HashMap;

use vstd::prelude::*;

use crate::ipc::ClientId;
use crate::seqs::copy_vec;
use crate::state::ShoestringWm;
use crate::text::clone_strings;
use crate::text::concat2;
use crate::text::contains_str;
use crate::text::starts_with;
use crate::text::str_eq;

verus! {

broadcast use vstd::std_specs::hash::group_hash_axioms;

/// One selection: the types that its owner offers, and the bytes per type where
/// the manager is the owner.
#[derive(Debug)]
pub struct Selection {
    pub mimes: Vec<String>,
    pub cache: Vec<(String, Vec<u8>)>,
}

/// Which selection is meant.
#[derive(Clone, Copy, Debug, PartialEq, Eq, Structural)]
pub enum SelectionTarget {
    Clipboard,
    Primary,
}

/// A read that waits for the owner to write.
#[derive(Debug)]
pub struct ClipboardRead {
    pub client: ClientId,
    pub mime: String,
    /// What has come so far.
    pub buf: Vec<u8>,
    /// The watch on the pipe.
    pub token: Option<u64>,
}

/// The selections and the reads that are under way.
#[derive(Debug)]
pub struct ClipboardBroker {
    pub clipboard: Selection,
    pub primary: Selection,
    pub pending_reads: HashMap<u64, ClipboardRead>,
    pub next_read_id: u64,
}

impl ClipboardBroker {
    /// Nobody owns a selection, and nothing is read.
    pub fn new() -> (r: Self)
        ensures
            r.clipboard.mimes@.len() == 0,
            r.clipboard.cache@.len() == 0,
            r.primary.mimes@.len() == 0,
            r.primary.cache@.len() == 0,
            r.pending_reads@ == Map::<u64, ClipboardRead>::empty(),
            r.next_read_id == 0,
    {
        ClipboardBroker {
            clipboard: Selection::new(),
            primary: Selection::new(),
            pending_reads: HashMap::new(),
            next_read_id: 0,
        }
    }
}

/// The answer to a read.
#[derive(Debug)]
pub enum ClipboardReply {
    Clipboard { mime: Option<String>, data: Vec<u8> },
    Error { message: String },
}

/// What is done for a read.
#[derive(Debug)]
pub enum GetPlan {
    Reply(ClipboardReply),
    /// Ask the owner to write this type into a pipe.
    AskOwner { mime: String },
}

/// What came of asking the owner.
#[derive(Debug)]
pub enum AskOutcome {
    /// There is no pipe, for this reason.
    NoPipe(String),
    /// The owner is gone, or does not have the type.
    Refused,
    Asked,
}

/// What follows asking the owner.
#[derive(Debug)]
pub enum AskPlan {
    Reply(ClipboardReply),
    /// The answer comes when the pipe is drained; the read has this number.
    Wait { read_id: u64 },
}

/// A read that is over: who to answer, with what, and the watch to remove.
#[derive(Debug)]
pub struct FinishedRead {
    pub client: ClientId,
    pub reply: ClipboardReply,
    pub token: Option<u64>,
}

/// The types of text, the best first.
pub open spec fn text_mimes() -> Seq<Seq<char>> {
    seq![
        "text/plain;charset=utf-8"@,
        "text/plain"@,
        "UTF8_STRING"@,
        "STRING"@,
        "TEXT"@,
    ]
}

/// The types of text, the best first.
fn text_mime_list() -> (r: Vec<String>)
    ensures
        crate::text::views(r@) == text_mimes(),
{
    let mut v: Vec<String> = Vec::new();
    v.push("text/plain;charset=utf-8".to_string());
    v.push("text/plain".to_string());
    v.push("UTF8_STRING".to_string());
    v.push("STRING".to_string());
    v.push("TEXT".to_string());
    assert(crate::text::views(v@) =~= text_mimes());
    v
}

/// Whether the type of text at `i` is the best that is available.
pub open spec fn best_text(available: Seq<String>, i: int) -> bool {
    &&& 0 <= i < text_mimes().len()
    &&& crate::text::views(available).contains(text_mimes()[i])
    &&& forall|j: int|
        0 <= j < i ==> !crate::text::views(available).contains(#[trigger] text_mimes()[j])
}

/// The best type of text that is available.
pub fn pick_text_mime(available: &Vec<String>) -> (r: Option<String>)
    ensures
        match r {
            Some(m) => exists|i: int| best_text(available@, i) && m@ == text_mimes()[i],
            None => forall|i: int| !best_text(available@, i),
        },
        r is None ==> forall|i: int|
            0 <= i < text_mimes().len() ==> !crate::text::views(available@).contains(
                #[trigger] text_mimes()[i],
            ),
{
    let mut list = text_mime_list();
    let mut i: usize = 0;
    while i < list.len()
        invariant
            i <= list@.len(),
            crate::text::views(list@) == text_mimes(),
            forall|j: int|
                0 <= j < i ==> !crate::text::views(available@).contains(
                    #[trigger] text_mimes()[j],
                ),
        decreases list@.len() - i,
    {
        assert(text_mimes()[i as int] == crate::text::views(list@)[i as int]);
        if contains_str(available, list[i].as_str()) {
            assert(best_text(available@, i as int));
            return Some(list[i].clone());
        }
        i += 1;
    }
    assert(crate::text::views(list@).len() == list@.len());
    None
}

/// Whether a type is text.
pub open spec fn is_text(mime: Seq<char>) -> bool {
    "text/"@.is_prefix_of(mime) || text_mimes().contains(mime)
}

/// The types under which something is offered: text under all types of text, so
/// that whoever pastes finds the one that they ask for, anything else as it is.
pub fn offered_mimes(mime: &str) -> (r: Vec<String>)
    ensures
        crate::text::views(r@) == offered(mime@),
{
    let list = text_mime_list();
    if starts_with(mime, "text/") || contains_str(&list, mime) {
        return list;
    }
    let mut v: Vec<String> = Vec::new();
    v.push(mime.to_string());
    assert(crate::text::views(v@) =~= seq![mime@]);
    v
}

/// The types under which something is offered.
pub open spec fn offered(mime: Seq<char>) -> Seq<Seq<char>> {
    if is_text(mime) {
        text_mimes()
    } else {
        seq![mime]
    }
}

/// The types under which the manager keeps what a client has set: those under
/// which it is offered, and the one that the client has named.
pub open spec fn cached_types(mime: Seq<char>) -> Seq<Seq<char>> {
    if offered(mime).contains(mime) {
        offered(mime)
    } else {
        offered(mime).push(mime)
    }
}

fn types_to_cache(mime: &str) -> (r: Vec<String>)
    ensures
        crate::text::views(r@) == cached_types(mime@),
{
    let mut v = offered_mimes(mime);
    if !contains_str(&v, mime) {
        v.push(mime.to_string());
        assert(crate::text::views(v@) =~= cached_types(mime@));
    }
    v
}

/// Whether the entry at `i` is the first of its type.
pub open spec fn cached_at(cache: Seq<(String, Vec<u8>)>, mime: Seq<char>, i: int) -> bool {
    &&& 0 <= i < cache.len()
    &&& cache[i].0@ == mime
    &&& forall|j: int| 0 <= j < i ==> (#[trigger] cache[j]).0@ != mime
}

impl Selection {
    /// The bytes of a type, where the manager is the owner and has them.
    pub open spec fn bytes(self, mime: Seq<char>) -> Option<Seq<u8>> {
        if exists|i: int| cached_at(self.cache@, mime, i) {
            Some(self.cache@[choose|i: int| cached_at(self.cache@, mime, i)].1@)
        } else {
            None
        }
    }

    /// Nobody owns the selection.
    pub fn new() -> (r: Self)
        ensures
            r.mimes@.len() == 0,
            r.cache@.len() == 0,
    {
        Selection { mimes: Vec::new(), cache: Vec::new() }
    }

    /// The bytes of a type, where the manager is the owner and has them.
    pub fn lookup(&self, mime: &str) -> (r: Option<Vec<u8>>)
        ensures
            match r {
                Some(v) => self.bytes(mime@) == Some(v@),
                None => self.bytes(mime@) is None,
            },
    {
        let mut i: usize = 0;
        while i < self.cache.len()
            invariant
                i <= self.cache@.len(),
                forall|j: int| 0 <= j < i ==> (#[trigger] self.cache@[j]).0@ != mime@,
            decreases self.cache@.len() - i,
        {
            if str_eq(self.cache[i].0.as_str(), mime) {
                proof {
                    assert(cached_at(self.cache@, mime@, i as int));
                    let k = choose|k: int| cached_at(self.cache@, mime@, k);
                    assert(cached_at(self.cache@, mime@, k));
                    if k < i {
                        assert(self.cache@[k].0@ != mime@);
                    }
                    if (i as int) < k {
                        assert(self.cache@[i as int].0@ != mime@);
                    }
                }
                return Some(copy_vec(&self.cache[i].1));
            }
            i += 1;
        }
        assert(forall|k: int| !cached_at(self.cache@, mime@, k));
        None
    }

    /// The manager becomes the owner, with the same bytes for each type.
    fn own(&mut self, mimes: Vec<String>, data: &Vec<u8>)
        ensures
            final(self).mimes == mimes,
            holds_for_all(final(self).cache@, crate::text::views(mimes@), data@),
    {
        let mut cache: Vec<(String, Vec<u8>)> = Vec::new();
        let mut i: usize = 0;
        while i < mimes.len()
            invariant
                i <= mimes@.len(),
                holds_for_all(cache@, crate::text::views(mimes@).take(i as int), data@),
            decreases mimes@.len() - i,
        {
            cache.push((mimes[i].clone(), copy_vec(data)));
            i += 1;
        }
        assert(crate::text::views(mimes@).take(i as int) =~= crate::text::views(mimes@));
        self.cache = cache;
        self.mimes = mimes;
    }
}

/// Whether a cache holds exactly the types, in order, each with the bytes.
pub open spec fn holds_for_all(
    cache: Seq<(String, Vec<u8>)>,
    mimes: Seq<Seq<char>>,
    data: Seq<u8>,
) -> bool {
    &&& cache.len() == mimes.len()
    &&& forall|i: int|
        0 <= i < cache.len() ==> (#[trigger] cache[i]).0@ == mimes[i] && cache[i].1@ == data
}

/// Whether an answer says that nothing can be read.
pub open spec fn is_empty_reply(r: ClipboardReply) -> bool {
    r matches ClipboardReply::Clipboard { mime, data } && mime is None && data@.len() == 0
}

/// Whether an answer gives these bytes of a type.
pub open spec fn is_data_reply(r: ClipboardReply, m: Seq<char>, d: Seq<u8>) -> bool {
    r matches ClipboardReply::Clipboard { mime, data } && crate::text::opt_view(mime) == Some(m)
        && data@ == d
}

/// What is done for a read of a selection.
pub open spec fn get_planned(s: Selection, r: GetPlan) -> bool {
    if exists|i: int| best_text(s.mimes@, i) {
        let m = text_mimes()[choose|i: int| best_text(s.mimes@, i)];
        match s.bytes(m) {
            Some(d) => r matches GetPlan::Reply(reply) && is_data_reply(reply, m, d),
            None => r matches GetPlan::AskOwner { mime } && mime@ == m,
        }
    } else {
        r matches GetPlan::Reply(reply) && is_empty_reply(reply)
    }
}

proof fn lemma_best_unique(available: Seq<String>, i: int, j: int)
    requires
        best_text(available, i),
        best_text(available, j),
    ensures
        i == j,
{
    if i < j {
        assert(!crate::text::views(available).contains(text_mimes()[i]));
    }
    if j < i {
        assert(!crate::text::views(available).contains(text_mimes()[j]));
    }
}

fn empty_reply() -> (r: ClipboardReply)
    ensures
        is_empty_reply(r),
{
    ClipboardReply::Clipboard { mime: None, data: Vec::new() }
}

impl ClipboardBroker {
    /// The selection that is meant.
    pub open spec fn selection(self, primary: bool) -> Selection {
        if primary {
            self.primary
        } else {
            self.clipboard
        }
    }
}

impl ShoestringWm {
    /// What is done for a client that reads a selection: text that the manager
    /// owns is given at once, text that a window owns is asked for, and without
    /// text the answer is empty.
    pub fn handle_get_clipboard(&self, primary: bool) -> (r: GetPlan)
        ensures
            get_planned(self.clipboard.selection(primary), r),
    {
        let s = if primary {
            &self.clipboard.primary
        } else {
            &self.clipboard.clipboard
        };
        match pick_text_mime(&s.mimes) {
            None => GetPlan::Reply(empty_reply()),
            Some(mime) => {
                proof {
                    let i = choose|i: int| best_text(s.mimes@, i) && mime@ == text_mimes()[i];
                    let k = choose|k: int| best_text(s.mimes@, k);
                    assert(best_text(s.mimes@, i));
                    lemma_best_unique(s.mimes@, i, k);
                }
                match s.lookup(mime.as_str()) {
                    Some(data) => GetPlan::Reply(
                        ClipboardReply::Clipboard { mime: Some(mime), data },
                    ),
                    None => GetPlan::AskOwner { mime },
                }
            },
        }
    }

    /// The owner was asked for a type, or could not be. A refusal is answered as
    /// an empty selection.
    pub fn clipboard_asked(&mut self, client: ClientId, mime: String, outcome: AskOutcome) -> (r:
        AskPlan)
        ensures
            match outcome {
                AskOutcome::NoPipe(why) => {
                    &&& *final(self) == *old(self)
                    &&& r matches AskPlan::Reply(ClipboardReply::Error { message })
                    &&& message@ == "clipboard: pipe failed: "@ + why@
                },
                AskOutcome::Refused => {
                    &&& *final(self) == *old(self)
                    &&& r matches AskPlan::Reply(reply)
                    &&& is_empty_reply(reply)
                },
                AskOutcome::Asked => {
                    let id = old(self).clipboard.next_read_id;
                    &&& r == AskPlan::Wait { read_id: id }
                    &&& final(self).clipboard.next_read_id == (if id == u64::MAX {
                        0
                    } else {
                        (id + 1) as u64
                    })
                    &&& exists|p: ClipboardRead| #[trigger]
                        fresh_read(p, client, mime@) && final(self).clipboard.pending_reads@
                            == old(self).clipboard.pending_reads@.insert(id, p)
                    &&& *final(self) == (ShoestringWm {
                        clipboard: ClipboardBroker {
                            pending_reads: final(self).clipboard.pending_reads,
                            next_read_id: final(self).clipboard.next_read_id,
                            ..old(self).clipboard
                        },
                        ..*old(self)
                    })
                },
            },
    {
        match outcome {
            AskOutcome::NoPipe(why) => AskPlan::Reply(
                ClipboardReply::Error {
                    message: concat2("clipboard: pipe failed: ", why.as_str()),
                },
            ),
            AskOutcome::Refused => AskPlan::Reply(empty_reply()),
            AskOutcome::Asked => {
                let read_id = self.clipboard.next_read_id;
                self.clipboard.next_read_id = self.clipboard.next_read_id.wrapping_add(1);
                let p = ClipboardRead { client, mime, buf: Vec::new(), token: None };
                assert(fresh_read(p, client, mime@));
                self.clipboard.pending_reads.insert(read_id, p);
                AskPlan::Wait { read_id }
            },
        }
    }

    /// The pipe of a read is watched.
    pub fn clipboard_watched(&mut self, read_id: u64, token: u64)
        ensures
            final(self).clipboard.pending_reads@ == (if old(self).clipboard.pending_reads@.contains_key(read_id) {
                old(self).clipboard.pending_reads@.insert(
                    read_id,
                    ClipboardRead {
                        token: Some(token),
                        ..old(self).clipboard.pending_reads@[read_id]
                    },
                )
            } else {
                old(self).clipboard.pending_reads@
            }),
            *final(self) == (ShoestringWm {
                clipboard: ClipboardBroker {
                    pending_reads: final(self).clipboard.pending_reads,
                    ..old(self).clipboard
                },
                ..*old(self)
            }),
    {
        match self.clipboard.pending_reads.remove(&read_id) {
            Some(p) => {
                let mut q = p;
                q.token = Some(token);
                self.clipboard.pending_reads.insert(read_id, q);
                assert(self.clipboard.pending_reads@
                    =~= old(self).clipboard.pending_reads@.insert(read_id, q));
            },
            None => {
                assert(self.clipboard.pending_reads@ =~= old(self).clipboard.pending_reads@);
            },
        }
    }

    /// The owner has written these bytes.
    pub fn clipboard_data(&mut self, read_id: u64, bytes: Vec<u8>)
        ensures
            bytes_noted(
                old(self).clipboard.pending_reads@,
                read_id,
                bytes@,
                final(self).clipboard.pending_reads@,
            ),
            *final(self) == (ShoestringWm {
                clipboard: ClipboardBroker {
                    pending_reads: final(self).clipboard.pending_reads,
                    ..old(self).clipboard
                },
                ..*old(self)
            }),
    {
        match self.clipboard.pending_reads.remove(&read_id) {
            Some(p) => {
                let mut q = p;
                let mut more = bytes;
                q.buf.append(&mut more);
                self.clipboard.pending_reads.insert(read_id, q);
                assert(self.clipboard.pending_reads@.dom()
                    =~= old(self).clipboard.pending_reads@.dom());
            },
            None => {
                assert(self.clipboard.pending_reads@ =~= old(self).clipboard.pending_reads@);
            },
        }
    }

    /// The pipe is drained, or has failed: the client gets what came, and its
    /// connection is over.
    pub fn finalize_clipboard_read(&mut self, read_id: u64) -> (r: Option<FinishedRead>)
        requires
            old(self).ipc matches Some(s) ==> s.wf(),
        ensures
            final(self).clipboard.pending_reads@ == old(self).clipboard.pending_reads@.remove(
                read_id,
            ),
            match r {
                Some(f) => {
                    let p = old(self).clipboard.pending_reads@[read_id];
                    &&& old(self).clipboard.pending_reads@.contains_key(read_id)
                    &&& f.client == p.client
                    &&& f.token == p.token
                    &&& is_data_reply(f.reply, p.mime@, p.buf@)
                    &&& crate::ipc::hung_up(
                        ShoestringWm {
                            clipboard: final(self).clipboard,
                            ..*old(self)
                        },
                        p.client,
                        *final(self),
                    )
                },
                None => {
                    &&& !old(self).clipboard.pending_reads@.contains_key(read_id)
                    &&& *final(self) == (ShoestringWm {
                        clipboard: final(self).clipboard,
                        ..*old(self)
                    })
                },
            },
            final(self).clipboard == (ClipboardBroker {
                pending_reads: final(self).clipboard.pending_reads,
                ..old(self).clipboard
            }),
    {
        let p = match self.clipboard.pending_reads.remove(&read_id) {
            Some(p) => p,
            None => {
                assert(self.clipboard.pending_reads@
                    =~= old(self).clipboard.pending_reads@.remove(read_id));
                return None;
            },
        };
        self.drop_ipc_client(p.client);
        Some(
            FinishedRead {
                client: p.client,
                reply: ClipboardReply::Clipboard { mime: Some(p.mime), data: p.buf },
                token: p.token,
            },
        )
    }

    /// A client sets a selection: the manager becomes its owner, under the type
    /// that the client names and, for text, under all types of text. The result
    /// lists the types to offer.
    pub fn handle_set_clipboard(&mut self, primary: bool, mime: &str, data: &Vec<u8>) -> (r: Vec<
        String,
    >)
        ensures
            crate::text::views(r@) == cached_types(mime@),
            selection_set(final(self).clipboard.selection(primary), mime@, data@),
            final(self).clipboard.selection(!primary) == old(self).clipboard.selection(!primary),
            *final(self) == (ShoestringWm {
                clipboard: ClipboardBroker {
                    clipboard: final(self).clipboard.clipboard,
                    primary: final(self).clipboard.primary,
                    ..old(self).clipboard
                },
                ..*old(self)
            }),
    {
        let mimes = types_to_cache(mime);
        let offer = clone_strings(&mimes);
        if primary {
            self.clipboard.primary.own(mimes, data);
        } else {
            self.clipboard.clipboard.own(mimes, data);
        }
        offer
    }

    /// A window has taken a selection: its types are noted, and what the manager
    /// has had for it is dropped.
    pub fn note_new_selection(&mut self, ty: SelectionTarget, mimes: Vec<String>)
        ensures
            final(self).clipboard.selection(ty == SelectionTarget::Primary).mimes == mimes,
            final(self).clipboard.selection(ty == SelectionTarget::Primary).cache@.len() == 0,
            final(self).clipboard.selection(ty != SelectionTarget::Primary) == old(self).clipboard.selection(ty != SelectionTarget::Primary),
            *final(self) == (ShoestringWm {
                clipboard: ClipboardBroker {
                    clipboard: final(self).clipboard.clipboard,
                    primary: final(self).clipboard.primary,
                    ..old(self).clipboard
                },
                ..*old(self)
            }),
    {
        match ty {
            SelectionTarget::Clipboard => {
                self.clipboard.clipboard.mimes = mimes;
                self.clipboard.clipboard.cache = Vec::new();
            },
            SelectionTarget::Primary => {
                self.clipboard.primary.mimes = mimes;
                self.clipboard.primary.cache = Vec::new();
            },
        }
    }

    /// A window pastes a type of a selection that the manager owns: the bytes to
    /// write; none where there are none of the type.
    pub fn serve_clipboard_selection(&self, ty: SelectionTarget, mime: &str) -> (r: Option<Vec<u8>>)
        ensures
            match r {
                Some(v) => self.clipboard.selection(ty == SelectionTarget::Primary).bytes(mime@)
                    == Some(v@),
                None => self.clipboard.selection(ty == SelectionTarget::Primary).bytes(
                    mime@,
                ) is None,
            },
    {
        match ty {
            SelectionTarget::Clipboard => self.clipboard.clipboard.lookup(mime),
            SelectionTarget::Primary => self.clipboard.primary.lookup(mime),
        }
    }
}

/// What bytes of an owner leave: they stand behind those that came before. Bytes
/// for a read that is over change nothing.
pub open spec fn bytes_noted(
    before: Map<u64, ClipboardRead>,
    read_id: u64,
    bytes: Seq<u8>,
    after: Map<u64, ClipboardRead>,
) -> bool {
    if before.contains_key(read_id) {
        &&& after.dom() == before.dom()
        &&& after[read_id].buf@ == before[read_id].buf@ + bytes
        &&& after[read_id] == (ClipboardRead { buf: after[read_id].buf, ..before[read_id] })
        &&& forall|k: u64|
            k != read_id && before.contains_key(k) ==> #[trigger] after[k] == before[k]
    } else {
        after == before
    }
}

/// The bytes for one read, one piece behind the other.
pub open spec fn written_to(read_id: u64, pieces: Seq<(u64, Seq<u8>)>) -> Seq<u8>
    decreases pieces.len(),
{
    if pieces.len() == 0 {
        Seq::empty()
    } else {
        let before = written_to(read_id, pieces.drop_last());
        if pieces.last().0 == read_id {
            before + pieces.last().1
        } else {
            before
        }
    }
}

/// A client that reads a selection gets all that the owner writes, in order, in
/// however many pieces it comes and whatever other reads go on meanwhile: once the
/// read is over, this is what stands in the answer.
pub proof fn law_read_gathers_all(
    reads: Seq<Map<u64, ClipboardRead>>,
    pieces: Seq<(u64, Seq<u8>)>,
    read_id: u64,
    client: ClientId,
    mime: Seq<char>,
)
    requires
        reads.len() == pieces.len() + 1,
        reads[0].contains_key(read_id),
        fresh_read(reads[0][read_id], client, mime),
        forall|i: int|
            #![trigger pieces[i]]
            0 <= i < pieces.len() ==> bytes_noted(
                reads[i],
                pieces[i].0,
                pieces[i].1,
                reads[i + 1],
            ),
    ensures
        reads.last().contains_key(read_id),
        reads.last()[read_id].client == client,
        reads.last()[read_id].mime@ == mime,
        reads.last()[read_id].buf@ == written_to(read_id, pieces),
    decreases pieces.len(),
{
    if pieces.len() > 0 {
        let n = pieces.len() - 1;
        let front = pieces.drop_last();
        let before = reads.drop_last();
        assert forall|i: int| 0 <= i < front.len() implies bytes_noted(
            before[i],
            (#[trigger] front[i]).0,
            front[i].1,
            before[i + 1],
        ) by {
            assert(front[i] == pieces[i]);
        }
        law_read_gathers_all(before, front, read_id, client, mime);
        assert(before.last() == reads[n]);
        assert(bytes_noted(reads[n], pieces[n].0, pieces[n].1, reads[n + 1]));
        assert(reads[n + 1].dom().contains(read_id) == reads[n].dom().contains(read_id));
    } else {
        assert(reads.last() == reads[0]);
        assert(reads[0][read_id].buf@ =~= written_to(read_id, pieces));
    }
}

/// Whether a read has just begun.
pub open spec fn fresh_read(p: ClipboardRead, client: ClientId, mime: Seq<char>) -> bool {
    &&& p.client == client
    &&& p.mime@ == mime
    &&& p.buf@ == Seq::<u8>::empty()
    &&& p.token is None
}

/// What setting a selection leaves behind.
pub open spec fn selection_set(s: Selection, mime: Seq<char>, data: Seq<u8>) -> bool {
    &&& crate::text::views(s.mimes@) == cached_types(mime)
    &&& holds_for_all(s.cache@, cached_types(mime), data)
}

proof fn lemma_set_bytes(s: Selection, mime: Seq<char>, data: Seq<u8>, m: Seq<char>)
    requires
        selection_set(s, mime, data),
    ensures
        cached_types(mime).contains(m) ==> s.bytes(m) == Some(data),
        !cached_types(mime).contains(m) ==> s.bytes(m) is None,
{
    if cached_types(mime).contains(m) {
        let k = choose|k: int| 0 <= k < cached_types(mime).len() && cached_types(mime)[k] == m;
        assert(s.cache@[k].0@ == m);
        lemma_first_cached(s.cache@, m, k);
        let c = choose|i: int| cached_at(s.cache@, m, i);
        assert(cached_at(s.cache@, m, c));
        assert(s.cache@[c].1@ == data);
    } else {
        assert forall|i: int| !cached_at(s.cache@, m, i) by {
            if cached_at(s.cache@, m, i) {
                assert(cached_types(mime)[i] == m);
            }
        }
    }
}

proof fn lemma_first_cached(cache: Seq<(String, Vec<u8>)>, m: Seq<char>, k: int)
    requires
        0 <= k < cache.len(),
        cache[k].0@ == m,
    ensures
        exists|i: int| cached_at(cache, m, i),
    decreases k,
{
    if exists|j: int| 0 <= j < k && (#[trigger] cache[j]).0@ == m {
        let j = choose|j: int| 0 <= j < k && (#[trigger] cache[j]).0@ == m;
        lemma_first_cached(cache, m, j);
    } else {
        assert(cached_at(cache, m, k));
    }
}

proof fn lemma_cached_types(mime: Seq<char>)
    ensures
        cached_types(mime).contains(mime),
        forall|m: Seq<char>| #[trigger]
            offered(mime).contains(m) ==> cached_types(mime).contains(m),
{
    if !offered(mime).contains(mime) {
        assert forall|m: Seq<char>| #[trigger] offered(mime).contains(m) || m
            == mime implies cached_types(mime).contains(m) by {
            crate::seqs::lemma_push_contains(offered(mime), mime, m);
        }
        crate::seqs::lemma_push_contains(offered(mime), mime, mime);
    }
}

/// Text that a client has set is read back as it was set, as UTF-8 text, and is
/// there under the type that the client has named too.
pub proof fn law_set_text_reads_back(s: Selection, mime: Seq<char>, data: Seq<u8>, r: GetPlan)
    requires
        is_text(mime),
        selection_set(s, mime, data),
        get_planned(s, r),
    ensures
        r matches GetPlan::Reply(reply) && is_data_reply(
            reply,
            "text/plain;charset=utf-8"@,
            data,
        ),
        s.bytes(mime) == Some(data),
{
    lemma_cached_types(mime);
    lemma_set_bytes(s, mime, data, mime);
    let m = text_mimes()[0];
    assert(crate::text::views(s.mimes@)[0] == m);
    assert(best_text(s.mimes@, 0));
    let k = choose|k: int| best_text(s.mimes@, k);
    lemma_best_unique(s.mimes@, 0, k);
    assert(cached_types(mime)[0] == m);
    lemma_set_bytes(s, mime, data, m);
}

/// What a client has set is pasted as it was set, under the type that the client
/// has named, under each other type that was offered with it, and under no other.
pub proof fn law_set_is_pasted(s: Selection, mime: Seq<char>, data: Seq<u8>, m: Seq<char>)
    requires
        selection_set(s, mime, data),
    ensures
        cached_types(mime).contains(m) ==> s.bytes(m) == Some(data),
        !cached_types(mime).contains(m) ==> s.bytes(m) is None,
        s.bytes(mime) == Some(data),
        offered(mime).contains(m) ==> s.bytes(m) == Some(data),
{
    lemma_cached_types(mime);
    lemma_set_bytes(s, mime, data, m);
    lemma_set_bytes(s, mime, data, mime);
}

/// Once a window has taken a selection, nothing is pasted from the manager.
pub proof fn law_taken_is_not_pasted(s: Selection, m: Seq<char>)
    requires
        s.cache@.len() == 0,
    ensures
        s.bytes(m) is None,
{
}

/// Text goes by five types, and by any that begins with `text/`. Text is offered
/// under the five and under the type that the client names; anything else is offered
/// under its own type alone.
pub proof fn law_types_offered(mime: Seq<char>, m: Seq<char>)
    ensures
        is_text(mime) <==> "text/"@.is_prefix_of(mime) || mime == "UTF8_STRING"@ || mime
            == "STRING"@ || mime == "TEXT"@,
        cached_types(mime).contains(m) <==> m == mime || is_text(mime) && (m
            == "text/plain;charset=utf-8"@ || m == "text/plain"@ || m == "UTF8_STRING"@ || m
            == "STRING"@ || m == "TEXT"@),
        cached_types(mime).len() >= 1,
        is_text(mime) ==> cached_types(mime)[0] == "text/plain;charset=utf-8"@,
{
    reveal_strlit("text/");
    reveal_strlit("text/plain;charset=utf-8");
    reveal_strlit("text/plain");
    let t = text_mimes();
    assert(t[0] == "text/plain;charset=utf-8"@ && t[1] == "text/plain"@ && t[2] == "UTF8_STRING"@
        && t[3] == "STRING"@ && t[4] == "TEXT"@);
    assert("text/"@.is_prefix_of(t[0])) by {
        assert("text/"@ =~= t[0].take(5));
        assert(t[0].subrange(0, 5) =~= "text/"@);
    }
    assert("text/"@.is_prefix_of(t[1])) by {
        assert(t[1].subrange(0, 5) =~= "text/"@);
    }
    assert(t.contains(m) <==> m == t[0] || m == t[1] || m == t[2] || m == t[3] || m == t[4]) by {
        if t.contains(m) {
            let k = choose|k: int| 0 <= k < t.len() && t[k] == m;
            assert(k == 0 || k == 1 || k == 2 || k == 3 || k == 4);
        }
    }
    assert(t.contains(mime) <==> mime == t[0] || mime == t[1] || mime == t[2] || mime == t[3]
        || mime == t[4]) by {
        if t.contains(mime) {
            let k = choose|k: int| 0 <= k < t.len() && t[k] == mime;
            assert(k == 0 || k == 1 || k == 2 || k == 3 || k == 4);
        }
    }
    crate::seqs::lemma_push_contains(offered(mime), mime, m);
    assert(seq![mime].contains(m) <==> m == mime) by {
        assert(seq![mime][0] == mime);
    }
}

/// A read of a selection that a window owns asks for the best type of text that the
/// window has: UTF-8 text first, then plain text, then the older names. Where the
/// window has no text, the answer is empty at once.
pub proof fn law_best_text_asked(s: Selection, r: GetPlan)
    requires
        s.cache@.len() == 0,
        get_planned(s, r),
    ensures
        ({
            let v = crate::text::views(s.mimes@);
            let a = v.contains("text/plain;charset=utf-8"@);
            let b = v.contains("text/plain"@);
            let c = v.contains("UTF8_STRING"@);
            let d = v.contains("STRING"@);
            let e = v.contains("TEXT"@);
            let asks = |m: Seq<char>| r is AskOwner && r->AskOwner_mime@ == m;
            &&& a ==> asks("text/plain;charset=utf-8"@)
            &&& !a && b ==> asks("text/plain"@)
            &&& !a && !b && c ==> asks("UTF8_STRING"@)
            &&& !a && !b && !c && d ==> asks("STRING"@)
            &&& !a && !b && !c && !d && e ==> asks("TEXT"@)
            &&& !a && !b && !c && !d && !e ==> (r matches GetPlan::Reply(
                ClipboardReply::Clipboard { mime, data },
            ) && mime is None && data@.len() == 0)
        }),
{
    let v = crate::text::views(s.mimes@);
    let t = text_mimes();
    assert(t[0] == "text/plain;charset=utf-8"@ && t[1] == "text/plain"@ && t[2] == "UTF8_STRING"@
        && t[3] == "STRING"@ && t[4] == "TEXT"@);
    assert forall|m: Seq<char>| (#[trigger] s.bytes(m)) is None by {
        law_taken_is_not_pasted(s, m);
    }
    if v.contains(t[0]) {
        assert(best_text(s.mimes@, 0));
        lemma_best_unique(s.mimes@, 0, choose|i: int| best_text(s.mimes@, i));
    } else if v.contains(t[1]) {
        assert(best_text(s.mimes@, 1));
        lemma_best_unique(s.mimes@, 1, choose|i: int| best_text(s.mimes@, i));
    } else if v.contains(t[2]) {
        assert(best_text(s.mimes@, 2));
        lemma_best_unique(s.mimes@, 2, choose|i: int| best_text(s.mimes@, i));
    } else if v.contains(t[3]) {
        assert(best_text(s.mimes@, 3));
        lemma_best_unique(s.mimes@, 3, choose|i: int| best_text(s.mimes@, i));
    } else if v.contains(t[4]) {
        assert(best_text(s.mimes@, 4));
        lemma_best_unique(s.mimes@, 4, choose|i: int| best_text(s.mimes@, i));
    } else {
        assert forall|i: int| !best_text(s.mimes@, i) by {
            if best_text(s.mimes@, i) {
                assert(i == 0 || i == 1 || i == 2 || i == 3 || i == 4);
            }
        }
    }
}

/// The bytes of a type are those of its first entry, and there are none where it has
/// no entry.
pub proof fn law_bytes_of_a_type(s: Selection, m: Seq<char>, i: int)
    ensures
        0 <= i < s.cache@.len() && s.cache@[i].0@ == m && (forall|j: int|
            0 <= j < i ==> (#[trigger] s.cache@[j]).0@ != m) ==> s.bytes(m) == Some(
            s.cache@[i].1@,
        ),
        (forall|j: int| 0 <= j < s.cache@.len() ==> (#[trigger] s.cache@[j]).0@ != m) ==> s.bytes(
            m,
        ) is None,
{
    if 0 <= i < s.cache@.len() && s.cache@[i].0@ == m && (forall|j: int|
        0 <= j < i ==> (#[trigger] s.cache@[j]).0@ != m) {
        assert(cached_at(s.cache@, m, i));
        let k = choose|k: int| cached_at(s.cache@, m, k);
        assert(cached_at(s.cache@, m, k));
        if k < i {
            assert(s.cache@[k].0@ != m);
        }
        if i < k {
            assert(s.cache@[i].0@ != m);
        }
    }
}

/// An answer with the bytes of a type holds them and names the type; an empty one has
/// neither.
pub proof fn law_answers(r: ClipboardReply, m: Seq<char>, d: Seq<u8>)
    ensures
        is_data_reply(r, m, d) <==> r is Clipboard && r->mime is Some && r->mime->0@ == m
            && r->data@ == d,
        is_empty_reply(r) <==> r is Clipboard && r->mime is None && r->data@.len() == 0,
{
}

/// The primary selection is one and the clipboard the other.
pub proof fn law_two_selections(b: ClipboardBroker)
    ensures
        b.selection(true) == b.primary,
        b.selection(false) == b.clipboard,
{
}

} // verus!
