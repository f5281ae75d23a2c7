//! The socket protocol: one request per line, one answer per request, and
//! streams of events for those who ask.

use vstd::prelude::*;

use crate::capture_stream::CaptureSub;
use crate::config::Action;
use crate::desktop::Desktop;
use crate::desktop::OutputNode;
use crate::desktop::OutputSummary;
use crate::desktop::WindowNode;
use crate::desktop::WindowSummary;
use crate::desktop::WorkspaceNode;
use crate::inject::ClickPlan;
use crate::state::ShoestringWm;
use crate::text::chars_of;
use crate::text::clone_strings;
use crate::text::concat2;
use crate::text::string_of;

verus! {

/// A connection.
#[derive(Clone, Copy, Debug, PartialEq, Eq, Structural, Hash)]
pub struct ClientId(pub u64);

/// What a connection that follows the metrics has asked for.
#[derive(Clone, Copy, Debug, PartialEq, Eq, Structural)]
pub struct MetricsSub {
    /// The least time between two pushes, in milliseconds.
    pub interval_ms: u64,
    /// When the last push was.
    pub last_push_ms: Option<u64>,
}

/// The state of a connection.
#[derive(Debug)]
pub struct Client {
    /// Bytes that do not make a whole line yet.
    pub read_buf: Vec<u8>,
    /// Whether events go to it.
    pub subscriber: bool,
    /// Whether its one request has been taken.
    pub spent: bool,
    pub metrics_sub: Option<MetricsSub>,
    /// What it has been told of the output that it watches.
    pub capture_sub: Option<CaptureSub>,
}

/// The connections.
#[derive(Debug)]
pub struct Server {
    pub clients: Vec<(ClientId, Client)>,
    pub next_id: u64,
}

/// A part of an output, in its own coordinates.
#[derive(Clone, Copy, Debug, PartialEq, Eq, Structural)]
pub struct Region {
    pub x: i32,
    pub y: i32,
    pub w: i32,
    pub h: i32,
}

/// What a client can ask for. Numbers with a fraction are given by their bits.
#[derive(Debug)]
#[allow(inconsistent_fields)]
pub enum Request {
    Workspaces,
    Windows,
    Outputs,
    GetTree,
    EventStream,
    InjectKey { keysym: String, modifiers: Vec<String> },
    InjectText { text: String },
    Lock,
    SetAutomation { enabled: bool },
    AutomationStatus,
    SetScreenCapture { enabled: bool },
    ScreenCaptureStatus,
    Screenshot { output: Option<String>, region: Option<Region> },
    RunCommand { argv: Vec<String>, timeout_ms: Option<u64> },
    ReloadConfig,
    PickWindow,
    Window { id: String, op: WindowOp },
    InjectClick { button: String, x: Option<u64>, y: Option<u64> },
    MoveMouse { x: u64, y: u64 },
    PointerPosition,
    FindWindows { title: Option<String>, app_id: Option<String> },
    Metrics,
    MetricsStream { interval_ms: Option<u32> },
    /// The action, or why it could not be read.
    DispatchAction { action: Result<Action, String> },
    SetGamma { output: Option<String>, temperature: u32, brightness: Option<u64>, gamma: Option<u64> },
    ResetGamma { output: Option<String> },
}

/// What can be done to a window by its identifier.
#[derive(Debug)]
pub enum WindowOp {
    Close,
    Focus,
    Raise,
    Lower,
    SetSticky(bool),
    SetName(String),
}

/// An answer.
#[derive(Debug)]
#[allow(inconsistent_fields)]
pub enum Response {
    Success,
    Error { message: String },
    Workspaces { active: u8, count: u8, names: Vec<String> },
    Windows { windows: Vec<WindowSummary> },
    Outputs { outputs: Vec<OutputSummary> },
    Tree {
        outputs: Vec<OutputNode>,
        workspaces: Vec<WorkspaceNode>,
        minimized: Vec<WindowNode>,
    },
    Automation { enabled: bool },
    ScreenCapture { enabled: bool },
}

/// What subscribers are told about the gates.
#[derive(Clone, Copy, Debug, PartialEq, Eq, Structural)]
pub enum GateEvent {
    AutomationChanged { enabled: bool },
    ScreenCaptureChanged { enabled: bool },
}

/// What ends where screen capture is switched off.
#[derive(Debug)]
pub struct CaptureEnd {
    /// The connections that were watching an output. They are dropped.
    pub clients: Vec<ClientId>,
    /// The capture sessions. Each is to be told that it has stopped.
    pub sessions: Vec<u64>,
}

/// What is to be done for a request. Unless it says otherwise, the connection is
/// closed once the answer is written.
#[derive(Debug)]
pub enum Plan {
    /// Close the connection without an answer.
    HangUp,
    Reply(Response),
    /// Answer, then tell the subscribers, and end the captures.
    ReplyAndEmit(Response, Vec<GateEvent>, CaptureEnd),
    /// Answer with success; [`Client::joined_events`] follows.
    JoinEvents,
    /// Answer with success; [`Client::joined_metrics`] follows.
    JoinMetrics { interval_ms: u64 },
    /// Look the keysyms up and inject the chord; its outcome is the answer.
    InjectKey { keysym: String, modifiers: Vec<String> },
    /// Send the queued key events, then answer.
    SendKeys(Response),
    /// Start the locker, then answer with success.
    Lock,
    /// Take the picture; the answer comes when it is done.
    Screenshot { output: Option<String>, region: Option<Region> },
    /// Run the program; the answer comes when it is done.
    RunCommand { argv: Vec<String>, timeout_ms: Option<u64> },
    /// Read the configuration anew; its outcome is the answer.
    ReloadConfig,
    /// Let the user pick a window; the answer comes when they have.
    PickWindow,
    /// Do it to the window; the outcome is the answer.
    Window { id: String, op: WindowOp },
    /// Click, then answer with success.
    Click(ClickPlan),
    /// Move the pointer, then answer with success.
    MoveMouse { x: u64, y: u64 },
    /// Answer with the place of the pointer.
    PointerPosition,
    /// Take a sample and answer with it.
    Metrics,
    /// Carry the action out, then answer with success.
    Dispatch(Action),
    SetGamma { output: Option<String>, temperature: u32, brightness: Option<u64>, gamma: Option<u64> },
    ResetGamma { output: Option<String> },
}

/// What a read from a connection has brought.
#[derive(Debug)]
pub enum ReadOutcome {
    Eof,
    WouldBlock,
    Failed,
    Data(Vec<u8>),
}

/// What to do after a read.
#[derive(Clone, Copy, Debug, PartialEq, Eq, Structural)]
pub enum AfterRead {
    Close,
    Wait,
    Lines,
}

/// The next line of a connection.
#[derive(Debug)]
pub enum NextLine {
    /// No whole line yet.
    Pending,
    /// A line that is not UTF-8.
    NotUtf8,
    /// A line with something on it.
    Line(String),
}

/// The place of the first line feed.
pub open spec fn line_end(buf: Seq<u8>, i: int) -> bool {
    &&& 0 <= i < buf.len()
    &&& buf[i] == 10
    &&& forall|j: int| 0 <= j < i ==> #[trigger] buf[j] != 10
}

/// A line without the line feeds and carriage returns at its end.
pub open spec fn stripped(s: Seq<char>) -> Seq<char>
    decreases s.len(),
{
    if s.len() > 0 && (s.last() == '\n' || s.last() == '\r') {
        stripped(s.drop_last())
    } else {
        s
    }
}

/// What the next line is, as a value of views.
pub enum LineView {
    Pending,
    NotUtf8,
    Line(Seq<char>),
}

impl View for NextLine {
    type V = LineView;

    open spec fn view(&self) -> LineView {
        match self {
            NextLine::Pending => LineView::Pending,
            NextLine::NotUtf8 => LineView::NotUtf8,
            NextLine::Line(s) => LineView::Line(s@),
        }
    }
}

/// The next line with something on it, and the bytes behind it. Empty lines are
/// passed over.
pub open spec fn next_line_of(buf: Seq<u8>) -> (LineView, Seq<u8>)
    decreases buf.len(),
{
    if exists|i: int| line_end(buf, i) {
        let k = choose|i: int| line_end(buf, i);
        let line = buf.take(k + 1);
        let rest = buf.skip(k + 1);
        if rest.len() >= buf.len() {
            (LineView::Pending, buf)
        } else if !vstd::utf8::valid_utf8(line) {
            (LineView::NotUtf8, rest)
        } else {
            let text = stripped(vstd::utf8::decode_utf8(line));
            if text.len() == 0 {
                next_line_of(rest)
            } else {
                (LineView::Line(text), rest)
            }
        }
    } else {
        (LineView::Pending, buf)
    }
}

/// `std::str::from_utf8` reads bytes as text where they are valid UTF-8.
#[verifier::external_body]
pub(crate) fn utf8_string(bytes: &[u8]) -> (r: Option<String>)
    ensures
        match r {
            Some(s) => vstd::utf8::valid_utf8(bytes@) && s@ == vstd::utf8::decode_utf8(bytes@),
            None => !vstd::utf8::valid_utf8(bytes@),
        },
{
    match std::str::from_utf8(bytes) {
        Ok(s) => Some(s.to_string()),
        Err(_) => None,
    }
}

/// A copy of a line without the line feeds and carriage returns at its end.
fn strip_line(s: &str) -> (r: String)
    ensures
        r@ == stripped(s@),
{
    let v = chars_of(s);
    let mut n: usize = v.len();
    assert(s@.take(n as int) =~= s@);
    while n > 0 && (v[n - 1] == '\n' || v[n - 1] == '\r')
        invariant
            n <= v@.len(),
            v@ == s@,
            stripped(s@) == stripped(s@.take(n as int)),
        decreases n,
    {
        assert(s@.take(n as int).drop_last() =~= s@.take(n - 1));
        assert(s@.take(n as int).last() == v@[n - 1]);
        n -= 1;
    }
    proof {
        if n > 0 {
            assert(s@.take(n as int).last() == v@[n - 1]);
        }
    }
    assert(s@.subrange(0, n as int) =~= s@.take(n as int));
    string_of(&v, 0, n)
}

/// Splits `v` at `at`: the bytes before it come back, those behind it stay.
pub(crate) fn take_front(v: &mut Vec<u8>, at: usize) -> (r: Vec<u8>)
    requires
        at <= old(v)@.len(),
    ensures
        r@ == old(v)@.take(at as int),
        final(v)@ == old(v)@.skip(at as int),
{
    let tail = v.split_off(at);
    let mut head: Vec<u8> = tail;
    std::mem::swap(&mut head, v);
    assert(head@ =~= old(v)@.take(at as int));
    assert(v@ =~= old(v)@.skip(at as int));
    head
}

pub(crate) proof fn lemma_line_end_unique(buf: Seq<u8>, i: int, j: int)
    requires
        line_end(buf, i),
        line_end(buf, j),
    ensures
        i == j,
{
    if i < j {
        assert(buf[i] != 10);
    }
    if j < i {
        assert(buf[j] != 10);
    }
}

/// The place of the first line feed, if there is one.
pub(crate) fn find_line_end(buf: &Vec<u8>) -> (r: Option<usize>)
    ensures
        match r {
            Some(k) => k < usize::MAX && line_end(buf@, k as int),
            None => forall|i: int| !line_end(buf@, i),
        },
{
    let mut k: usize = 0;
    while k < buf.len()
        invariant
            k <= buf@.len(),
            forall|j: int| 0 <= j < k ==> #[trigger] buf@[j] != 10,
        decreases buf@.len() - k,
    {
        if buf[k] == 10 {
            return Some(k);
        }
        k += 1;
    }
    None
}

/// The next line with something on it, taken off the buffer.
pub fn next_line(buf: &mut Vec<u8>) -> (r: NextLine)
    ensures
        next_line_of(old(buf)@) == (r@, final(buf)@),
{
    let ghost all = buf@;
    loop
        invariant
            next_line_of(all) == next_line_of(buf@),
            all == old(buf)@,
        decreases buf@.len(),
    {
        let k = match find_line_end(buf) {
            Some(k) => k,
            None => return NextLine::Pending,
        };
        proof {
            lemma_line_end_unique(buf@, k as int, choose|i: int| line_end(buf@, i));
        }
        let line = take_front(buf, k + 1);
        match utf8_string(line.as_slice()) {
            Some(s) => {
                let text = strip_line(s.as_str());
                if !text.as_str().is_empty() {
                    return NextLine::Line(text);
                }
            },
            None => {
                return NextLine::NotUtf8;
            },
        }
    }
}

impl Client {
    /// A connection that has just been made.
    pub fn new() -> (r: Self)
        ensures
            r.read_buf@ == Seq::<u8>::empty(),
            !r.subscriber,
            !r.spent,
            r.metrics_sub is None,
            r.capture_sub is None,
    {
        Client {
            read_buf: Vec::new(),
            subscriber: false,
            spent: false,
            metrics_sub: None,
            capture_sub: None,
        }
    }

    /// Takes in what a read has brought.
    pub fn on_read(&mut self, read: ReadOutcome) -> (r: AfterRead)
        ensures
            match read {
                ReadOutcome::Eof => r == AfterRead::Close && *final(self) == *old(self),
                ReadOutcome::WouldBlock => r == AfterRead::Wait && *final(self) == *old(self),
                ReadOutcome::Failed => r == AfterRead::Close && *final(self) == *old(self),
                ReadOutcome::Data(d) => {
                    &&& r == AfterRead::Lines
                    &&& final(self).read_buf@ == old(self).read_buf@ + d@
                    &&& *final(self) == (Client { read_buf: final(self).read_buf, ..*old(self) })
                },
            },
    {
        match read {
            ReadOutcome::Eof => AfterRead::Close,
            ReadOutcome::WouldBlock => AfterRead::Wait,
            ReadOutcome::Failed => AfterRead::Close,
            ReadOutcome::Data(d) => {
                let mut more = d;
                self.read_buf.append(&mut more);
                AfterRead::Lines
            },
        }
    }

    /// The next line with something on it, taken off what was read.
    pub fn take_line(&mut self) -> (r: NextLine)
        ensures
            next_line_of(old(self).read_buf@) == (r@, final(self).read_buf@),
            *final(self) == (Client { read_buf: final(self).read_buf, ..*old(self) }),
    {
        next_line(&mut self.read_buf)
    }

    /// An answer was written, or could not be.
    pub fn wrote_response(&mut self, written: bool)
        ensures
            *final(self) == (Client { spent: old(self).spent || written, ..*old(self) }),
    {
        if written {
            self.spent = true;
        }
    }

    /// The success of a request for events was written, or could not be. From
    /// now on events go to the connection. The result tells whether to close it.
    pub fn joined_events(&mut self, written: bool) -> (close: bool)
        ensures
            close == !written,
            *final(self) == (if written {
                Client { subscriber: true, spent: true, ..*old(self) }
            } else {
                *old(self)
            }),
    {
        if !written {
            return true;
        }
        self.subscriber = true;
        self.spent = true;
        false
    }

    /// The success of a request for metrics was written, or could not be. The
    /// result tells whether to close the connection.
    pub fn joined_metrics(&mut self, written: bool, interval_ms: u64) -> (close: bool)
        ensures
            close == !written,
            *final(self) == (if written {
                Client {
                    metrics_sub: Some(MetricsSub { interval_ms, last_push_ms: None }),
                    spent: true,
                    ..*old(self)
                }
            } else {
                *old(self)
            }),
    {
        if !written {
            return true;
        }
        self.metrics_sub = Some(MetricsSub { interval_ms, last_push_ms: None });
        self.spent = true;
        false
    }

    /// Whether a metrics push is due at `now_ms`: there was none yet, or its
    /// interval has passed.
    pub open spec fn push_due(self, now_ms: u64) -> bool {
        match self.metrics_sub {
            Some(sub) => match sub.last_push_ms {
                Some(last) => sub.interval_ms <= crate::geometry::max(now_ms - last, 0),
                None => true,
            },
            None => false,
        }
    }

    /// Whether events or metrics stream to the connection.
    pub open spec fn streams(self) -> bool {
        self.subscriber || self.metrics_sub is Some
    }
}

impl Server {
    /// Whether the connections have different identities, all given out before.
    pub open spec fn wf(self) -> bool {
        &&& forall|i: int| 0 <= i < self.clients@.len() ==> (#[trigger] self.clients@[i]).0.0 < self.next_id
        &&& forall|i: int, j: int|
            0 <= i < j < self.clients@.len() ==> (#[trigger] self.clients@[i]).0
                != (#[trigger] self.clients@[j]).0
    }

    /// No connections.
    pub fn new() -> (r: Self)
        ensures
            r.wf(),
            r.clients@ == Seq::<(ClientId, Client)>::empty(),
            r.next_id == 0,
    {
        Server { clients: Vec::new(), next_id: 0 }
    }

    fn next_id(&mut self) -> (r: ClientId)
        requires
            old(self).next_id < u64::MAX,
        ensures
            r.0 == old(self).next_id,
            final(self).next_id == old(self).next_id + 1,
            final(self).clients == old(self).clients,
    {
        let id = self.next_id;
        self.next_id = self.next_id + 1;
        ClientId(id)
    }

    /// A client has connected. No identity is given twice.
    pub fn accept_client(&mut self) -> (r: ClientId)
        requires
            old(self).wf(),
            old(self).next_id < u64::MAX,
        ensures
            final(self).wf(),
            final(self).next_id == old(self).next_id + 1,
            final(self).clients@.len() == old(self).clients@.len() + 1,
            final(self).clients@.drop_last() == old(self).clients@,
            final(self).clients@.last().0 == r,
            fresh_client(final(self).clients@.last().1),
            forall|i: int|
                0 <= i < old(self).clients@.len() ==> (#[trigger] old(self).clients@[i]).0 != r,
    {
        let id = self.next_id();
        self.clients.push((id, Client::new()));
        assert(self.clients@.drop_last() =~= old(self).clients@);
        id
    }

    /// How many clients are connected.
    pub fn client_count(&self) -> (r: usize)
        ensures
            r == self.clients@.len(),
    {
        self.clients.len()
    }

    /// How many connections have events or metrics streamed to them.
    pub fn subscriber_count(&self) -> (r: usize)
        ensures
            r == self.clients@.filter(|e: (ClientId, Client)| e.1.streams()).len(),
    {
        let mut n: usize = 0;
        let mut i: usize = 0;
        let ghost all = self.clients@;
        let ghost p = |e: (ClientId, Client)| e.1.streams();
        assert(all.take(0).filter(p) =~= Seq::empty()) by {
            reveal(Seq::filter);
        }
        while i < self.clients.len()
            invariant
                i <= all.len(),
                all == self.clients@,
                p == (|e: (ClientId, Client)| e.1.streams()),
                n == all.take(i as int).filter(p).len(),
                n <= i,
            decreases all.len() - i,
        {
            proof {
                reveal(Seq::filter);
                assert(all.take(i + 1).drop_last() =~= all.take(i as int));
            }
            let c = &self.clients[i].1;
            if c.subscriber || c.metrics_sub.is_some() {
                n += 1;
            }
            i += 1;
        }
        assert(all.take(i as int) =~= all);
        n
    }

    /// The connections that an event goes to, in order.
    pub fn event_targets(&self) -> (r: Vec<ClientId>)
        ensures
            r@ == ids(self.clients@.filter(|e: (ClientId, Client)| e.1.subscriber)),
    {
        let mut r: Vec<ClientId> = Vec::new();
        let mut i: usize = 0;
        let ghost all = self.clients@;
        let ghost p = |e: (ClientId, Client)| e.1.subscriber;
        assert(ids(all.take(0).filter(p)) =~= Seq::empty()) by {
            reveal(Seq::filter);
        }
        while i < self.clients.len()
            invariant
                i <= all.len(),
                all == self.clients@,
                p == (|e: (ClientId, Client)| e.1.subscriber),
                r@ == ids(all.take(i as int).filter(p)),
            decreases all.len() - i,
        {
            proof {
                reveal(Seq::filter);
                assert(all.take(i + 1).drop_last() =~= all.take(i as int));
            }
            if self.clients[i].1.subscriber {
                r.push(self.clients[i].0);
                assert(r@ =~= ids(all.take(i + 1).filter(p)));
            }
            i += 1;
        }
        assert(all.take(i as int) =~= all);
        r
    }

    /// The connections that a metrics push is due for, in order.
    pub fn metrics_targets(&self, now_ms: u64) -> (r: Vec<ClientId>)
        ensures
            r@ == ids(self.clients@.filter(|e: (ClientId, Client)| e.1.push_due(now_ms))),
    {
        let mut r: Vec<ClientId> = Vec::new();
        let mut i: usize = 0;
        let ghost all = self.clients@;
        let ghost p = |e: (ClientId, Client)| e.1.push_due(now_ms);
        assert(ids(all.take(0).filter(p)) =~= Seq::empty()) by {
            reveal(Seq::filter);
        }
        while i < self.clients.len()
            invariant
                i <= all.len(),
                all == self.clients@,
                p == (|e: (ClientId, Client)| e.1.push_due(now_ms)),
                r@ == ids(all.take(i as int).filter(p)),
            decreases all.len() - i,
        {
            proof {
                reveal(Seq::filter);
                assert(all.take(i + 1).drop_last() =~= all.take(i as int));
            }
            let due = match self.clients[i].1.metrics_sub {
                Some(sub) => match sub.last_push_ms {
                    Some(last) => if last <= now_ms {
                        now_ms - last >= sub.interval_ms
                    } else {
                        sub.interval_ms == 0
                    },
                    None => true,
                },
                None => false,
            };
            if due {
                r.push(self.clients[i].0);
                assert(r@ =~= ids(all.take(i + 1).filter(p)));
            }
            i += 1;
        }
        assert(all.take(i as int) =~= all);
        r
    }

    /// A metrics push at `now_ms` has reached a connection.
    pub fn pushed(&mut self, id: ClientId, now_ms: u64)
        requires
            old(self).wf(),
        ensures
            final(self).wf(),
            final(self).next_id == old(self).next_id,
            final(self).clients@.len() == old(self).clients@.len(),
            forall|i: int|
                0 <= i < old(self).clients@.len() ==> {
                    let before = old(self).clients@[i];
                    let after = #[trigger] final(self).clients@[i];
                    &&& after.0 == before.0
                    &&& after.1 == (if before.0 == id {
                        pushed_client(before.1, now_ms)
                    } else {
                        before.1
                    })
                },
    {
        let ghost before = self.clients@;
        let mut i: usize = 0;
        while i < self.clients.len()
            invariant
                i <= self.clients@.len(),
                old(self).wf(),
                before == old(self).clients@,
                self.next_id == old(self).next_id,
                self.clients@ == before,
                forall|j: int| 0 <= j < i ==> (#[trigger] before[j]).0 != id,
            decreases self.clients@.len() - i,
        {
            if self.clients[i].0 == id {
                let entry = &mut self.clients[i];
                if let Some(sub) = entry.1.metrics_sub {
                    entry.1.metrics_sub = Some(
                        MetricsSub { interval_ms: sub.interval_ms, last_push_ms: Some(now_ms) },
                    );
                }
                return ;
            }
            i += 1;
        }
    }
}

/// The identities of connections.
pub open spec fn ids(clients: Seq<(ClientId, Client)>) -> Seq<ClientId> {
    clients.map_values(|e: (ClientId, Client)| e.0)
}

/// Whether a connection has just been made.
pub open spec fn fresh_client(c: Client) -> bool {
    &&& c.read_buf@ == Seq::<u8>::empty()
    &&& !c.subscriber
    &&& !c.spent
    &&& c.metrics_sub is None
    &&& c.capture_sub is None
}

/// A connection after a metrics push.
pub open spec fn pushed_client(c: Client, now_ms: u64) -> Client {
    Client {
        metrics_sub: match c.metrics_sub {
            Some(sub) => Some(MetricsSub { last_push_ms: Some(now_ms), ..sub }),
            None => None,
        },
        ..c
    }
}

/// What is wrong with a pattern, in the words of the `regex` crate; none where
/// it is a pattern.
pub uninterp spec fn regex_error(pattern: Seq<char>) -> Option<Seq<char>>;

/// Whether a pattern matches somewhere in a text, for the `regex` crate.
pub uninterp spec fn regex_matches(pattern: Seq<char>, text: Seq<char>) -> bool;

/// `regex::Regex::new` compiles a pattern or says what is wrong with it. It
/// depends on nothing but the pattern.
#[verifier::external_body]
fn regex_fault(pattern: &str) -> (r: Option<String>)
    ensures
        crate::text::opt_view(r) == regex_error(pattern@),
{
    match regex::Regex::new(pattern) {
        Ok(_) => None,
        Err(e) => Some(e.to_string()),
    }
}

/// `regex::Regex::is_match` of a pattern that compiles tells whether it matches
/// anywhere in the text.
#[verifier::external_body]
fn regex_is_match(pattern: &str, text: &str) -> (r: bool)
    requires
        regex_error(pattern@) is None,
    ensures
        r == regex_matches(pattern@, text@),
{
    regex::Regex::new(pattern).is_ok_and(|re| re.is_match(text))
}

/// Whether a text meets a filter; without a pattern every text does.
pub open spec fn meets(pattern: Option<Seq<char>>, text: Seq<char>) -> bool {
    match pattern {
        Some(p) => regex_matches(p, text),
        None => true,
    }
}

/// The tracked windows whose reported title and application identifier meet the
/// filters, in order.
pub open spec fn selected(
    d: Desktop,
    title: Option<Seq<char>>,
    app_id: Option<Seq<char>>,
) -> Seq<crate::desktop::Toplevel> {
    d.toplevels@.filter(
        |t: crate::desktop::Toplevel| meets(title, d.title_of(t)) && meets(app_id, t.app_id@),
    )
}

/// What is wrong with the filters: the title's pattern is looked at first.
pub open spec fn filter_error(
    title: Option<Seq<char>>,
    app_id: Option<Seq<char>>,
) -> Option<Seq<char>> {
    if title is Some && regex_error(title->0) is Some {
        Some("find_windows: title regex invalid: "@ + regex_error(title->0)->0)
    } else if app_id is Some && regex_error(app_id->0) is Some {
        Some("find_windows: app_id regex invalid: "@ + regex_error(app_id->0)->0)
    } else {
        None
    }
}

/// Whether summaries tell of windows, one for one.
pub open spec fn summarize(
    d: Desktop,
    ts: Seq<crate::desktop::Toplevel>,
    ss: Seq<WindowSummary>,
) -> bool {
    &&& ts.len() == ss.len()
    &&& forall|i: int|
        0 <= i < ts.len() ==> crate::desktop::summarizes(d, #[trigger] ts[i], ss[i])
}

fn text_meets(pattern: Option<&str>, text: &str) -> (r: bool)
    requires
        pattern matches Some(p) ==> regex_error(p@) is None,
    ensures
        r == meets(crate::text::opt_str_view(pattern), text@),
{
    match pattern {
        Some(p) => regex_is_match(p, text),
        None => true,
    }
}

/// The windows whose reported title and application identifier match the
/// patterns. A missing pattern matches everything; a pattern that is none is an
/// error.
pub fn find_windows(d: &Desktop, title: Option<&str>, app_id: Option<&str>) -> (r: Result<
    Vec<WindowSummary>,
    String,
>)
    requires
        d.fits(),
    ensures
        ({
            let t = crate::text::opt_str_view(title);
            let a = crate::text::opt_str_view(app_id);
            match r {
                Ok(v) => filter_error(t, a) is None && summarize(*d, selected(*d, t, a), v@),
                Err(m) => filter_error(t, a) == Some(m@),
            }
        }),
{
    if let Some(p) = title {
        if let Some(e) = regex_fault(p) {
            return Err(concat2("find_windows: title regex invalid: ", e.as_str()));
        }
    }
    if let Some(p) = app_id {
        if let Some(e) = regex_fault(p) {
            return Err(concat2("find_windows: app_id regex invalid: ", e.as_str()));
        }
    }
    let ghost t = crate::text::opt_str_view(title);
    let ghost a = crate::text::opt_str_view(app_id);
    let ghost all = d.toplevels@;
    let ghost p = |w: crate::desktop::Toplevel| meets(t, d.title_of(w)) && meets(a, w.app_id@);
    let mut r: Vec<WindowSummary> = Vec::new();
    let mut i: usize = 0;
    assert(all.take(0).filter(p) =~= Seq::empty()) by {
        reveal(Seq::filter);
    }
    while i < d.toplevels.len()
        invariant
            i <= all.len(),
            all == d.toplevels@,
            d.fits(),
            t == crate::text::opt_str_view(title),
            a == crate::text::opt_str_view(app_id),
            title matches Some(p) ==> regex_error(p@) is None,
            app_id matches Some(p) ==> regex_error(p@) is None,
            p == (|w: crate::desktop::Toplevel| meets(t, d.title_of(w)) && meets(a, w.app_id@)),
            summarize(*d, all.take(i as int).filter(p), r@),
        decreases all.len() - i,
    {
        proof {
            reveal(Seq::filter);
            assert(all.take(i + 1).drop_last() =~= all.take(i as int));
        }
        let w = &d.toplevels[i];
        let s = d.summary(w);
        if text_meets(title, s.title.as_str()) && text_meets(app_id, s.app_id.as_str()) {
            r.push(s);
        }
        i += 1;
    }
    assert(all.take(i as int) =~= all);
    Ok(r)
}

/// Whether a plan answers with an error.
pub open spec fn refuses(p: Plan, message: Seq<char>) -> bool {
    match p {
        Plan::Reply(r) => is_error(r, message),
        _ => false,
    }
}

/// Whether an answer is the error.
pub open spec fn is_error(r: Response, message: Seq<char>) -> bool {
    match r {
        Response::Error { message: m } => m@ == message,
        _ => false,
    }
}

/// The answer to a request that needs the automation gate, while it is closed.
pub open spec fn automation_off() -> Seq<char> {
    "automation disabled: enable with `shoestring-ctl automation on` or restart the WM with --enable-automation"@
}

/// The answer to a request that needs the automation gate, while it is closed.
pub fn automation_off_error() -> (r: Response)
    ensures
        is_error(r, automation_off()),
{
    Response::Error {
        message: "automation disabled: enable with `shoestring-ctl automation on` or restart the WM with --enable-automation".to_owned(),
    }
}

fn error_reply(message: &str) -> (r: Plan)
    ensures
        refuses(r, message@),
{
    Plan::Reply(Response::Error { message: message.to_owned() })
}

/// Whether a request needs the automation gate.
pub open spec fn needs_automation(r: Request) -> bool {
    match r {
        Request::InjectKey { .. } => true,
        Request::InjectText { .. } => true,
        Request::Screenshot { .. } => true,
        Request::RunCommand { .. } => true,
        Request::InjectClick { .. } => true,
        Request::MoveMouse { .. } => true,
        Request::DispatchAction { .. } => true,
        _ => false,
    }
}

fn gated(r: &Request) -> (b: bool)
    ensures
        b == needs_automation(*r),
{
    match r {
        Request::InjectKey { .. } => true,
        Request::InjectText { .. } => true,
        Request::Screenshot { .. } => true,
        Request::RunCommand { .. } => true,
        Request::InjectClick { .. } => true,
        Request::MoveMouse { .. } => true,
        Request::DispatchAction { .. } => true,
        _ => false,
    }
}

/// Whether the answer to a request comes later, so that the connection takes no
/// further request.
pub open spec fn deferred(p: Plan) -> bool {
    p is Screenshot || p is RunCommand || p is PickWindow
}

/// What changing the gates tells the subscribers.
pub open spec fn gate_events(
    automation_changed: bool,
    capture_changed: bool,
    enabled: bool,
) -> Seq<GateEvent> {
    (if automation_changed {
        seq![GateEvent::AutomationChanged { enabled }]
    } else {
        Seq::empty()
    }) + (if capture_changed {
        seq![GateEvent::ScreenCaptureChanged { enabled }]
    } else {
        Seq::empty()
    })
}

/// What comes of a request on a connection that has had none, while the gates
/// allow it.
pub open spec fn answered(
    before: ShoestringWm,
    request: Request,
    p: Plan,
    after: ShoestringWm,
) -> bool {
    let d = before.desktop;
    match request {
        Request::Workspaces => after == before && match p {
            Plan::Reply(Response::Workspaces { active, count, names }) => active
                == d.workspaces.active && count == d.workspaces.count && names@
                == d.workspaces.names@,
            _ => false,
        },
        Request::Windows => after == before && match p {
            Plan::Reply(Response::Windows { windows }) => summarize(d, d.toplevels@, windows@),
            _ => false,
        },
        Request::Outputs => after == before && match p {
            Plan::Reply(Response::Outputs { outputs }) => outputs@.len() == d.outputs@.len()
                && forall|i: int|
                0 <= i < outputs@.len() ==> reports_output(d.outputs@[i], #[trigger] outputs@[i]),
            _ => false,
        },
        Request::GetTree => after == before && match p {
            Plan::Reply(Response::Tree { outputs, workspaces, minimized }) => is_tree(
                d,
                outputs@,
                workspaces@,
                minimized@,
            ),
            _ => false,
        },
        Request::EventStream => after == before && p is JoinEvents,
        Request::InjectKey { keysym, modifiers } => after == before && p == (Plan::InjectKey {
            keysym,
            modifiers,
        }),
        Request::InjectText { text } => {
            &&& after == (ShoestringWm { key_queue: after.key_queue, ..before })
            &&& crate::input::typed(before.keymap@, text@, before.key_queue@, after.key_queue@)
            &&& match p {
                Plan::SendKeys(r) => match crate::inject::text_fault(before.keymap@, text@) {
                    Some(c) => is_error(
                        r,
                        crate::inject::fault_message(crate::inject::Fault::UnsupportedChar(c)),
                    ),
                    None => r is Success,
                },
                _ => false,
            }
        },
        Request::Lock => after == before && p is Lock,
        Request::SetAutomation { enabled } => {
            match p {
                Plan::ReplyAndEmit(Response::Automation { enabled: e }, events, told) => {
                    &&& e == enabled
                    &&& events@ == gate_events(
                        before.automation_enabled != enabled,
                        before.screen_capture_enabled != enabled,
                        enabled,
                    )
                    &&& crate::capture_stream::gate_set(
                        ShoestringWm { automation_enabled: enabled, ..before },
                        enabled,
                        after,
                        told.clients@,
                        told.sessions@,
                    )
                },
                _ => false,
            }
        },
        Request::AutomationStatus => after == before && p == Plan::Reply(
            Response::Automation { enabled: before.automation_enabled },
        ),
        Request::SetScreenCapture { enabled } => {
            match p {
                Plan::ReplyAndEmit(Response::ScreenCapture { enabled: e }, events, told) => {
                    &&& e == enabled
                    &&& events@ == gate_events(
                        false,
                        before.screen_capture_enabled != enabled,
                        enabled,
                    )
                    &&& crate::capture_stream::gate_set(
                        before,
                        enabled,
                        after,
                        told.clients@,
                        told.sessions@,
                    )
                },
                _ => false,
            }
        },
        Request::ScreenCaptureStatus => after == before && p == Plan::Reply(
            Response::ScreenCapture { enabled: before.screen_capture_enabled },
        ),
        Request::Screenshot { output, region } => after == before && if region is Some
            && output is None {
            refuses(
                p,
                "screenshot: region requires output (coordinates are output-relative)"@,
            )
        } else {
            p == (Plan::Screenshot { output, region })
        },
        Request::RunCommand { argv, timeout_ms } => after == before && if argv@.len() == 0 {
            refuses(p, "run_command: argv must be non-empty"@)
        } else {
            p == (Plan::RunCommand { argv, timeout_ms })
        },
        Request::ReloadConfig => after == before && p is ReloadConfig,
        Request::PickWindow => after == before && p is PickWindow,
        Request::Window { id, op } => after == before && p == (Plan::Window { id, op }),
        Request::InjectClick { button, x, y } => after == before && if x is Some != y is Some {
            refuses(p, "inject_click: x and y must be passed together"@)
        } else {
            match crate::inject::button_of(button@) {
                Some(code) => match p {
                    Plan::Click(c) => c.button == code && c.move_to == (if x is Some {
                        Some((x->0, y->0))
                    } else {
                        None
                    }),
                    _ => false,
                },
                None => refuses(
                    p,
                    crate::inject::fault_message(crate::inject::Fault::UnknownButton(button@)),
                ),
            }
        },
        Request::MoveMouse { x, y } => after == before && p == (Plan::MoveMouse { x, y }),
        Request::PointerPosition => after == before && p is PointerPosition,
        Request::FindWindows { title, app_id } => {
            let t = crate::text::opt_view(title);
            let a = crate::text::opt_view(app_id);
            &&& after == before
            &&& match filter_error(t, a) {
                Some(e) => refuses(p, e),
                None => match p {
                    Plan::Reply(Response::Windows { windows }) => summarize(
                        d,
                        selected(d, t, a),
                        windows@,
                    ),
                    _ => false,
                },
            }
        },
        Request::Metrics => after == before && p is Metrics,
        Request::MetricsStream { interval_ms } => after == before
            && if before.config.diagnostics_enabled {
            p == (Plan::JoinMetrics {
                interval_ms: stream_interval(interval_ms, before.config.sample_interval_ms) as u64,
            })
        } else {
            refuses(
                p,
                "metrics stream unavailable: diagnostics disabled (set [diagnostics].enabled = true)"@,
            )
        },
        Request::DispatchAction { action } => after == before && match action {
            Ok(a) => p == Plan::Dispatch(a),
            Err(e) => refuses(p, "dispatch_action: malformed action: "@ + e@),
        },
        Request::SetGamma { output, temperature, brightness, gamma } => after == before && p
            == (Plan::SetGamma { output, temperature, brightness, gamma }),
        Request::ResetGamma { output } => after == before && p == (Plan::ResetGamma { output }),
    }
}

/// What comes of a line, which is a request or, as the error tells, is none.
pub open spec fn handled(
    before: ShoestringWm,
    client: Client,
    request: Result<Request, String>,
    p: Plan,
    after: ShoestringWm,
    client_after: Client,
) -> bool {
    &&& match request {
        Err(e) => refuses(p, "invalid request json: "@ + e@) && after == before,
        Ok(request) => if client.spent {
            p is HangUp && after == before
        } else if needs_automation(request) && !before.automation_enabled {
            refuses(p, automation_off()) && after == before
        } else {
            answered(before, request, p, after)
        },
    }
    &&& client_after == (Client { spent: client.spent || deferred(p), ..client })
}

/// Whether a plan acts for the user.
pub open spec fn acts(p: Plan) -> bool {
    ||| p is InjectKey
    ||| p is SendKeys
    ||| p is Screenshot
    ||| p is RunCommand
    ||| p is Click
    ||| p is MoveMouse
    ||| p is Dispatch
}

/// While automation is off, no request acts for the user or queues a key, and
/// none switches it on but the one that says so.
pub proof fn law_nothing_acts_without_automation(
    before: ShoestringWm,
    client: Client,
    request: Result<Request, String>,
    p: Plan,
    after: ShoestringWm,
    client_after: Client,
)
    requires
        handled(before, client, request, p, after, client_after),
        !before.automation_enabled,
    ensures
        !acts(p),
        after.key_queue == before.key_queue,
        after.automation_enabled ==> request == Ok::<Request, String>(
            Request::SetAutomation { enabled: true },
        ),
{
}

/// What a client sets of the gates, the next one reads: automation, which carries
/// screen capture along, and screen capture by itself.
pub proof fn law_gates_read_back(
    before: ShoestringWm,
    enabled: bool,
    p: Plan,
    after: ShoestringWm,
    q: Plan,
    later: ShoestringWm,
)
    ensures
        answered(before, Request::SetAutomation { enabled }, p, after) && answered(
            after,
            Request::AutomationStatus,
            q,
            later,
        ) ==> q == Plan::Reply(Response::Automation { enabled }),
        (answered(before, Request::SetAutomation { enabled }, p, after) || answered(
            before,
            Request::SetScreenCapture { enabled },
            p,
            after,
        )) && answered(after, Request::ScreenCaptureStatus, q, later) ==> q == Plan::Reply(
            Response::ScreenCapture { enabled },
        ),
        answered(before, Request::SetScreenCapture { enabled }, p, after)
            ==> after.automation_enabled == before.automation_enabled,
{
}

/// Whether a request only asks.
pub open spec fn only_asks(r: Request) -> bool {
    ||| r is Workspaces
    ||| r is Windows
    ||| r is Outputs
    ||| r is GetTree
    ||| r is AutomationStatus
    ||| r is ScreenCaptureStatus
    ||| r is PointerPosition
    ||| r is FindWindows
    ||| r is Metrics
}

/// A request that only asks changes nothing and acts on nothing, whatever the
/// gates and the connection are.
pub proof fn law_asking_changes_nothing(
    before: ShoestringWm,
    client: Client,
    request: Request,
    p: Plan,
    after: ShoestringWm,
    client_after: Client,
)
    requires
        handled(before, client, Ok(request), p, after, client_after),
        only_asks(request),
    ensures
        after == before,
        client_after == client,
        !acts(p),
{
}

/// The least time between two metrics pushes: what was asked for, but never
/// less than the time between two samples, nor than a millisecond.
pub open spec fn stream_interval(asked: Option<u32>, sample: u64) -> int {
    crate::geometry::max(
        match asked {
            Some(n) => n as int,
            None => 0,
        },
        crate::geometry::max(sample as int, 1),
    )
}

/// Whether a summary tells of an output what holds of it.
pub open spec fn reports_output(o: crate::desktop::OutputInfo, s: OutputSummary) -> bool {
    &&& s.name@ == o.name@
    &&& s.scale_bits == o.scale_bits
    &&& (s.width, s.height) == (match o.mode {
        Some(m) => m,
        None => (0i32, 0i32),
    })
}

/// Whether the parts make the tree of the desktop.
pub open spec fn is_tree(
    d: Desktop,
    outputs: Seq<OutputNode>,
    workspaces: Seq<WorkspaceNode>,
    minimized: Seq<WindowNode>,
) -> bool {
    &&& outputs.len() == d.outputs@.len()
    &&& forall|i: int|
        0 <= i < outputs.len() ==> crate::desktop::output_node_of(
            d.outputs@[i],
            #[trigger] outputs[i],
        )
    &&& forall|i: int, j: int|
        0 <= i < j < workspaces.len() ==> (#[trigger] workspaces[i]).index < (
        #[trigger] workspaces[j]).index
    &&& forall|ws: u8|
        #[trigger] crate::desktop::in_tree(d, ws) <==> exists|i: int|
            0 <= i < workspaces.len() && (#[trigger] workspaces[i]).index == ws
    &&& forall|i: int|
        0 <= i < workspaces.len() ==> crate::desktop::describes_workspace(
            d,
            #[trigger] workspaces[i],
        )
    &&& crate::desktop::describe(d, crate::desktop::on_workspace(d, 0), minimized)
}

impl ShoestringWm {
    /// Opens or closes the automation gate. Automation brings screen capture
    /// with it. The result tells whether the capture gate changed, and which
    /// captures end.
    pub fn set_automation(&mut self, enabled: bool) -> (r: (bool, CaptureEnd))
        requires
            old(self).ipc matches Some(s) ==> s.wf(),
        ensures
            r.0 == (old(self).screen_capture_enabled != enabled),
            crate::capture_stream::gate_set(
                ShoestringWm { automation_enabled: enabled, ..*old(self) },
                enabled,
                *final(self),
                r.1.clients@,
                r.1.sessions@,
            ),
    {
        let changed = self.screen_capture_enabled != enabled;
        self.automation_enabled = enabled;
        let told = self.set_screen_capture(enabled);
        (changed, told)
    }

    /// Opens or closes the screen capture gate. Closing it ends every capture
    /// stream and every capture session at once. The result lists them.
    pub fn set_screen_capture(&mut self, enabled: bool) -> (r: CaptureEnd)
        requires
            old(self).ipc matches Some(s) ==> s.wf(),
        ensures
            crate::capture_stream::gate_set(
                *old(self),
                enabled,
                *final(self),
                r.clients@,
                r.sessions@,
            ),
    {
        self.screen_capture_enabled = enabled;
        if enabled {
            CaptureEnd { clients: Vec::new(), sessions: Vec::new() }
        } else {
            let mut sessions: Vec<u64> = Vec::new();
            std::mem::swap(&mut sessions, &mut self.ext_screencopy.sessions);
            let clients = self.teardown_capture_subscribers();
            CaptureEnd { clients, sessions }
        }
    }

    /// What comes of a line, which is a request or, as the error tells, is none.
    /// A connection takes one request; a second one is hung up on. Requests that
    /// act for the user need the automation gate.
    pub fn answer_request(&mut self, client: &mut Client, request: Result<Request, String>) -> (r:
        Plan)
        requires
            old(self).desktop.fits(),
            old(self).desktop.workspaces.active != 0,
            old(self).ipc matches Some(s) ==> s.wf(),
        ensures
            handled(
                *old(self),
                *old(client),
                request,
                r,
                *final(self),
                *final(client),
            ),
    {
        let request = match request {
            Ok(request) => request,
            Err(e) => {
                let message = concat2("invalid request json: ", e.as_str());
                return Plan::Reply(Response::Error { message });
            },
        };
        if client.spent {
            return Plan::HangUp;
        }
        if gated(&request) && !self.automation_enabled {
            return Plan::Reply(automation_off_error());
        }
        match request {
            Request::Workspaces => Plan::Reply(
                Response::Workspaces {
                    active: self.desktop.workspaces.active,
                    count: self.desktop.workspaces.count,
                    names: clone_strings(&self.desktop.workspaces.names),
                },
            ),
            Request::Windows => {
                let windows = self.desktop.collect_windows();
                Plan::Reply(Response::Windows { windows })
            },
            Request::Outputs => {
                let outputs = self.desktop.collect_outputs();
                Plan::Reply(Response::Outputs { outputs })
            },
            Request::GetTree => {
                let (outputs, workspaces, minimized) = self.desktop.collect_tree();
                Plan::Reply(Response::Tree { outputs, workspaces, minimized })
            },
            Request::EventStream => Plan::JoinEvents,
            Request::InjectKey { keysym, modifiers } => Plan::InjectKey { keysym, modifiers },
            Request::InjectText { text } => match self.inject_text(text.as_str()) {
                Ok(_) => Plan::SendKeys(Response::Success),
                Err(e) => {
                    proof {
                        let s = text@;
                        let keys = old(self).keymap@;
                        assert forall|i: int| #[trigger]
                            crate::inject::first_untypable(s, i) implies crate::inject::text_fault(
                            keys,
                            s,
                        ) == Some(s[i]) by {
                            crate::inject::lemma_text_fault(keys, s, i);
                        }
                        assert forall|i: int| (forall|j: int| !crate::inject::first_untypable(s, j))
                            && #[trigger] crate::inject::first_keyless(
                            keys,
                            s,
                            i,
                        ) implies crate::inject::text_fault(keys, s) == Some(s[i]) by {
                            crate::inject::lemma_text_fault(keys, s, i);
                        }
                    }
                    Plan::SendKeys(Response::Error { message: e.message() })
                },
            },
            Request::Lock => Plan::Lock,
            Request::SetAutomation { enabled } => {
                let changed = self.automation_enabled != enabled;
                let (capture_changed, told) = self.set_automation(enabled);
                let mut events: Vec<GateEvent> = Vec::new();
                if changed {
                    events.push(GateEvent::AutomationChanged { enabled });
                }
                if capture_changed {
                    events.push(GateEvent::ScreenCaptureChanged { enabled });
                }
                assert(events@ =~= gate_events(changed, capture_changed, enabled));
                Plan::ReplyAndEmit(Response::Automation { enabled }, events, told)
            },
            Request::AutomationStatus => Plan::Reply(
                Response::Automation { enabled: self.automation_enabled },
            ),
            Request::SetScreenCapture { enabled } => {
                let changed = self.screen_capture_enabled != enabled;
                let told = self.set_screen_capture(enabled);
                let mut events: Vec<GateEvent> = Vec::new();
                if changed {
                    events.push(GateEvent::ScreenCaptureChanged { enabled });
                }
                assert(events@ =~= gate_events(false, changed, enabled));
                Plan::ReplyAndEmit(Response::ScreenCapture { enabled }, events, told)
            },
            Request::ScreenCaptureStatus => Plan::Reply(
                Response::ScreenCapture { enabled: self.screen_capture_enabled },
            ),
            Request::Screenshot { output, region } => {
                if region.is_some() && output.is_none() {
                    return error_reply(
                        "screenshot: region requires output (coordinates are output-relative)",
                    );
                }
                client.spent = true;
                Plan::Screenshot { output, region }
            },
            Request::RunCommand { argv, timeout_ms } => {
                if argv.len() == 0 {
                    return error_reply("run_command: argv must be non-empty");
                }
                client.spent = true;
                Plan::RunCommand { argv, timeout_ms }
            },
            Request::ReloadConfig => Plan::ReloadConfig,
            Request::PickWindow => {
                client.spent = true;
                Plan::PickWindow
            },
            Request::Window { id, op } => Plan::Window { id, op },
            Request::InjectClick { button, x, y } => {
                let xy: Option<(u64, u64)> = match (x, y) {
                    (Some(x), Some(y)) => Some((x, y)),
                    (None, None) => None,
                    _ => {
                        return error_reply("inject_click: x and y must be passed together");
                    },
                };
                match self.inject_click(button.as_str(), xy) {
                    Ok(c) => Plan::Click(c),
                    Err(e) => Plan::Reply(Response::Error { message: e.message() }),
                }
            },
            Request::MoveMouse { x, y } => Plan::MoveMouse { x, y },
            Request::PointerPosition => Plan::PointerPosition,
            Request::FindWindows { title, app_id } => {
                let t: Option<&str> = match &title {
                    Some(s) => Some(s.as_str()),
                    None => None,
                };
                let a: Option<&str> = match &app_id {
                    Some(s) => Some(s.as_str()),
                    None => None,
                };
                match find_windows(&self.desktop, t, a) {
                    Ok(windows) => Plan::Reply(Response::Windows { windows }),
                    Err(message) => Plan::Reply(Response::Error { message }),
                }
            },
            Request::Metrics => Plan::Metrics,
            Request::MetricsStream { interval_ms } => {
                if !self.config.diagnostics_enabled {
                    return error_reply(
                        "metrics stream unavailable: diagnostics disabled (set [diagnostics].enabled = true)",
                    );
                }
                let floor: u64 = if self.config.sample_interval_ms >= 1 {
                    self.config.sample_interval_ms
                } else {
                    1
                };
                let asked: u64 = match interval_ms {
                    Some(n) => n as u64,
                    None => 0,
                };
                let want: u64 = if asked >= floor {
                    asked
                } else {
                    floor
                };
                Plan::JoinMetrics { interval_ms: want }
            },
            Request::DispatchAction { action } => match action {
                Ok(a) => Plan::Dispatch(a),
                Err(e) => Plan::Reply(
                    Response::Error {
                        message: concat2("dispatch_action: malformed action: ", e.as_str()),
                    },
                ),
            },
            Request::SetGamma { output, temperature, brightness, gamma } => Plan::SetGamma {
                output,
                temperature,
                brightness,
                gamma,
            },
            Request::ResetGamma { output } => Plan::ResetGamma { output },
        }
    }

    /// A connection is over. Its picking is cancelled, if it has one. The result
    /// tells whether the connection was there.
    pub fn drop_ipc_client(&mut self, id: ClientId) -> (r: bool)
        requires
            old(self).ipc matches Some(s) ==> s.wf(),
        ensures
            hung_up(*old(self), id, *final(self)),
            r == (old(self).ipc matches Some(a) && ids(a.clients@).contains(id)),
    {
        if let Some(owner) = self.pending_picker {
            if owner == id.0 {
                self.pending_picker = None;
            }
        }
        match self.ipc.take() {
            Some(s) => {
                let mut server = s;
                let r = server.remove(id);
                self.ipc = Some(server);
                r
            },
            None => false,
        }
    }
}

/// Whether a connection is another one.
pub open spec fn other_than(id: ClientId) -> spec_fn((ClientId, Client)) -> bool {
    |e: (ClientId, Client)| e.0 != id
}

/// What the end of a connection leaves: it is off the list, and a window picker
/// of its own is cancelled.
pub open spec fn hung_up(before: ShoestringWm, id: ClientId, after: ShoestringWm) -> bool {
    &&& after.pending_picker == (if before.pending_picker == Some(id.0) {
        None
    } else {
        before.pending_picker
    })
    &&& after == (ShoestringWm {
        pending_picker: after.pending_picker,
        ipc: after.ipc,
        ..before
    })
    &&& match (before.ipc, after.ipc) {
        (Some(a), Some(b)) => {
            &&& b.wf()
            &&& b.next_id == a.next_id
            &&& b.clients@ == a.clients@.filter(other_than(id))
        },
        (None, None) => true,
        _ => false,
    }
}

impl Server {
    /// Takes a connection off the list. The result tells whether it was there.
    fn remove(&mut self, id: ClientId) -> (r: bool)
        requires
            old(self).wf(),
        ensures
            final(self).wf(),
            final(self).next_id == old(self).next_id,
            final(self).clients@ == old(self).clients@.filter(
                other_than(id),
            ),
            r == ids(old(self).clients@).contains(id),
    {
        let ghost all = self.clients@;
        let ghost p = other_than(id);
        let mut i: usize = 0;
        while i < self.clients.len()
            invariant
                i <= all.len(),
                *self == *old(self),
                all == self.clients@,
                self.wf(),
                p == other_than(id),
                forall|j: int| 0 <= j < i ==> (#[trigger] all[j]).0 != id,
            decreases all.len() - i,
        {
            if self.clients[i].0 == id {
                self.clients.remove(i);
                proof {
                    assert(ids(all)[i as int] == id);
                    assert forall|j: int| 0 <= j < all.len() && j != i implies p(
                        #[trigger] all[j],
                    ) by {
                        if (i as int) < j {
                            assert(all[i as int].0 != all[j].0);
                        }
                    }
                    crate::seqs::lemma_filter_remove(all, p, i as int);
                    assert(self.clients@ == all.remove(i as int));
                    assert forall|a: int, b: int|
                        0 <= a < b < self.clients@.len() implies (#[trigger] self.clients@[a]).0
                        != (#[trigger] self.clients@[b]).0 by {
                        let oa = if a < i {
                            a
                        } else {
                            a + 1
                        };
                        let ob = if b < i {
                            b
                        } else {
                            b + 1
                        };
                        assert(all[oa].0 != all[ob].0);
                    }
                }
                return true;
            }
            i += 1;
        }
        proof {
            assert forall|j: int| 0 <= j < all.len() implies p(#[trigger] all[j]) by {}
            crate::seqs::lemma_filter_all(all, p);
            if ids(all).contains(id) {
                let k = choose|k: int| 0 <= k < ids(all).len() && ids(all)[k] == id;
                assert(all[k].0 == id);
            }
        }
        false
    }
}

/// The answer to something that was tried: success, or the error.
pub fn outcome_response(outcome: Result<(), String>) -> (r: Response)
    ensures
        match outcome {
            Ok(_) => r is Success,
            Err(m) => is_error(r, m@),
        },
{
    match outcome {
        Ok(_) => Response::Success,
        Err(message) => Response::Error { message },
    }
}

/// The answer to something that failed, with what it was in front.
pub fn failure_response(what: &str, why: &str) -> (r: Response)
    ensures
        is_error(r, what@ + why@),
{
    Response::Error { message: concat2(what, why) }
}

/// The answer to a request to set the gamma. There is no outcome where the
/// outputs are not driven by a card.
pub fn set_gamma_response(outcome: Option<Result<usize, String>>) -> (r: Response)
    ensures
        match outcome {
            Some(Ok(_)) => r is Success,
            Some(Err(m)) => is_error(r, m@),
            None => is_error(
                r,
                "gamma control unavailable: this build has no KMS/TTY backend"@,
            ),
        },
{
    match outcome {
        Some(Ok(_)) => Response::Success,
        Some(Err(message)) => Response::Error { message },
        None => gamma_unavailable(),
    }
}

/// The answer to a request to give the gamma up; `cards` tells whether the
/// outputs are driven by a card.
pub fn reset_gamma_response(cards: bool) -> (r: Response)
    ensures
        if cards {
            r is Success
        } else {
            is_error(r, "gamma control unavailable: this build has no KMS/TTY backend"@)
        },
{
    if cards {
        Response::Success
    } else {
        gamma_unavailable()
    }
}

fn gamma_unavailable() -> (r: Response)
    ensures
        is_error(r, "gamma control unavailable: this build has no KMS/TTY backend"@),
{
    Response::Error {
        message: "gamma control unavailable: this build has no KMS/TTY backend".to_owned(),
    }
}

/// What to do when a connection can be read.
#[derive(Debug)]
pub enum ReadStep {
    Close,
    Wait,
    /// Answer, then close.
    Reply(Response),
    /// Read the line as a request; [`ShoestringWm::answer_request`] follows.
    Parse(String),
}

/// What comes of the lines that were read.
pub open spec fn read_step(line: LineView, r: ReadStep) -> bool {
    match line {
        LineView::Pending => r is Wait,
        LineView::NotUtf8 => match r {
            ReadStep::Reply(response) => is_error(response, "request is not valid utf-8"@),
            _ => false,
        },
        LineView::Line(s) => match r {
            ReadStep::Parse(text) => text@ == s,
            _ => false,
        },
    }
}

/// A connection was read from. The next line with something on it is a request;
/// one that is not text is answered with an error.
pub fn handle_readable(client: &mut Client, read: ReadOutcome) -> (r: ReadStep)
    ensures
        *final(client) == (Client { read_buf: final(client).read_buf, ..*old(client) }),
        match read {
            ReadOutcome::Eof => r is Close && *final(client) == *old(client),
            ReadOutcome::Failed => r is Close && *final(client) == *old(client),
            ReadOutcome::WouldBlock => r is Wait && *final(client) == *old(client),
            ReadOutcome::Data(d) => {
                let next = next_line_of(old(client).read_buf@ + d@);
                read_step(next.0, r) && final(client).read_buf@ == next.1
            },
        },
{
    match client.on_read(read) {
        AfterRead::Close => ReadStep::Close,
        AfterRead::Wait => ReadStep::Wait,
        AfterRead::Lines => match client.take_line() {
            NextLine::Pending => ReadStep::Wait,
            NextLine::NotUtf8 => ReadStep::Reply(
                Response::Error { message: "request is not valid utf-8".to_owned() },
            ),
            NextLine::Line(text) => ReadStep::Parse(text),
        },
    }
}

impl ShoestringWm {
    /// The connections that an event is written to, in order: those that follow
    /// the events. [`ShoestringWm::drop_failed_clients`] follows.
    pub fn emit_ipc(&self) -> (r: Vec<ClientId>)
        ensures
            r@ == (match self.ipc {
                Some(s) => ids(s.clients@.filter(|e: (ClientId, Client)| e.1.subscriber)),
                None => Seq::empty(),
            }),
    {
        match &self.ipc {
            Some(s) => s.event_targets(),
            None => Vec::new(),
        }
    }

    /// The connections that the metrics are written to, in order: those that
    /// follow them and whose interval has passed. [`Server::pushed`] follows for
    /// each that was reached, and [`ShoestringWm::drop_failed_clients`] for the
    /// others.
    pub fn push_metrics_to_subscribers(&self, now_ms: u64) -> (r: Vec<ClientId>)
        ensures
            r@ == (match self.ipc {
                Some(s) => ids(s.clients@.filter(|e: (ClientId, Client)| e.1.push_due(now_ms))),
                None => Seq::empty(),
            }),
    {
        match &self.ipc {
            Some(s) => s.metrics_targets(now_ms),
            None => Vec::new(),
        }
    }

    /// Connections could not be written to: they are over. The picking is
    /// cancelled where one of them has it.
    pub fn drop_failed_clients(&mut self, failed: &Vec<ClientId>)
        requires
            old(self).ipc matches Some(s) ==> s.wf(),
        ensures
            *final(self) == (ShoestringWm {
                pending_picker: final(self).pending_picker,
                ipc: final(self).ipc,
                ..*old(self)
            }),
            final(self).pending_picker == (match old(self).pending_picker {
                Some(p) => if failed@.contains(ClientId(p)) {
                    None
                } else {
                    Some(p)
                },
                None => None,
            }),
            match (old(self).ipc, final(self).ipc) {
                (Some(a), Some(b)) => {
                    &&& b.wf()
                    &&& b.next_id == a.next_id
                    &&& b.clients@ == a.clients@.filter(
                        |e: (ClientId, Client)| !failed@.contains(e.0),
                    )
                },
                (None, None) => true,
                _ => false,
            },
    {
        let ghost all = match &self.ipc {
            Some(s) => s.clients@,
            None => Seq::empty(),
        };
        let mut i: usize = 0;
        proof {
            let none = |e: (ClientId, Client)| !failed@.take(0).contains(e.0);
            crate::seqs::lemma_filter_all(all, none);
        }
        while i < failed.len()
            invariant
                i <= failed@.len(),
                *self == (ShoestringWm {
                    pending_picker: self.pending_picker,
                    ipc: self.ipc,
                    ..*old(self)
                }),
                self.pending_picker == (match old(self).pending_picker {
                    Some(p) => if failed@.take(i as int).contains(ClientId(p)) {
                        None
                    } else {
                        Some(p)
                    },
                    None => None,
                }),
                all == (match old(self).ipc {
                    Some(s) => s.clients@,
                    None => Seq::empty(),
                }),
                match (old(self).ipc, self.ipc) {
                    (Some(a), Some(b)) => {
                        &&& b.wf()
                        &&& b.next_id == a.next_id
                        &&& b.clients@ == all.filter(
                            |e: (ClientId, Client)| !failed@.take(i as int).contains(e.0),
                        )
                    },
                    (None, None) => true,
                    _ => false,
                },
            decreases failed@.len() - i,
        {
            let ghost seen = failed@.take(i as int);
            let id = failed[i];
            self.drop_ipc_client(id);
            proof {
                assert(failed@.take(i + 1) =~= seen.push(id));
                let p = |e: (ClientId, Client)| !seen.contains(e.0);
                let q = other_than(id);
                let r = |e: (ClientId, Client)| !failed@.take(i + 1).contains(e.0);
                assert forall|e: (ClientId, Client)| #[trigger] r(e) == (p(e) && q(e)) by {
                    crate::seqs::lemma_push_contains(seen, id, e.0);
                }
                crate::seqs::lemma_filter_twice(all, p, q, r);
                if let Some(x) = old(self).pending_picker {
                    crate::seqs::lemma_push_contains(seen, id, ClientId(x));
                }
            }
            i += 1;
        }
        assert(failed@.take(i as int) =~= failed@);
    }
}

/// Lines come out of a connection as they went in: what was read in two parts
/// gives the lines of the whole.
pub proof fn law_lines_survive_splits(a: Seq<u8>, b: Seq<u8>)
    ensures
        next_line_of(a).0 !is Pending ==> next_line_of(a + b).0 == next_line_of(a).0
            && next_line_of(a + b).1 == next_line_of(a).1 + b,
        next_line_of(a).0 is Pending ==> next_line_of(next_line_of(a).1 + b) == next_line_of(a + b),
    decreases a.len(),
{
    if exists|i: int| line_end(a, i) {
        let k = choose|i: int| line_end(a, i);
        assert(line_end(a + b, k)) by {
            assert forall|j: int| 0 <= j < k implies #[trigger] (a + b)[j] != 10 by {
                assert(a[j] != 10);
            }
        }
        lemma_line_end_unique(a + b, k, choose|i: int| line_end(a + b, i));
        assert((a + b).take(k + 1) =~= a.take(k + 1));
        assert((a + b).skip(k + 1) =~= a.skip(k + 1) + b);
        law_lines_survive_splits(a.skip(k + 1), b);
    }
}

/// Between two pushes of metrics to a connection at least its interval passes,
/// and once that is over the next push is due.
pub proof fn law_metrics_spaced(c: Client, sub: MetricsSub, pushed_ms: u64, now_ms: u64)
    requires
        c.metrics_sub == Some(sub),
        pushed_ms <= now_ms,
    ensures
        pushed_client(c, pushed_ms).push_due(now_ms) <==> now_ms - pushed_ms >= sub.interval_ms,
{
}

/// Windows are found by each pattern by itself: every window of the answer has a
/// title that the title's pattern matches, where there is one, and an application
/// identifier that the other pattern matches, where there is one; and every tracked
/// window of which both hold is in the answer.
pub proof fn law_found_windows_match(
    d: Desktop,
    title: Option<Seq<char>>,
    app_id: Option<Seq<char>>,
    found: Seq<WindowSummary>,
    i: int,
    t: crate::desktop::Toplevel,
)
    requires
        summarize(d, selected(d, title, app_id), found),
    ensures
        0 <= i < found.len() ==> {
            &&& title matches Some(p) ==> regex_matches(p, found[i].title@)
            &&& app_id matches Some(p) ==> regex_matches(p, found[i].app_id@)
            &&& exists|k: int|
                0 <= k < d.toplevels@.len() && (#[trigger] d.toplevels@[k]).handle@ == found[i].id@
                    && d.toplevels@[k].app_id@ == found[i].app_id@
        },
        ({
            let shown = if d.name_overrides@.contains_key(t.window.id) {
                d.name_overrides@[t.window.id]@
            } else {
                t.title@
            };
            d.toplevels@.contains(t) && (title is None || regex_matches(title->0, shown)) && (
            app_id is None || regex_matches(app_id->0, t.app_id@)) ==> exists|k: int|
                0 <= k < found.len() && (#[trigger] found[k]).id@ == t.handle@ && found[k].app_id@
                    == t.app_id@ && found[k].title@ == shown
        }),
{
    let p = |w: crate::desktop::Toplevel| meets(title, d.title_of(w)) && meets(app_id, w.app_id@);
    let s = selected(d, title, app_id);
    if 0 <= i < found.len() {
        assert(crate::desktop::summarizes(d, s[i], found[i]));
        assert(s.contains(s[i]));
        crate::seqs::lemma_filter_in(d.toplevels@, p, s[i]);
        let k = choose|k: int| 0 <= k < d.toplevels@.len() && d.toplevels@[k] == s[i];
        assert(d.toplevels@[k].handle@ == found[i].id@);
    }
    if d.toplevels@.contains(t) && p(t) {
        crate::seqs::lemma_filter_in(d.toplevels@, p, t);
        let k = choose|k: int| 0 <= k < s.len() && s[k] == t;
        assert(crate::desktop::summarizes(d, s[k], found[k]));
    }
}

/// Without patterns every tracked window is found, in order, and nothing else.
pub proof fn law_no_pattern_finds_all(d: Desktop)
    ensures
        selected(d, None, None) == d.toplevels@,
{
    let p = |w: crate::desktop::Toplevel| meets(None, d.title_of(w)) && meets(None, w.app_id@);
    crate::seqs::lemma_filter_all(d.toplevels@, p);
}

/// Looking for windows fails exactly where a pattern that is given is none, and the
/// answer says which and why; the title's comes first.
pub proof fn law_bad_pattern_refused(title: Option<Seq<char>>, app_id: Option<Seq<char>>)
    ensures
        filter_error(title, app_id) is Some <==> (title is Some && regex_error(title->0) is Some)
            || (app_id is Some && regex_error(app_id->0) is Some),
        title matches Some(p) ==> (regex_error(p) matches Some(e) ==> filter_error(title, app_id)
            == Some("find_windows: title regex invalid: "@ + e)),
        title is None ==> (app_id matches Some(p) ==> (regex_error(p) matches Some(e)
            ==> filter_error(title, app_id) == Some("find_windows: app_id regex invalid: "@ + e))),
{
}

/// Asking for the workspaces tells which is active and how many there are; asking
/// for the windows tells of every tracked window, one for one; asking for a gate
/// tells how it stands.
pub proof fn law_questions_answered(
    before: ShoestringWm,
    client: Client,
    request: Request,
    p: Plan,
    after: ShoestringWm,
    client_after: Client,
    i: int,
)
    requires
        !client.spent,
        handled(before, client, Ok(request), p, after, client_after),
    ensures
        request is Workspaces ==> (p matches Plan::Reply(Response::Workspaces {
            active,
            count,
            names,
        }) && active == before.desktop.workspaces.active && count
            == before.desktop.workspaces.count && names@ == before.desktop.workspaces.names@),
        request is Windows ==> (p matches Plan::Reply(Response::Windows { windows }) && windows@.len()
            == before.desktop.toplevels@.len() && (0 <= i < windows@.len() ==> windows@[i].id@
            == before.desktop.toplevels@[i].handle@ && windows@[i].app_id@
            == before.desktop.toplevels@[i].app_id@)),
        request is Outputs ==> (p matches Plan::Reply(Response::Outputs { outputs })
            && outputs@.len() == before.desktop.outputs@.len() && (0 <= i < outputs@.len()
            ==> outputs@[i].name@ == before.desktop.outputs@[i].name@ && outputs@[i].scale_bits
            == before.desktop.outputs@[i].scale_bits && (before.desktop.outputs@[i].mode matches Some(
            m,
        ) ==> outputs@[i].width == m.0 && outputs@[i].height == m.1) && (
        before.desktop.outputs@[i].mode is None ==> outputs@[i].width == 0 && outputs@[i].height
            == 0))),
        request is GetTree ==> (p matches Plan::Reply(Response::Tree { outputs, .. })
            && outputs@.len() == before.desktop.outputs@.len()),
        request is AutomationStatus ==> (p matches Plan::Reply(Response::Automation { enabled })
            && enabled == before.automation_enabled),
        request is ScreenCaptureStatus ==> (p matches Plan::Reply(
            Response::ScreenCapture { enabled },
        ) && enabled == before.screen_capture_enabled),
        request is PointerPosition ==> p is PointerPosition,
        request is Metrics ==> p is Metrics,
{
    if request is Windows {
        if let Plan::Reply(Response::Windows { windows }) = p {
            if 0 <= i < windows@.len() {
                assert(crate::desktop::summarizes(
                    before.desktop,
                    before.desktop.toplevels@[i],
                    windows@[i],
                ));
            }
        }
    }
    if request is Outputs {
        if let Plan::Reply(Response::Outputs { outputs }) = p {
            if 0 <= i < outputs@.len() {
                assert(reports_output(before.desktop.outputs@[i], outputs@[i]));
            }
        }
    }
}

/// What needs no gate is carried out as it was asked for, whatever the gates are.
pub proof fn law_ungated_requests_pass(
    before: ShoestringWm,
    client: Client,
    request: Request,
    p: Plan,
    after: ShoestringWm,
    client_after: Client,
)
    requires
        !client.spent,
        handled(before, client, Ok(request), p, after, client_after),
    ensures
        request is EventStream ==> p is JoinEvents,
        request is Lock ==> p is Lock,
        request is ReloadConfig ==> p is ReloadConfig,
        request is PickWindow ==> p is PickWindow,
        request matches Request::Window { id, op } ==> p == (Plan::Window { id, op }),
        request matches Request::SetGamma { output, temperature, brightness, gamma } ==> p == (
        Plan::SetGamma { output, temperature, brightness, gamma }),
        request matches Request::ResetGamma { output } ==> p == (Plan::ResetGamma { output }),
        request matches Request::SetAutomation { enabled } ==> after.automation_enabled == enabled
            && after.screen_capture_enabled == enabled,
        request matches Request::SetScreenCapture { enabled } ==> after.screen_capture_enabled
            == enabled && after.automation_enabled == before.automation_enabled,
{
}

/// What needs automation is carried out as it was asked for while automation is
/// allowed, unless it makes no sense: a region without an output, a program without
/// a name, half a point, an unknown button. That is refused, and so is everything
/// of this sort while automation is not allowed.
pub proof fn law_gated_requests(
    before: ShoestringWm,
    client: Client,
    request: Request,
    p: Plan,
    after: ShoestringWm,
    client_after: Client,
)
    requires
        !client.spent,
        handled(before, client, Ok(request), p, after, client_after),
    ensures
        ({
            let open = before.automation_enabled;
            &&& request matches Request::InjectKey { keysym, modifiers } ==> {
                &&& open ==> p == (Plan::InjectKey { keysym, modifiers })
                &&& !open ==> p is Reply && p->Reply_0 is Error
            }
            &&& request matches Request::MoveMouse { x, y } ==> {
                &&& open ==> p == (Plan::MoveMouse { x, y })
                &&& !open ==> p is Reply && p->Reply_0 is Error
            }
            &&& request matches Request::Screenshot { output, region } ==> {
                &&& open && (region is None || output is Some) ==> p == (Plan::Screenshot {
                    output,
                    region,
                })
                &&& !open || (region is Some && output is None) ==> p is Reply
                    && p->Reply_0 is Error
            }
            &&& request matches Request::RunCommand { argv, timeout_ms } ==> {
                &&& open && argv@.len() > 0 ==> p == (Plan::RunCommand { argv, timeout_ms })
                &&& !open || argv@.len() == 0 ==> p is Reply && p->Reply_0 is Error
            }
            &&& request matches Request::InjectClick { button, x, y } ==> {
                &&& !open || x is Some != y is Some ==> p is Reply && p->Reply_0 is Error
                &&& p is Click ==> {
                    &&& x is Some <==> p->Click_0.move_to is Some
                    &&& x is Some ==> p->Click_0.move_to == Some((x->0, y->0))
                }
                &&& p is Click || (p is Reply && p->Reply_0 is Error)
            }
            &&& request matches Request::DispatchAction { action } ==> {
                &&& open ==> (action matches Ok(a) ==> p == Plan::Dispatch(a))
                &&& !open || action is Err ==> p is Reply && p->Reply_0 is Error
            }
            &&& request is InjectText && open ==> p is SendKeys
            &&& request is InjectText && !open ==> p is Reply && p->Reply_0 is Error
        }),
{
}

/// A connection has one request: a second one is hung up on and changes nothing. A
/// request whose answer comes later uses the connection up at once.
pub proof fn law_one_request_each(
    before: ShoestringWm,
    client: Client,
    request: Request,
    p: Plan,
    after: ShoestringWm,
    client_after: Client,
)
    requires
        handled(before, client, Ok(request), p, after, client_after),
    ensures
        client.spent ==> p is HangUp && after == before,
        !client.spent ==> !(p is HangUp),
        p is Screenshot || p is RunCommand || p is PickWindow ==> client_after.spent,
        client.spent ==> client_after.spent,
        !client.spent && !(p is Screenshot || p is RunCommand || p is PickWindow)
            ==> !client_after.spent,
        client_after.read_buf == client.read_buf,
        client_after.subscriber == client.subscriber,
{
}

/// A line that is no request is answered with an error and changes nothing.
pub proof fn law_bad_line_refused(
    before: ShoestringWm,
    client: Client,
    why: String,
    p: Plan,
    after: ShoestringWm,
    client_after: Client,
)
    requires
        handled(before, client, Err(why), p, after, client_after),
    ensures
        p matches Plan::Reply(Response::Error { message }) && message@ == "invalid request json: "@
            + why@,
        after == before,
{
}

/// Subscribers hear of a gate exactly where it has changed, and of its new state;
/// automation is told first.
pub proof fn law_changes_are_told(
    before: ShoestringWm,
    enabled: bool,
    p: Plan,
    after: ShoestringWm,
)
    ensures
        answered(before, Request::SetAutomation { enabled }, p, after) ==> (
        p matches Plan::ReplyAndEmit(r, events, told) && r == (Response::Automation { enabled })
            && (events@.contains(GateEvent::AutomationChanged { enabled }) <==> enabled
            != before.automation_enabled) && (events@.contains(
            GateEvent::ScreenCaptureChanged { enabled },
        ) <==> enabled != before.screen_capture_enabled) && !events@.contains(
            GateEvent::AutomationChanged { enabled: !enabled },
        ) && !events@.contains(GateEvent::ScreenCaptureChanged { enabled: !enabled })
            && events@.len() <= 2),
        answered(before, Request::SetScreenCapture { enabled }, p, after) ==> (
        p matches Plan::ReplyAndEmit(r, events, told) && r == (Response::ScreenCapture { enabled })
            && (events@.contains(GateEvent::ScreenCaptureChanged { enabled }) <==> enabled
            != before.screen_capture_enabled) && events@.len() == if enabled
            != before.screen_capture_enabled {
            1int
        } else {
            0
        }),
{
    if answered(before, Request::SetAutomation { enabled }, p, after) {
        let a = before.automation_enabled != enabled;
        let c = before.screen_capture_enabled != enabled;
        let e = gate_events(a, c, enabled);
        if a {
            assert(e[0] == GateEvent::AutomationChanged { enabled });
            if c {
                assert(e[1] == GateEvent::ScreenCaptureChanged { enabled });
            }
        } else if c {
            assert(e[0] == GateEvent::ScreenCaptureChanged { enabled });
        }
        assert forall|k: int| 0 <= k < e.len() implies (#[trigger] e[k] == (
        GateEvent::AutomationChanged { enabled }) && a) || (e[k] == (
        GateEvent::ScreenCaptureChanged { enabled }) && c) by {}
    }
    if answered(before, Request::SetScreenCapture { enabled }, p, after) {
        let c = before.screen_capture_enabled != enabled;
        let e = gate_events(false, c, enabled);
        if c {
            assert(e[0] == GateEvent::ScreenCaptureChanged { enabled });
        }
    }
}

/// The metrics come no more often than was asked for, than they are sampled, and
/// than once a millisecond, and no less often than that takes. They come only while
/// they are sampled.
pub proof fn law_metrics_interval(
    before: ShoestringWm,
    asked: Option<u32>,
    p: Plan,
    after: ShoestringWm,
)
    requires
        answered(before, Request::MetricsStream { interval_ms: asked }, p, after),
    ensures
        before.config.diagnostics_enabled ==> (p matches Plan::JoinMetrics { interval_ms: n } && {
            &&& n >= 1
            &&& n >= before.config.sample_interval_ms
            &&& asked matches Some(a) ==> n >= a
            &&& n == 1 || n == before.config.sample_interval_ms || (asked is Some && n == asked->0)
        }),
        !before.config.diagnostics_enabled ==> p is Reply && p->Reply_0 is Error,
{
}

/// A line is what stands before the first line feed, without the line ends behind
/// it; what follows stays for the next one.
pub proof fn law_line_is_taken(line: Seq<u8>, rest: Seq<u8>)
    requires
        !line.contains(10),
    ensures
        next_line_of(line).0 is Pending,
        next_line_of(line).1 == line,
        ({
            let whole = line.push(10) + rest;
            let text = vstd::utf8::decode_utf8(line.push(10));
            &&& !vstd::utf8::valid_utf8(line.push(10)) ==> next_line_of(whole) == (
                LineView::NotUtf8,
                rest,
            )
            &&& vstd::utf8::valid_utf8(line.push(10)) && stripped(text).len() > 0 ==> next_line_of(
                whole,
            ) == (LineView::Line(stripped(text)), rest)
            &&& vstd::utf8::valid_utf8(line.push(10)) && stripped(text).len() == 0 ==> next_line_of(
                whole,
            ) == next_line_of(rest)
        }),
{
    let whole = line.push(10) + rest;
    let k = line.len() as int;
    assert forall|i: int| !line_end(line, i) by {
        if line_end(line, i) {
            assert(line[i] == 10);
        }
    }
    assert(line_end(whole, k)) by {
        assert(whole[k] == 10);
        assert forall|j: int| 0 <= j < k implies #[trigger] whole[j] != 10 by {
            assert(whole[j] == line[j]);
            assert(line.contains(line[j]));
        }
    }
    lemma_line_end_unique(whole, k, choose|i: int| line_end(whole, i));
    assert(whole.take(k + 1) =~= line.push(10));
    assert(whole.skip(k + 1) =~= rest);
}

/// Only line ends are taken off a line, and all that stand at its end.
pub proof fn law_line_ends_go(s: Seq<char>)
    ensures
        stripped(s).is_prefix_of(s),
        stripped(s).len() > 0 ==> stripped(s).last() != '\n' && stripped(s).last() != '\r',
        forall|i: int|
            stripped(s).len() <= i < s.len() ==> #[trigger] s[i] == '\n' || s[i] == '\r',
    decreases s.len(),
{
    if s.len() > 0 && (s.last() == '\n' || s.last() == '\r') {
        law_line_ends_go(s.drop_last());
        assert forall|i: int| stripped(s).len() <= i < s.len() implies #[trigger] s[i] == '\n'
            || s[i] == '\r' by {
            if i < s.len() - 1 {
                assert(s.drop_last()[i] == s[i]);
            }
        }
    }
}

/// The end of a connection ends nothing but what is its own: every other connection
/// stays as it is, and a picking of another one goes on.
pub proof fn law_hang_up_ends_one(
    before: ShoestringWm,
    id: ClientId,
    after: ShoestringWm,
    a: Server,
    e: (ClientId, Client),
)
    requires
        hung_up(before, id, after),
        before.ipc == Some(a),
    ensures
        after.ipc is Some,
        after.ipc->0.clients@.contains(e) <==> a.clients@.contains(e) && e.0 != id,
        before.pending_picker == Some(id.0) ==> after.pending_picker is None,
        before.pending_picker != Some(id.0) ==> after.pending_picker == before.pending_picker,
        after.desktop == before.desktop,
        after.lock_session == before.lock_session,
{
    crate::seqs::lemma_filter_in(a.clients@, other_than(id), e);
}

/// Metrics are due to a connection that follows them and has had none, and to no
/// connection that does not follow them.
pub proof fn law_first_push_is_due(c: Client, now_ms: u64)
    ensures
        c.metrics_sub is None ==> !c.push_due(now_ms) && (c.streams() <==> c.subscriber),
        c.metrics_sub matches Some(sub) ==> c.streams() && (sub.last_push_ms is None ==> c.push_due(
            now_ms,
        )),
        c.metrics_sub is None ==> pushed_client(c, now_ms) == c,
        c.metrics_sub matches Some(sub) ==> pushed_client(c, now_ms).metrics_sub == Some(
            MetricsSub { interval_ms: sub.interval_ms, last_push_ms: Some(now_ms) },
        ) && pushed_client(c, now_ms).read_buf == c.read_buf && pushed_client(c, now_ms).subscriber
            == c.subscriber,
{
}

/// What is read is answered once a line is whole: half a line waits, one that is no
/// text is answered with an error, any other is read as a request.
pub proof fn law_read_steps(line: LineView, r: ReadStep)
    requires
        read_step(line, r),
    ensures
        line is Pending <==> r is Wait,
        line is NotUtf8 <==> r is Reply,
        line is NotUtf8 ==> r->Reply_0 is Error,
        line matches LineView::Line(s) ==> r is Parse && r->Parse_0@ == s,
{
}

/// A connection that has just been made has sent nothing, follows nothing and may ask.
pub proof fn law_new_connection(c: Client)
    requires
        fresh_client(c),
    ensures
        c.read_buf@.len() == 0,
        !c.subscriber && !c.spent,
        c.metrics_sub is None && c.capture_sub is None,
{
}

/// The number that the next connection gets is that of no connection before it.
pub proof fn law_next_number_is_fresh(s: Server, i: int)
    requires
        s.wf(),
        0 <= i < s.clients@.len(),
    ensures
        s.clients@[i].0.0 < s.next_id,
        s.clients@[i].0 != ClientId(s.next_id),
{
}

/// A request changes the queue of keys only where it types, and the two permissions, with
/// the streams and sessions that end with them, only where it sets them; any other
/// changes nothing.
pub proof fn law_requests_change_little(
    before: ShoestringWm,
    request: Request,
    p: Plan,
    after: ShoestringWm,
)
    requires
        answered(before, request, p, after),
    ensures
        after == (ShoestringWm {
            key_queue: after.key_queue,
            automation_enabled: after.automation_enabled,
            screen_capture_enabled: after.screen_capture_enabled,
            ipc: after.ipc,
            pending_picker: after.pending_picker,
            ext_screencopy: after.ext_screencopy,
            ..before
        }),
        !(request is InjectText) ==> after.key_queue == before.key_queue,
        !(request is InjectText || request is SetAutomation || request is SetScreenCapture)
            ==> after == before,
        !(request is SetAutomation) ==> after.automation_enabled == before.automation_enabled,
{
}

/// A connection that goes takes its window picker along; nothing else of the manager
/// changes but the list of connections.
pub proof fn law_hang_up_changes_little(before: ShoestringWm, id: ClientId, after: ShoestringWm)
    requires
        hung_up(before, id, after),
    ensures
        after == (ShoestringWm {
            pending_picker: after.pending_picker,
            ipc: after.ipc,
            ..before
        }),
        before.pending_picker == Some(id.0) ==> after.pending_picker is None,
        before.pending_picker != Some(id.0) ==> after.pending_picker == before.pending_picker,
        before.ipc is Some <==> after.ipc is Some,
{
}

} // verus!
