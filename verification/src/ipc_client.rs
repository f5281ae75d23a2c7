//! The client's side of the socket: lines that come in, and what answers mean.

use vstd::prelude::*;

use crate::ipc::utf8_string;
use crate::ipc::ReadOutcome;
use crate::ipc::Response;
use crate::text::concat2;

verus! {

/// What came of reading one line, byte by byte.
#[derive(Debug)]
pub enum LineRead {
    /// More bytes are needed.
    Pending,
    /// The other side has closed before it sent anything.
    Closed,
    Line(String),
    NotUtf8,
}

/// The line that bytes make.
pub open spec fn line_text(bytes: Seq<u8>, r: LineRead) -> bool {
    if vstd::utf8::valid_utf8(bytes) {
        r matches LineRead::Line(s) && s@ == vstd::utf8::decode_utf8(bytes)
    } else {
        r is NotUtf8
    }
}

fn finish_line(bytes: &Vec<u8>) -> (r: LineRead)
    ensures
        line_text(bytes@, r),
{
    match utf8_string(bytes.as_slice()) {
        Some(s) => LineRead::Line(s),
        None => LineRead::NotUtf8,
    }
}

/// Takes in one byte of a line, or the end of what the other side sends. A line
/// ends with a line feed, which does not belong to it, or with the end.
pub fn read_line(buf: &mut Vec<u8>, byte: Option<u8>) -> (r: LineRead)
    ensures
        match byte {
            Some(b) => if b == 10 {
                final(buf)@ == old(buf)@ && line_text(old(buf)@, r)
            } else {
                final(buf)@ == old(buf)@.push(b) && r is Pending
            },
            None => {
                &&& final(buf)@ == old(buf)@
                &&& if old(buf)@.len() == 0 {
                    r is Closed
                } else {
                    line_text(old(buf)@, r)
                }
            },
        },
{
    match byte {
        Some(b) => {
            if b == 10 {
                return finish_line(buf);
            }
            buf.push(b);
            LineRead::Pending
        },
        None => {
            if buf.len() == 0 {
                return LineRead::Closed;
            }
            finish_line(buf)
        },
    }
}

/// The answer to a request.
#[derive(Debug)]
pub enum ServerLine {
    /// The other side has closed before it answered.
    Closed,
    /// The line is no answer.
    Malformed,
    Answer(Response),
}

/// The active workspace and the number of workspaces, from an answer. `debug` is
/// the answer in words, for one that was not expected.
pub fn query_workspaces(line: &ServerLine, debug: &str) -> (r: Result<(u8, u8), String>)
    ensures
        match *line {
            ServerLine::Closed => r matches Err(e) && e@ == "server closed before responding"@,
            ServerLine::Malformed => r matches Err(e) && e@ == "parse workspaces response"@,
            ServerLine::Answer(Response::Workspaces { active, count, .. }) => r == Ok::<
                (u8, u8),
                String,
            >((active, count)),
            ServerLine::Answer(Response::Error { message }) => r matches Err(e) && e@
                == "server error: "@ + message@,
            _ => r matches Err(e) && e@ == "unexpected response: "@ + debug@,
        },
{
    match line {
        ServerLine::Closed => Err("server closed before responding".to_string()),
        ServerLine::Malformed => Err("parse workspaces response".to_string()),
        ServerLine::Answer(Response::Workspaces { active, count, .. }) => Ok((*active, *count)),
        ServerLine::Answer(Response::Error { message }) => Err(
            concat2("server error: ", message.as_str()),
        ),
        _ => Err(concat2("unexpected response: ", debug)),
    }
}

/// The subscription that has begun, from the answer to it.
pub fn open_event_stream(line: &ServerLine, debug: &str) -> (r: Result<EventStream, String>)
    ensures
        match *line {
            ServerLine::Closed => r matches Err(e) && e@ == "server closed before ack"@,
            ServerLine::Malformed => r matches Err(e) && e@ == "parse event-stream ack"@,
            ServerLine::Answer(Response::Success) => r matches Ok(s) && s.buf@.len() == 0,
            ServerLine::Answer(Response::Error { message }) => r matches Err(e) && e@
                == "server error: "@ + message@,
            _ => r matches Err(e) && e@ == "unexpected ack: "@ + debug@,
        },
{
    match line {
        ServerLine::Closed => Err("server closed before ack".to_string()),
        ServerLine::Malformed => Err("parse event-stream ack".to_string()),
        ServerLine::Answer(Response::Success) => Ok(EventStream { buf: Vec::new() }),
        ServerLine::Answer(Response::Error { message }) => Err(
            concat2("server error: ", message.as_str()),
        ),
        _ => Err(concat2("unexpected ack: ", debug)),
    }
}

/// A subscription: the bytes that do not make a whole line yet.
#[derive(Debug)]
pub struct EventStream {
    pub buf: Vec<u8>,
}

/// What to do after a read.
#[derive(Clone, Copy, Debug, PartialEq, Eq, Structural)]
pub enum DrainStep {
    /// Read on.
    Read,
    /// Take the lines.
    Lines,
    /// The stream is over.
    Over,
}

/// The lines of some bytes, without empty ones, and the bytes behind the last
/// line feed. At a line that is not UTF-8 there is no list: the bytes behind that
/// line are left.
pub open spec fn event_lines(buf: Seq<u8>) -> (Option<Seq<Seq<char>>>, Seq<u8>)
    decreases buf.len(),
{
    if exists|i: int| crate::ipc::line_end(buf, i) {
        let k = choose|i: int| crate::ipc::line_end(buf, i);
        let line = buf.take(k);
        let rest = buf.skip(k + 1);
        if rest.len() >= buf.len() {
            (Some(Seq::empty()), buf)
        } else if line.len() == 0 {
            event_lines(rest)
        } else if !vstd::utf8::valid_utf8(line) {
            (None, rest)
        } else {
            let (more, left) = event_lines(rest);
            (
                match more {
                    Some(m) => Some(seq![vstd::utf8::decode_utf8(line)] + m),
                    None => None,
                },
                left,
            )
        }
    } else {
        (Some(Seq::empty()), buf)
    }
}

impl EventStream {
    /// Takes in what a read has brought.
    pub fn on_read(&mut self, read: ReadOutcome) -> (r: DrainStep)
        ensures
            match read {
                ReadOutcome::Eof => r == DrainStep::Over && *final(self) == *old(self),
                ReadOutcome::Failed => r == DrainStep::Over && *final(self) == *old(self),
                ReadOutcome::WouldBlock => r == DrainStep::Lines && *final(self) == *old(self),
                ReadOutcome::Data(d) => r == DrainStep::Read && final(self).buf@
                    == old(self).buf@ + d@,
            },
    {
        match read {
            ReadOutcome::Eof => DrainStep::Over,
            ReadOutcome::Failed => DrainStep::Over,
            ReadOutcome::WouldBlock => DrainStep::Lines,
            ReadOutcome::Data(d) => {
                let mut more = d;
                self.buf.append(&mut more);
                DrainStep::Read
            },
        }
    }

    /// The lines that have come, in order; an error where one is not UTF-8.
    pub fn drain_events(&mut self) -> (r: Result<Vec<String>, String>)
        ensures
            event_lines(old(self).buf@).1 == final(self).buf@,
            match r {
                Ok(lines) => event_lines(old(self).buf@).0 == Some(crate::text::views(lines@)),
                Err(e) => event_lines(old(self).buf@).0 is None && e@
                    == "event line is not valid utf-8"@,
            },
    {
        let mut out: Vec<String> = Vec::new();
        let ghost all = self.buf@;
        loop
            invariant
                all == old(self).buf@,
                event_lines(all).1 == event_lines(self.buf@).1,
                event_lines(all).0 == (match event_lines(self.buf@).0 {
                    Some(m) => Some(crate::text::views(out@) + m),
                    None => None,
                }),
            decreases self.buf@.len(),
        {
            let ghost now = self.buf@;
            let k = match crate::ipc::find_line_end(&self.buf) {
                Some(k) => k,
                None => {
                    assert(crate::text::views(out@) + Seq::empty() =~= crate::text::views(out@));
                    return Ok(out);
                },
            };
            proof {
                let c = choose|i: int| crate::ipc::line_end(now, i);
                crate::ipc::lemma_line_end_unique(now, k as int, c);
            }
            let head = crate::ipc::take_front(&mut self.buf, k + 1);
            let mut line = head;
            line.truncate(k);
            assert(line@ =~= now.take(k as int));
            if line.len() == 0 {
                continue;
            }
            match utf8_string(line.as_slice()) {
                None => {
                    return Err("event line is not valid utf-8".to_string());
                },
                Some(s) => {
                    let ghost before = crate::text::views(out@);
                    out.push(s);
                    proof {
                        assert(crate::text::views(out@) =~= before.push(s@));
                        if let Some(m) = event_lines(self.buf@).0 {
                            assert(before + (seq![s@] + m) =~= before.push(s@) + m);
                        }
                    }
                },
            }
        }
    }
}

/// Events come line by line: a line with its line feed in front of the rest is the
/// first of the lines, unless it is empty; one that is not UTF-8 ends the list, with
/// the rest left. Without a line feed there is no line, and the bytes are kept.
pub proof fn law_events_by_line(line: Seq<u8>, rest: Seq<u8>)
    requires
        forall|i: int| 0 <= i < line.len() ==> #[trigger] line[i] != 10,
    ensures
        ({
            let all = event_lines(line + seq![10u8] + rest);
            let more = event_lines(rest);
            &&& line.len() == 0 ==> all == more
            &&& line.len() > 0 && !vstd::utf8::valid_utf8(line) ==> all.0 is None && all.1 == rest
            &&& line.len() > 0 && vstd::utf8::valid_utf8(line) ==> all.1 == more.1 && (
            more.0 is None <==> all.0 is None)
            &&& line.len() > 0 && vstd::utf8::valid_utf8(line) && more.0 is Some ==> all.0 == Some(
                seq![vstd::utf8::decode_utf8(line)] + more.0->0,
            )
        }),
        event_lines(line).0 == Some(Seq::<Seq<char>>::empty()),
        event_lines(line).1 == line,
{
    let whole = line + seq![10u8] + rest;
    let k = line.len() as int;
    assert(whole[k] == 10);
    assert forall|j: int| 0 <= j < k implies #[trigger] whole[j] != 10 by {
        assert(whole[j] == line[j]);
    }
    assert(crate::ipc::line_end(whole, k));
    crate::ipc::lemma_line_end_unique(whole, k, choose|i: int| crate::ipc::line_end(whole, i));
    assert(whole.take(k) =~= line);
    assert(whole.skip(k + 1) =~= rest);
    assert forall|i: int| !crate::ipc::line_end(line, i) by {
        if crate::ipc::line_end(line, i) {
            assert(line[i] != 10);
        }
    }
}

/// Bytes make a line exactly where they are UTF-8, and then its text.
pub proof fn law_bytes_make_a_line(bytes: Seq<u8>, r: LineRead)
    requires
        line_text(bytes, r),
    ensures
        r is Line <==> vstd::utf8::valid_utf8(bytes),
        r is NotUtf8 <==> !vstd::utf8::valid_utf8(bytes),
        r matches LineRead::Line(s) ==> s@ == vstd::utf8::decode_utf8(bytes),
{
}

} // verus!
