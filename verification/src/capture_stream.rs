//! Screen capture as a stream: every connection is sent what has changed since
//! its last frame.

use vstd::prelude::*;

use crate::geometry::max_i32;
use crate::geometry::min_i32;
use crate::geometry::rect;
use crate::geometry::Point;
use crate::geometry::Rect;
use crate::geometry::Size;
use crate::ipc::Client;
use crate::ipc::ClientId;
use crate::ipc::Server;
use crate::seqs::pick_map;
use crate::state::ShoestringWm;
use crate::text::concat3;
use crate::text::decimal_string;
use crate::text::str_eq;

verus! {

/// What a connection has been told of the output that it watches.
#[derive(Debug)]
pub struct CaptureSub {
    pub output_name: String,
    /// The number of the last frame.
    pub seq: u32,
    /// Whether the stream has begun, with a whole frame.
    pub sent_ready: bool,
    /// Width and height of the last frame's output.
    pub last_size: (u32, u32),
}

impl CaptureSub {
    /// A stream that has not begun.
    pub fn new(output_name: String) -> (r: Self)
        ensures
            r.output_name == output_name,
            r.seq == 0,
            !r.sent_ready,
            r.last_size == (0u32, 0u32),
    {
        CaptureSub { output_name, seq: 0, sent_ready: false, last_size: (0, 0) }
    }
}

/// The part of a rectangle that lies on a picture of the given size.
pub open spec fn clamped(r: Rect, w: int, h: int) -> Option<Rect> {
    let x0 = crate::geometry::max(r.loc.x as int, 0);
    let y0 = crate::geometry::max(r.loc.y as int, 0);
    let x1 = crate::geometry::min(r.right(), w);
    let y1 = crate::geometry::min(r.bottom(), h);
    if x1 <= x0 || y1 <= y0 {
        None
    } else {
        Some(
            Rect {
                loc: Point { x: x0 as i32, y: y0 as i32 },
                size: Size { w: (x1 - x0) as i32, h: (y1 - y0) as i32 },
            },
        )
    }
}

/// The part of a rectangle that lies on a picture of the given size; none where
/// nothing does.
pub fn clamp_to_buffer(r: Rect, w: i32, h: i32) -> (c: Option<Rect>)
    requires
        r.fits(),
    ensures
        c == clamped(r, w as int, h as int),
{
    let x0 = max_i32(r.loc.x, 0);
    let y0 = max_i32(r.loc.y, 0);
    let x1 = min_i32(r.loc.x + r.size.w, w);
    let y1 = min_i32(r.loc.y + r.size.h, h);
    if x1 <= x0 || y1 <= y0 {
        return None;
    }
    Some(rect(x0, y0, x1 - x0, y1 - y0))
}

/// Clamping keeps exactly the points that lie both in the rectangle and on the
/// picture.
pub proof fn law_clamp_keeps_common(r: Rect, w: int, h: int, x: int, y: int)
    requires
        r.fits(),
        0 <= w <= i32::MAX,
        0 <= h <= i32::MAX,
    ensures
        (r.holds(x, y) && 0 <= x < w && 0 <= y < h) <==> (clamped(r, w, h) matches Some(c)
            && c.holds(x, y)),
{
}

/// A rectangle as the stream carries it: the low sixteen bits of each number.
#[derive(Clone, Copy, Debug, PartialEq, Eq, Structural)]
pub struct RemoteRect {
    pub x: u16,
    pub y: u16,
    pub w: u16,
    pub h: u16,
}

fn low_bits(x: i32) -> (r: u16)
    ensures
        r as int == x as int % 65536,
{
    #[verifier::truncate]
    let r: u16 = x as u16;
    assert(x as u16 == x % 65536) by (bit_vector);
    r
}

/// A rectangle as the stream carries it.
pub fn to_remote_rect(r: Rect) -> (t: RemoteRect)
    ensures
        t.x as int == r.loc.x as int % 65536,
        t.y as int == r.loc.y as int % 65536,
        t.w as int == r.size.w as int % 65536,
        t.h as int == r.size.h as int % 65536,
{
    RemoteRect { x: low_bits(r.loc.x), y: low_bits(r.loc.y), w: low_bits(r.size.w), h: low_bits(r.size.h) }
}

/// On a picture of at most 65535 points a side nothing of a clamped rectangle is
/// lost on the wire.
pub proof fn law_remote_rect_exact(r: Rect, w: int, h: int)
    requires
        0 <= w <= 65535,
        0 <= h <= 65535,
    ensures
        clamped(r, w, h) matches Some(c) ==> {
            &&& c.loc.x as int % 65536 == c.loc.x
            &&& c.loc.y as int % 65536 == c.loc.y
            &&& c.size.w as int % 65536 == c.size.w
            &&& c.size.h as int % 65536 == c.size.h
        },
{
}

/// The pixels of a region, four bytes each, off the front of what was read back.
/// Too few bytes are an error.
pub fn readback(src: &Vec<u8>, w: u32, h: u32) -> (r: Result<Vec<u8>, String>)
    requires
        w * h * 4 <= usize::MAX,
    ensures
        match r {
            Ok(bytes) => src@.len() >= w * h * 4 && bytes@ == src@.take(w * h * 4),
            Err(e) => src@.len() < w * h * 4 && e@ == "short readback: "@ + crate::text::decimal(
                src@.len(),
            ) + " < "@ + crate::text::decimal((w * h * 4) as nat),
        },
{
    assert(0 <= w * h <= w * h * 4) by (nonlinear_arith);
    assert(0 <= w * h * 4) by (nonlinear_arith);
    let expected: usize = w as usize * h as usize * 4;
    if src.len() < expected {
        let have = decimal_string(src.len() as u64);
        let want = decimal_string(expected as u64);
        let front = concat3("short readback: ", have.as_str(), " < ");
        return Err(crate::text::concat2(front.as_str(), want.as_str()));
    }
    let mut out: Vec<u8> = Vec::new();
    let mut i: usize = 0;
    while i < expected
        invariant
            i <= expected <= src@.len(),
            out@ == src@.take(i as int),
        decreases expected - i,
    {
        out.push(src[i]);
        i += 1;
    }
    Ok(out)
}

/// What a stream is told before a frame.
#[derive(Clone, Copy, Debug, PartialEq, Eq, Structural)]
pub enum Prelude {
    Nothing,
    /// The stream begins, with this size.
    Ready { width: u32, height: u32 },
    /// The output has this size now.
    Resize { width: u32, height: u32 },
}

/// A frame for one connection: the regions to read back and send.
#[derive(Debug)]
pub struct CapturePlan {
    pub prelude: Prelude,
    pub regions: Vec<Rect>,
    pub seq: u32,
}

/// Whether a connection needs the whole picture: its stream has not begun, or
/// the output has another size.
pub open spec fn needs_full(sub: CaptureSub, w: u32, h: u32) -> bool {
    !sub.sent_ready || sub.last_size != (w, h)
}

/// The regions of a frame: the whole picture, or what was damaged on it.
pub open spec fn frame_regions(
    sub: CaptureSub,
    w: u32,
    h: u32,
    damage: Option<Seq<Rect>>,
) -> Seq<Rect> {
    if needs_full(sub, w, h) {
        seq![Rect { loc: Point { x: 0, y: 0 }, size: Size { w: w as i32, h: h as i32 } }]
    } else {
        match damage {
            Some(rects) => crate::seqs::picked(
                rects,
                |r: Rect| clamped(r, w as int, h as int),
            ),
            None => Seq::empty(),
        }
    }
}

/// What a connection is told before a frame.
pub open spec fn prelude_of(sub: CaptureSub, w: u32, h: u32) -> Prelude {
    if !sub.sent_ready {
        Prelude::Ready { width: w, height: h }
    } else if sub.last_size != (w, h) {
        Prelude::Resize { width: w, height: h }
    } else {
        Prelude::Nothing
    }
}

/// The number behind `seq`; after the greatest comes zero.
pub open spec fn next_seq(seq: u32) -> u32 {
    if seq == u32::MAX {
        0
    } else {
        (seq + 1) as u32
    }
}

/// The rectangles of a damage list.
pub open spec fn damage_view(damage: Option<Vec<Rect>>) -> Option<Seq<Rect>> {
    match damage {
        Some(v) => Some(v@),
        None => None,
    }
}

/// Whether no rectangle of a damage list runs over.
pub open spec fn damage_fits(damage: Option<Vec<Rect>>) -> bool {
    damage matches Some(v) ==> forall|i: int| 0 <= i < v@.len() ==> (#[trigger] v@[i]).fits()
}

impl CaptureSub {
    /// What is known of a connection once a frame has gone out to it.
    pub open spec fn after_frame(self, size: (u32, u32), seq: u32) -> CaptureSub {
        CaptureSub { sent_ready: true, last_size: size, seq, ..self }
    }

    /// The next frame for a connection, of an output with the given size; none
    /// where nothing has changed.
    pub fn plan(&self, w: u32, h: u32, damage: &Option<Vec<Rect>>) -> (r: Option<CapturePlan>)
        requires
            w <= i32::MAX,
            h <= i32::MAX,
            damage_fits(*damage),
        ensures
            match r {
                Some(p) => {
                    &&& p.regions@ == frame_regions(*self, w, h, damage_view(*damage))
                    &&& p.regions@.len() > 0
                    &&& p.prelude == prelude_of(*self, w, h)
                    &&& p.seq == next_seq(self.seq)
                },
                None => frame_regions(*self, w, h, damage_view(*damage)).len() == 0,
            },
    {
        let size_changed = self.sent_ready && !(self.last_size.0 == w && self.last_size.1 == h);
        let need_full = !self.sent_ready || size_changed;
        assert(need_full == needs_full(*self, w, h));
        let regions: Vec<Rect> = if need_full {
            let mut v: Vec<Rect> = Vec::new();
            v.push(rect(0, 0, w as i32, h as i32));
            assert(v@ =~= frame_regions(*self, w, h, damage_view(*damage)));
            v
        } else {
            match damage {
                Some(rects) => {
                    let pick = |r: &Rect| -> (c: Option<Rect>)
                        requires
                            r.fits(),
                        ensures
                            c == clamped(*r, w as int, h as int),
                        { clamp_to_buffer(*r, w as i32, h as i32) };
                    pick_map(rects, pick, Ghost(|r: Rect| clamped(r, w as int, h as int)))
                },
                None => Vec::new(),
            }
        };
        if regions.len() == 0 {
            return None;
        }
        let prelude = if !self.sent_ready {
            Prelude::Ready { width: w, height: h }
        } else if size_changed {
            Prelude::Resize { width: w, height: h }
        } else {
            Prelude::Nothing
        };
        Some(CapturePlan { prelude, regions, seq: self.seq.wrapping_add(1) })
    }

    /// A frame was sent.
    pub fn sent(&mut self, w: u32, h: u32, seq: u32)
        ensures
            *final(self) == old(self).after_frame((w, h), seq),
    {
        self.sent_ready = true;
        self.last_size = (w, h);
        self.seq = seq;
    }
}

impl Client {
    /// Whether the connection watches an output.
    pub open spec fn watches(self, output: Seq<char>) -> bool {
        self.capture_sub matches Some(s) && s.output_name@ == output
    }

    /// The success of a request to watch an output was written, or could not be.
    /// The result tells whether to close the connection.
    pub fn joined_capture(&mut self, written: bool, output_name: String) -> (close: bool)
        ensures
            close == !written,
            !written ==> *final(self) == *old(self),
            written ==> {
                &&& *final(self) == (Client {
                    capture_sub: final(self).capture_sub,
                    spent: true,
                    ..*old(self)
                })
                &&& final(self).capture_sub matches Some(s)
                &&& s.output_name == output_name
                &&& s.seq == 0
                &&& !s.sent_ready
                &&& s.last_size == (0u32, 0u32)
            },
    {
        if !written {
            return true;
        }
        self.capture_sub = Some(CaptureSub::new(output_name));
        self.spent = true;
        false
    }
}

impl Server {
    /// The connections that watch any output, in order.
    pub fn all_capture_subscribers(&self) -> (r: Vec<ClientId>)
        ensures
            r@ == crate::seqs::picked(self.clients@, any_watcher()),
    {
        let pick = |e: &(ClientId, Client)| -> (id: Option<ClientId>)
            ensures
                id == any_watcher()(*e),
            {
                if e.1.capture_sub.is_some() {
                    Some(e.0)
                } else {
                    None
                }
            };
        pick_map(&self.clients, pick, Ghost(any_watcher()))
    }
}

/// What a frame that went out changes of a connection: what it was told of.
pub open spec fn frame_noted(
    before: (ClientId, Client),
    after: (ClientId, Client),
    id: ClientId,
    size: (u32, u32),
    seq: u32,
) -> bool {
    if before.0 == id && before.1.capture_sub is Some {
        &&& after.0 == before.0
        &&& after.1 == (Client { capture_sub: after.1.capture_sub, ..before.1 })
        &&& after.1.capture_sub matches Some(s)
        &&& s == before.1.capture_sub->0.after_frame(size, seq)
    } else {
        after == before
    }
}

impl Server {
    fn note_frame(&mut self, id: ClientId, w: u32, h: u32, seq: u32)
        requires
            old(self).wf(),
        ensures
            final(self).wf(),
            final(self).next_id == old(self).next_id,
            final(self).clients@.len() == old(self).clients@.len(),
            forall|i: int|
                0 <= i < old(self).clients@.len() ==> #[trigger] frame_noted(
                    old(self).clients@[i],
                    final(self).clients@[i],
                    id,
                    (w, h),
                    seq,
                ),
    {
        let ghost before = self.clients@;
        let mut i: usize = 0;
        while i < self.clients.len()
            invariant
                i <= self.clients@.len(),
                old(self).wf(),
                before == old(self).clients@,
                self.next_id == old(self).next_id,
                self.clients@ == before,
                forall|j: int| 0 <= j < i ==> (#[trigger] before[j]).0 != id,
            decreases self.clients@.len() - i,
        {
            if self.clients[i].0 == id {
                let entry = &mut self.clients[i];
                if let Some(sub) = entry.1.capture_sub.take() {
                    let mut s = sub;
                    s.sent(w, h, seq);
                    entry.1.capture_sub = Some(s);
                }
                proof {
                    let after = self.clients@;
                    assert forall|j: int| 0 <= j < before.len() implies #[trigger] frame_noted(
                        before[j],
                        after[j],
                        id,
                        (w, h),
                        seq,
                    ) by {
                        if j != i {
                            if j < i {
                                assert(before[j].0 != before[i as int].0);
                            } else {
                                assert(before[i as int].0 != before[j].0);
                            }
                        }
                    }
                    assert forall|a: int, b: int| 0 <= a < b < after.len() implies (
                    #[trigger] after[a]).0 != (#[trigger] after[b]).0 by {
                        assert(before[a].0 != before[b].0);
                    }
                    assert forall|a: int| 0 <= a < after.len() implies (
                    #[trigger] after[a]).0.0 < self.next_id by {
                        assert(before[a].0.0 < old(self).next_id);
                    }
                }
                return ;
            }
            i += 1;
        }
    }
}

/// A connection that takes a frame is up to date: until something is damaged or
/// the size changes, nothing more goes to it.
pub proof fn law_idle_sends_nothing(sub: CaptureSub, w: u32, h: u32, seq: u32)
    ensures
        frame_regions(sub.after_frame((w, h), seq), w, h, None).len() == 0,
        frame_regions(sub.after_frame((w, h), seq), w, h, Some(Seq::empty())).len() == 0,
{
}

/// A frame that was painted: its size, and what was damaged.
pub struct PaintedFrame {
    pub w: u32,
    pub h: u32,
    pub damage: Option<Seq<Rect>>,
}

/// What is known of a connection after a frame was painted: where there is nothing
/// to send, what was known before.
pub open spec fn after_painted(sub: CaptureSub, f: PaintedFrame) -> CaptureSub {
    if frame_regions(sub, f.w, f.h, f.damage).len() == 0 {
        sub
    } else {
        sub.after_frame((f.w, f.h), next_seq(sub.seq))
    }
}

/// How many of the first `n` frames went out.
pub open spec fn sent_of(subs: Seq<CaptureSub>, frames: Seq<PaintedFrame>, n: int) -> int
    decreases n,
{
    if n <= 0 {
        0
    } else {
        let f = frames[n - 1];
        sent_of(subs, frames, n - 1) + if frame_regions(subs[n - 1], f.w, f.h, f.damage).len()
            > 0 {
            1int
        } else {
            0
        }
    }
}

/// A stream begins once: the first frame goes out whole, and no later one is told
/// to be the beginning. The frames that go out are numbered one by one.
pub proof fn law_stream_begins_once(subs: Seq<CaptureSub>, frames: Seq<PaintedFrame>, k: int)
    requires
        subs.len() == frames.len() + 1,
        !subs[0].sent_ready,
        subs[0].seq == 0,
        forall|i: int|
            #![trigger frames[i]]
            0 <= i < frames.len() ==> subs[i + 1] == after_painted(subs[i], frames[i]),
        0 <= k < frames.len(),
    ensures
        prelude_of(subs[k], frames[k].w, frames[k].h) is Ready <==> k == 0,
        k == 0 ==> frame_regions(subs[k], frames[k].w, frames[k].h, frames[k].damage) == seq![
            Rect {
                loc: Point { x: 0, y: 0 },
                size: Size { w: frames[k].w as i32, h: frames[k].h as i32 },
            },
        ],
        subs[k + 1].sent_ready,
        subs[k + 1].output_name == subs[0].output_name,
        subs[k + 1].seq as int == sent_of(subs, frames, k + 1) % 0x1_0000_0000,
    decreases k,
{
    assert(subs[k + 1] == after_painted(subs[k], frames[k]));
    if k > 0 {
        law_stream_begins_once(subs, frames, k - 1);
    } else {
        reveal_with_fuel(sent_of, 2);
    }
}

/// The identity of a connection that watches any output.
pub open spec fn any_watcher() -> spec_fn((ClientId, Client)) -> Option<ClientId> {
    |e: (ClientId, Client)|
        if e.1.capture_sub is Some {
            Some(e.0)
        } else {
            None
        }
}

/// A frame for a connection.
#[derive(Debug)]
pub struct CaptureFrame {
    pub client: ClientId,
    pub plan: CapturePlan,
}

/// Whether a frame goes to a connection: it watches the output, and something on
/// it has changed.
pub open spec fn frame_due(
    c: Client,
    output: Seq<char>,
    w: u32,
    h: u32,
    damage: Option<Seq<Rect>>,
) -> bool {
    c.watches(output) && frame_regions(c.capture_sub->0, w, h, damage).len() > 0
}

/// Whether a frame is the one for a connection.
pub open spec fn is_frame(
    e: (ClientId, Client),
    w: u32,
    h: u32,
    damage: Option<Seq<Rect>>,
    f: CaptureFrame,
) -> bool {
    let sub = e.1.capture_sub->0;
    &&& f.client == e.0
    &&& f.plan.regions@ == frame_regions(sub, w, h, damage)
    &&& f.plan.prelude == prelude_of(sub, w, h)
    &&& f.plan.seq == next_seq(sub.seq)
}

/// Whether frames are those for the connections, in order.
pub open spec fn are_frames(
    es: Seq<(ClientId, Client)>,
    w: u32,
    h: u32,
    damage: Option<Seq<Rect>>,
    fs: Seq<CaptureFrame>,
) -> bool {
    &&& es.len() == fs.len()
    &&& forall|i: int| 0 <= i < fs.len() ==> #[trigger] is_frame(es[i], w, h, damage, fs[i])
}

impl ShoestringWm {
    /// The frames that go out once an output was rendered with the given size and
    /// damage. None while capture is off.
    pub fn push_capture(
        &self,
        output: &str,
        mode: Option<(u32, u32)>,
        damage: &Option<Vec<Rect>>,
    ) -> (r: Vec<CaptureFrame>)
        requires
            mode matches Some(m) ==> m.0 <= i32::MAX && m.1 <= i32::MAX,
            damage_fits(*damage),
        ensures
            match (self.screen_capture_enabled, self.ipc, mode) {
                (true, Some(s), Some(m)) => are_frames(
                    s.clients@.filter(
                        |e: (ClientId, Client)|
                            frame_due(e.1, output@, m.0, m.1, damage_view(*damage)),
                    ),
                    m.0,
                    m.1,
                    damage_view(*damage),
                    r@,
                ),
                _ => r@.len() == 0,
            },
    {
        let mut r: Vec<CaptureFrame> = Vec::new();
        if !self.screen_capture_enabled {
            return r;
        }
        let server = match &self.ipc {
            Some(s) => s,
            None => return r,
        };
        let (w, h) = match mode {
            Some(m) => (m.0, m.1),
            None => return r,
        };
        let ghost all = server.clients@;
        let ghost d = damage_view(*damage);
        let ghost p = |e: (ClientId, Client)| frame_due(e.1, output@, w, h, d);
        let mut i: usize = 0;
        assert(all.take(0).filter(p) =~= Seq::empty()) by {
            reveal(Seq::filter);
        }
        while i < server.clients.len()
            invariant
                i <= all.len(),
                all == server.clients@,
                w <= i32::MAX,
                h <= i32::MAX,
                damage_fits(*damage),
                d == damage_view(*damage),
                p == (|e: (ClientId, Client)| frame_due(e.1, output@, w, h, d)),
                are_frames(all.take(i as int).filter(p), w, h, d, r@),
            decreases all.len() - i,
        {
            let ghost es = all.take(i as int).filter(p);
            let ghost fs = r@;
            proof {
                reveal(Seq::filter);
                assert(all.take(i + 1).drop_last() =~= all.take(i as int));
                assert(all.take(i + 1).last() == all[i as int]);
            }
            if let Some(sub) = &server.clients[i].1.capture_sub {
                if str_eq(sub.output_name.as_str(), output) {
                    if let Some(plan) = sub.plan(w, h, damage) {
                        let f = CaptureFrame { client: server.clients[i].0, plan };
                        assert(is_frame(all[i as int], w, h, d, f));
                        r.push(f);
                        assert forall|k: int| 0 <= k < r@.len() implies #[trigger] is_frame(
                            es.push(all[i as int])[k],
                            w,
                            h,
                            d,
                            r@[k],
                        ) by {
                            if k < fs.len() {
                                assert(is_frame(es[k], w, h, d, fs[k]));
                            }
                        }
                    }
                }
            }
            i += 1;
        }
        assert(all.take(i as int) =~= all);
        r
    }

    /// A frame was written to a connection, or could not be. A connection that
    /// could not take it is dropped: half a frame cannot be made whole. The
    /// result tells whether the frame went out.
    pub fn capture_written(&mut self, id: ClientId, w: u32, h: u32, seq: u32, written: bool) -> (r:
        bool)
        requires
            old(self).ipc matches Some(s) ==> s.wf(),
        ensures
            r == written,
            !written ==> crate::ipc::hung_up(*old(self), id, *final(self)),
            written ==> *final(self) == (ShoestringWm { ipc: final(self).ipc, ..*old(self) }),
            written ==> match (old(self).ipc, final(self).ipc) {
                (Some(a), Some(b)) => {
                    &&& b.wf()
                    &&& b.next_id == a.next_id
                    &&& b.clients@.len() == a.clients@.len()
                    &&& forall|i: int|
                        0 <= i < a.clients@.len() ==> #[trigger] frame_noted(
                            a.clients@[i],
                            b.clients@[i],
                            id,
                            (w, h),
                            seq,
                        )
                },
                (None, None) => true,
                _ => false,
            },
    {
        if !written {
            self.drop_ipc_client(id);
            return false;
        }
        match self.ipc.take() {
            Some(s) => {
                let mut server = s;
                server.note_frame(id, w, h, seq);
                self.ipc = Some(server);
            },
            None => {},
        }
        true
    }

    /// Capture is over: the connections that were watching are dropped. They are
    /// listed, so that each can be told.
    pub fn teardown_capture_subscribers(&mut self) -> (r: Vec<ClientId>)
        requires
            old(self).ipc matches Some(s) ==> s.wf(),
        ensures
            torn_down(*old(self), *final(self), r@),
    {
        let subs = match &self.ipc {
            Some(server) => server.all_capture_subscribers(),
            None => return Vec::new(),
        };
        let mut k: usize = 0;
        let ghost a = self.ipc->0;
        proof {
            lemma_any_watchers(a.clients@);
        }
        while k < subs.len()
            invariant
                k <= subs@.len(),
                old(self).ipc == Some(a),
                a.wf(),
                self.ipc matches Some(b) && b.wf() && b.next_id == a.next_id,
                subs@ == crate::seqs::picked(a.clients@, any_watcher()),
                forall|i: int|
                    0 <= i < a.clients@.len() ==> (subs@.contains((#[trigger] a.clients@[i]).0)
                        <==> a.clients@[i].1.capture_sub is Some),
                forall|e: (ClientId, Client)| #[trigger]
                    self.ipc->0.clients@.contains(e) ==> a.clients@.contains(e)
                        && !subs@.take(k as int).contains(e.0),
                forall|i: int|
                    0 <= i < a.clients@.len() && (#[trigger] a.clients@[i]).1.capture_sub is None
                        ==> self.ipc->0.clients@.contains(a.clients@[i]),
                *self == (ShoestringWm {
                    ipc: self.ipc,
                    pending_picker: self.pending_picker,
                    ..*old(self)
                }),
                self.pending_picker == (match old(self).pending_picker {
                    Some(p) => if subs@.take(k as int).contains(ClientId(p)) {
                        None
                    } else {
                        Some(p)
                    },
                    None => None,
                }),
            decreases subs@.len() - k,
        {
            let id = subs[k];
            let ghost before = self.ipc->0.clients@;
            self.drop_ipc_client(id);
            proof {
                let after = self.ipc->0.clients@;
                let keep = crate::ipc::other_than(id);
                assert(after == before.filter(keep));
                assert(subs@.take(k + 1) =~= subs@.take(k as int).push(id));
                assert forall|e: (ClientId, Client)| #[trigger] after.contains(e) implies
                    a.clients@.contains(e) && !subs@.take(k + 1).contains(e.0) by {
                    crate::seqs::lemma_filter_in(before, keep, e);
                    crate::seqs::lemma_push_contains(subs@.take(k as int), id, e.0);
                }
                assert forall|i: int|
                    0 <= i < a.clients@.len() && (
                    #[trigger] a.clients@[i]).1.capture_sub is None implies after.contains(
                    a.clients@[i],
                ) by {
                    let e = a.clients@[i];
                    assert(subs@.contains(id)) by {
                        assert(subs@[k as int] == id);
                    }
                    assert(!subs@.contains(e.0));
                    assert(before.contains(e));
                    crate::seqs::lemma_filter_in(before, keep, e);
                }
                if let Some(p) = old(self).pending_picker {
                    crate::seqs::lemma_push_contains(subs@.take(k as int), id, ClientId(p));
                }
            }
            k += 1;
        }
        proof {
            assert(subs@.take(k as int) =~= subs@);
            let b = self.ipc->0;
            assert forall|i: int| 0 <= i < b.clients@.len() implies (
            #[trigger] b.clients@[i]).1.capture_sub is None by {
                let e = b.clients@[i];
                assert(b.clients@.contains(e));
                let j = choose|j: int| 0 <= j < a.clients@.len() && a.clients@[j] == e;
                assert(a.clients@[j].0 == e.0);
            }
        }
        subs
    }
}

/// What ending every capture stream leaves: the connections that were watching
/// are gone, and with them a window picker of theirs. All others stay.
pub open spec fn torn_down(
    before: ShoestringWm,
    after: ShoestringWm,
    told: Seq<ClientId>,
) -> bool {
    &&& match (before.ipc, after.ipc) {
        (Some(a), Some(b)) => {
            &&& b.wf()
            &&& b.next_id == a.next_id
            &&& told == crate::seqs::picked(a.clients@, any_watcher())
            &&& forall|i: int|
                0 <= i < b.clients@.len() ==> (#[trigger] b.clients@[i]).1.capture_sub is None
            &&& forall|i: int|
                0 <= i < a.clients@.len() && (#[trigger] a.clients@[i]).1.capture_sub is None
                    ==> b.clients@.contains(a.clients@[i])
            &&& forall|e: (ClientId, Client)| #[trigger]
                b.clients@.contains(e) ==> a.clients@.contains(e)
        },
        (None, None) => told.len() == 0,
        _ => false,
    }
    &&& after == (ShoestringWm {
        ipc: after.ipc,
        pending_picker: after.pending_picker,
        ..before
    })
    &&& after.pending_picker == (match before.pending_picker {
        Some(p) => if told.contains(ClientId(p)) {
            None
        } else {
            Some(p)
        },
        None => None,
    })
}

/// What setting the capture gate leaves: a gate that is closed ends every stream.
pub open spec fn gate_set(
    before: ShoestringWm,
    enabled: bool,
    after: ShoestringWm,
    told: Seq<ClientId>,
    stopped: Seq<u64>,
) -> bool {
    let set = ShoestringWm {
        screen_capture_enabled: enabled,
        ext_screencopy: after.ext_screencopy,
        ..before
    };
    if enabled {
        &&& after == set
        &&& after.ext_screencopy == before.ext_screencopy
        &&& told.len() == 0
        &&& stopped.len() == 0
    } else {
        &&& torn_down(set, after, told)
        &&& stopped == before.ext_screencopy.sessions@
        &&& after.ext_screencopy.sessions@.len() == 0
        &&& after.ext_screencopy.pending == before.ext_screencopy.pending
    }
}

/// Capture never outlives consent: once it is switched off nobody watches an
/// output and no capture session goes on, and every connection that watched and
/// every session that ran is told.
pub proof fn law_capture_ends_with_consent(
    before: ShoestringWm,
    after: ShoestringWm,
    told: Seq<ClientId>,
    stopped: Seq<u64>,
    server: Server,
    i: int,
)
    requires
        gate_set(before, false, after, told, stopped),
        before.ipc == Some(server),
        server.wf(),
        0 <= i < server.clients@.len(),
    ensures
        !after.screen_capture_enabled,
        after.ipc matches Some(s) && forall|j: int|
            0 <= j < s.clients@.len() ==> (#[trigger] s.clients@[j]).1.capture_sub is None,
        told.contains(server.clients@[i].0) <==> server.clients@[i].1.capture_sub is Some,
        after.ext_screencopy.sessions@.len() == 0,
        stopped == before.ext_screencopy.sessions@,
{
    lemma_any_watchers(server.clients@);
}

/// With different identities, a connection is among the watchers exactly where
/// it watches.
proof fn lemma_any_watchers(s: Seq<(ClientId, Client)>)
    requires
        forall|i: int, j: int|
            0 <= i < j < s.len() ==> (#[trigger] s[i]).0 != (#[trigger] s[j]).0,
    ensures
        forall|i: int|
            0 <= i < s.len() ==> (crate::seqs::picked(s, any_watcher()).contains(
                (#[trigger] s[i]).0,
            ) <==> s[i].1.capture_sub is Some),
        forall|c: ClientId| #[trigger]
            crate::seqs::picked(s, any_watcher()).contains(c) ==> exists|i: int|
                0 <= i < s.len() && (#[trigger] s[i]).0 == c,
    decreases s.len(),
{
    let w = any_watcher();
    let r = crate::seqs::picked(s, w);
    if s.len() > 0 {
        let t = s.drop_last();
        let l = s.last();
        lemma_any_watchers(t);
        let q = crate::seqs::picked(t, w);
        assert forall|c: ClientId| #[trigger] r.contains(c) implies exists|i: int|
            0 <= i < s.len() && (#[trigger] s[i]).0 == c by {
            if w(l) is Some {
                crate::seqs::lemma_push_contains(q, l.0, c);
            }
            if q.contains(c) {
                let i = choose|i: int| 0 <= i < t.len() && (#[trigger] t[i]).0 == c;
                assert(s[i].0 == c);
            } else {
                assert(s[s.len() - 1].0 == c);
            }
        }
        assert forall|i: int| 0 <= i < s.len() implies (r.contains((#[trigger] s[i]).0)
            <==> s[i].1.capture_sub is Some) by {
            if w(l) is Some {
                crate::seqs::lemma_push_contains(q, l.0, s[i].0);
            }
            if i < t.len() {
                assert(t[i] == s[i]);
                assert(s[i].0 != s[s.len() - 1].0);
            } else {
                if q.contains(l.0) {
                    let j = choose|j: int| 0 <= j < t.len() && (#[trigger] t[j]).0 == l.0;
                    assert(s[j].0 != s[s.len() - 1].0);
                }
            }
        }
    }
}

/// A connection that is up to date with an output's size is sent what was damaged:
/// each point of the picture that lies in a damaged rectangle lies in a region of the
/// frame, and each point of a region is one of the picture that was damaged.
pub proof fn law_damage_goes_out(
    sub: CaptureSub,
    w: u32,
    h: u32,
    rects: Seq<Rect>,
    x: int,
    y: int,
)
    requires
        sub.sent_ready,
        sub.last_size == (w, h),
        w <= i32::MAX,
        h <= i32::MAX,
        forall|i: int| 0 <= i < rects.len() ==> (#[trigger] rects[i]).fits(),
    ensures
        (exists|k: int|
            0 <= k < frame_regions(sub, w, h, Some(rects)).len() && (#[trigger] frame_regions(
                sub,
                w,
                h,
                Some(rects),
            )[k]).holds(x, y)) <==> 0 <= x < w && 0 <= y < h && exists|i: int|
            0 <= i < rects.len() && (#[trigger] rects[i]).holds(x, y),
{
    let f = |r: Rect| clamped(r, w as int, h as int);
    let regions = frame_regions(sub, w, h, Some(rects));
    assert(regions == crate::seqs::picked(rects, f));
    if exists|k: int| 0 <= k < regions.len() && (#[trigger] regions[k]).holds(x, y) {
        let k = choose|k: int| 0 <= k < regions.len() && (#[trigger] regions[k]).holds(x, y);
        assert(regions.contains(regions[k]));
        crate::seqs::law_picked_members(rects, f, regions[k]);
        let i = choose|i: int| 0 <= i < rects.len() && f(#[trigger] rects[i]) == Some(regions[k]);
        law_clamp_keeps_common(rects[i], w as int, h as int, x, y);
        assert(rects[i].holds(x, y));
    }
    if 0 <= x < w && 0 <= y < h && exists|i: int|
        0 <= i < rects.len() && (#[trigger] rects[i]).holds(x, y) {
        let i = choose|i: int| 0 <= i < rects.len() && (#[trigger] rects[i]).holds(x, y);
        law_clamp_keeps_common(rects[i], w as int, h as int, x, y);
        assert(f(rects[i]) is Some);
        crate::seqs::law_picked_members(rects, f, f(rects[i])->0);
        assert(f(rects[i]) == Some(f(rects[i])->0));
        let k = choose|k: int| 0 <= k < regions.len() && regions[k] == f(rects[i])->0;
        assert(regions[k].holds(x, y));
    }
}

/// A connection whose stream has not begun, or whose output has another size now, is
/// sent the whole picture and is told so first, with the size; any other is told
/// nothing before a frame, and without damage gets none.
pub proof fn law_whole_picture_when(sub: CaptureSub, w: u32, h: u32, damage: Option<Seq<Rect>>)
    ensures
        !sub.sent_ready || sub.last_size.0 != w || sub.last_size.1 != h ==> {
            let r = frame_regions(sub, w, h, damage);
            r.len() == 1 && r[0].loc.x == 0 && r[0].loc.y == 0 && r[0].size.w == w as i32
                && r[0].size.h == h as i32
        },
        !sub.sent_ready ==> prelude_of(sub, w, h) == (Prelude::Ready { width: w, height: h }),
        sub.sent_ready && (sub.last_size.0 != w || sub.last_size.1 != h) ==> prelude_of(sub, w, h)
            == (Prelude::Resize { width: w, height: h }),
        sub.sent_ready && sub.last_size == (w, h) ==> prelude_of(sub, w, h) == Prelude::Nothing && (
        damage is None ==> frame_regions(sub, w, h, damage).len() == 0),
        sub.seq < u32::MAX ==> next_seq(sub.seq) == sub.seq + 1,
        next_seq(u32::MAX) == 0,
{
}

/// A frame goes to the connections that watch its output and to no other; to one whose
/// stream has not begun it always goes.
pub proof fn law_frame_goes_to_watchers(
    c: Client,
    output: Seq<char>,
    w: u32,
    h: u32,
    damage: Option<Seq<Rect>>,
)
    ensures
        c.capture_sub is None ==> !frame_due(c, output, w, h, damage),
        c.capture_sub matches Some(s) ==> {
            &&& s.output_name@ != output ==> !frame_due(c, output, w, h, damage)
            &&& s.output_name@ == output && !s.sent_ready ==> frame_due(c, output, w, h, damage)
            &&& s.output_name@ == output && s.last_size != (w, h) ==> frame_due(
                c,
                output,
                w,
                h,
                damage,
            )
        },
{
}

/// A frame that went out is noted of its own connection alone: that its stream has
/// begun, the size and the number. What it watches stays.
pub proof fn law_frame_noted_of_one(
    before: (ClientId, Client),
    after: (ClientId, Client),
    id: ClientId,
    size: (u32, u32),
    seq: u32,
)
    requires
        frame_noted(before, after, id, size, seq),
    ensures
        before.0 != id ==> after == before,
        after.0 == before.0,
        before.1.capture_sub is None ==> after == before,
        before.0 == id && before.1.capture_sub is Some ==> after.1.capture_sub == Some(
            CaptureSub {
                output_name: before.1.capture_sub->0.output_name,
                seq,
                sent_ready: true,
                last_size: size,
            },
        ),
{
}

/// Switching capture on ends no stream and tells nobody; it only allows capture.
pub proof fn law_gate_opens(
    before: ShoestringWm,
    after: ShoestringWm,
    told: Seq<ClientId>,
    stopped: Seq<u64>,
)
    requires
        gate_set(before, true, after, told, stopped),
    ensures
        after.screen_capture_enabled,
        after.ipc == before.ipc,
        after.pending_picker == before.pending_picker,
        after.ext_screencopy == before.ext_screencopy,
        told.len() == 0 && stopped.len() == 0,
{
}

/// Each frame goes to its own connection, in order, with the regions, the words before
/// it and the number that are due to that one.
pub proof fn law_frames_are_their_own(
    es: Seq<(ClientId, Client)>,
    w: u32,
    h: u32,
    damage: Option<Seq<Rect>>,
    fs: Seq<CaptureFrame>,
    i: int,
)
    requires
        are_frames(es, w, h, damage, fs),
        0 <= i < es.len(),
        es[i].1.capture_sub is Some,
    ensures
        fs.len() == es.len(),
        fs[i].client == es[i].0,
        fs[i].plan.regions@ == frame_regions(es[i].1.capture_sub->0, w, h, damage),
        fs[i].plan.prelude == prelude_of(es[i].1.capture_sub->0, w, h),
        fs[i].plan.seq == next_seq(es[i].1.capture_sub->0.seq),
{
    assert(is_frame(es[i], w, h, damage, fs[i]));
}

/// Setting the permission to capture changes nothing but the permission and, where it is
/// taken back, the streams and sessions that end, with a window picker of theirs.
pub proof fn law_permission_changes_little(
    before: ShoestringWm,
    enabled: bool,
    after: ShoestringWm,
    told: Seq<ClientId>,
    stopped: Seq<u64>,
)
    requires
        gate_set(before, enabled, after, told, stopped),
    ensures
        after == (ShoestringWm {
            screen_capture_enabled: enabled,
            ipc: after.ipc,
            pending_picker: after.pending_picker,
            ext_screencopy: after.ext_screencopy,
            ..before
        }),
        after.ext_screencopy.pending == before.ext_screencopy.pending,
        before.ipc is Some <==> after.ipc is Some,
        before.ipc is None && !enabled ==> told.len() == 0,
        before.pending_picker matches Some(p) ==> (after.pending_picker is None <==> told.contains(
            ClientId(p),
        )),
        after.pending_picker is Some ==> after.pending_picker == before.pending_picker,
{
}

} // verus!
