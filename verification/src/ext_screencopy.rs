//! Capturing whole outputs into clients' buffers: which frames wait for an
//! output, and how a pass over them goes.

use vstd::prelude::*;

use crate::geometry::rect;
use crate::geometry::Point;
use crate::geometry::Rect;
use crate::geometry::Size;
use crate::layout::contains_id;
use crate::seqs::copy_vec;
use crate::seqs::retain;
use crate::state::ShoestringWm;

verus! {

/// A frame that waits for the next rendering of its output.
#[derive(Clone, Copy, Debug, PartialEq, Eq, Structural)]
pub struct PendingExtFrame {
    pub frame: u64,
    pub output: u64,
}

/// The capture sessions and the frames that wait.
#[derive(Debug)]
pub struct ExtScreencopyState {
    pub sessions: Vec<u64>,
    pub pending: Vec<PendingExtFrame>,
}

/// Why a frame has failed.
#[derive(Clone, Copy, Debug, PartialEq, Eq, Structural)]
pub enum CaptureFailureReason {
    Unknown,
    Stopped,
}

/// What becomes of a frame that a client asks for.
#[derive(Clone, Copy, Debug, PartialEq, Eq, Structural)]
pub enum FrameFate {
    Fail(CaptureFailureReason),
    /// It waits for its output, which is to be rendered.
    Queued { output: u64 },
}

/// The end of a frame: success, or failure for an unknown reason.
#[derive(Clone, Copy, Debug, PartialEq, Eq, Structural)]
pub struct Verdict {
    pub frame: u64,
    pub success: bool,
}

/// How far a pass has come.
#[derive(Clone, Copy, Debug, PartialEq, Eq, Structural)]
pub enum Phase {
    /// Painting into buffers of the graphics card.
    Paint,
    Create,
    Bind,
    Render,
    Rebind,
    /// Copying into buffers in memory.
    Copy,
    Done,
}

/// What is to be done next.
#[derive(Clone, Copy, Debug, PartialEq, Eq, Structural)]
pub enum Step {
    /// Paint the scene into the frame's buffer.
    Paint { frame: u64 },
    /// Make a picture off the screen.
    Create { size: Size },
    /// Make it the target of rendering.
    Bind,
    /// Paint the scene into it.
    Render,
    /// Make it the source of copying.
    Rebind,
    /// Copy the region into the frame's buffer.
    Copy { frame: u64, region: Rect, stride: i32 },
    Done,
}

/// A pass over the frames of one output. Those with a buffer of the graphics
/// card are painted one by one; for the others the scene is painted once, and
/// copied.
#[derive(Debug)]
pub struct CapturePass {
    pub size: Size,
    pub paint: Vec<u64>,
    pub copy: Vec<u64>,
    pub phase: Phase,
}

/// Frames that all end in the same way.
pub open spec fn all_end(frames: Seq<u64>, success: bool) -> Seq<Verdict> {
    frames.map_values(|f: u64| Verdict { frame: f, success })
}

/// The frames of some verdicts.
pub open spec fn verdict_frames(vs: Seq<Verdict>) -> Seq<u64> {
    vs.map_values(|v: Verdict| v.frame)
}

/// The frames that wait for an output, in order.
pub open spec fn frames_of(pending: Seq<PendingExtFrame>, output: u64) -> Seq<u64> {
    pending.filter(|p: PendingExtFrame| p.output == output).map_values(
        |p: PendingExtFrame| p.frame,
    )
}

fn fail_all(frames: &Vec<u64>) -> (r: Vec<Verdict>)
    ensures
        r@ == all_end(frames@, false),
{
    let mut r: Vec<Verdict> = Vec::new();
    let mut i: usize = 0;
    while i < frames.len()
        invariant
            i <= frames@.len(),
            r@ == all_end(frames@.take(i as int), false),
        decreases frames@.len() - i,
    {
        r.push(Verdict { frame: frames[i], success: false });
        i += 1;
        assert(r@ =~= all_end(frames@.take(i as int), false));
    }
    assert(frames@.take(i as int) =~= frames@);
    r
}

impl ExtScreencopyState {
    /// No sessions and no frames.
    pub fn new() -> (r: Self)
        ensures
            r.sessions@.len() == 0,
            r.pending@.len() == 0,
    {
        ExtScreencopyState { sessions: Vec::new(), pending: Vec::new() }
    }

    /// Takes off the frames that wait for an output.
    fn take_frames(&mut self, output: u64) -> (r: Vec<u64>)
        ensures
            r@ == frames_of(old(self).pending@, output),
            final(self).pending@ == old(self).pending@.filter(
                |p: PendingExtFrame| p.output != output,
            ),
            final(self).sessions == old(self).sessions,
    {
        let ghost all = self.pending@;
        let ghost ours = |p: PendingExtFrame| p.output == output;
        let ghost frame = |p: PendingExtFrame| p.frame;
        let mut r: Vec<u64> = Vec::new();
        let mut i: usize = 0;
        assert(all.take(0).filter(ours).map_values(frame) =~= Seq::empty()) by {
            reveal(Seq::filter);
        }
        while i < self.pending.len()
            invariant
                i <= all.len(),
                all == self.pending@,
                self.sessions == old(self).sessions,
                ours == (|p: PendingExtFrame| p.output == output),
                frame == (|p: PendingExtFrame| p.frame),
                r@ == all.take(i as int).filter(ours).map_values(frame),
            decreases all.len() - i,
        {
            proof {
                reveal(Seq::filter);
                assert(all.take(i + 1).drop_last() =~= all.take(i as int));
                assert(all.take(i + 1).last() == all[i as int]);
            }
            if self.pending[i].output == output {
                r.push(self.pending[i].frame);
                assert(r@ =~= all.take(i + 1).filter(ours).map_values(frame));
            }
            i += 1;
        }
        assert(all.take(i as int) =~= all);
        let keep = |p: &PendingExtFrame| -> (b: bool)
            ensures
                b == (p.output != output),
            { p.output != output };
        retain(&mut self.pending, keep, Ghost(|p: PendingExtFrame| p.output != output));
        r
    }

    /// Begins a pass over the frames that wait for an output; the others go on
    /// waiting. `cards` are the frames with a buffer of the graphics card.
    /// Without a mode all the frames fail.
    pub fn process_pending(&mut self, output: u64, mode: Option<Size>, cards: &Vec<u64>) -> (r: (
        Vec<Verdict>,
        CapturePass,
    ))
        requires
            mode matches Some(s) ==> 0 <= s.w <= i32::MAX / 4,
        ensures
            final(self).sessions == old(self).sessions,
            final(self).pending@ == old(self).pending@.filter(
                |p: PendingExtFrame| p.output != output,
            ),
            r.1.wf(),
            ({
                let all = frames_of(old(self).pending@, output);
                match mode {
                    None => {
                        &&& r.0@ == all_end(all, false)
                        &&& r.1.phase == Phase::Done
                    },
                    Some(size) => {
                        &&& r.0@.len() == 0
                        &&& r.1.size == size
                        &&& r.1.paint@ == all.filter(|f: u64| cards@.contains(f))
                        &&& r.1.copy@ == all.filter(|f: u64| !cards@.contains(f))
                        &&& r.1.phase == first_phase(r.1.paint@, r.1.copy@)
                    },
                }
            }),
    {
        let frames = self.take_frames(output);
        match mode {
            None => {
                let failed = fail_all(&frames);
                (
                    failed,
                    CapturePass {
                        size: Size { w: 0, h: 0 },
                        paint: Vec::new(),
                        copy: Vec::new(),
                        phase: Phase::Done,
                    },
                )
            },
            Some(size) => {
                let mut paint = copy_vec(&frames);
                let mut copy = frames;
                let on_card = |f: &u64| -> (b: bool)
                    ensures
                        b == cards@.contains(*f),
                    { contains_id(cards, *f) };
                let in_memory = |f: &u64| -> (b: bool)
                    ensures
                        b == !cards@.contains(*f),
                    { !contains_id(cards, *f) };
                retain(&mut paint, on_card, Ghost(|f: u64| cards@.contains(f)));
                retain(&mut copy, in_memory, Ghost(|f: u64| !cards@.contains(f)));
                let phase = if paint.len() > 0 {
                    Phase::Paint
                } else if copy.len() > 0 {
                    Phase::Create
                } else {
                    Phase::Done
                };
                (Vec::new(), CapturePass { size, paint, copy, phase })
            },
        }
    }
}

/// Where a pass begins, or goes on once a frame is painted.
pub open spec fn first_phase(paint: Seq<u64>, copy: Seq<u64>) -> Phase {
    if paint.len() > 0 {
        Phase::Paint
    } else if copy.len() > 0 {
        Phase::Create
    } else {
        Phase::Done
    }
}

/// The phase behind one that has gone well.
pub open spec fn next_phase(phase: Phase) -> Phase {
    match phase {
        Phase::Create => Phase::Bind,
        Phase::Bind => Phase::Render,
        Phase::Render => Phase::Rebind,
        Phase::Rebind => Phase::Copy,
        other => other,
    }
}

impl CapturePass {
    /// Whether the phase fits the frames that are left.
    pub open spec fn wf(self) -> bool {
        &&& 0 <= self.size.w <= i32::MAX / 4
        &&& match self.phase {
            Phase::Paint => self.paint@.len() > 0,
            Phase::Done => self.paint@.len() == 0 && self.copy@.len() == 0,
            _ => self.paint@.len() == 0 && self.copy@.len() > 0,
        }
    }

    /// The frames without a verdict, in the order in which they get one.
    pub open spec fn left(self) -> Seq<u64> {
        self.paint@ + self.copy@
    }

    /// What is to be done next.
    pub fn step(&self) -> (r: Step)
        requires
            self.wf(),
        ensures
            r == (match self.phase {
                Phase::Paint => Step::Paint { frame: self.paint@[0] },
                Phase::Create => Step::Create { size: self.size },
                Phase::Bind => Step::Bind,
                Phase::Render => Step::Render,
                Phase::Rebind => Step::Rebind,
                Phase::Copy => Step::Copy {
                    frame: self.copy@[0],
                    region: Rect { loc: Point { x: 0, y: 0 }, size: self.size },
                    stride: (self.size.w * 4) as i32,
                },
                Phase::Done => Step::Done,
            }),
    {
        match self.phase {
            Phase::Paint => Step::Paint { frame: self.paint[0] },
            Phase::Create => Step::Create { size: self.size },
            Phase::Bind => Step::Bind,
            Phase::Render => Step::Render,
            Phase::Rebind => Step::Rebind,
            Phase::Copy => Step::Copy {
                frame: self.copy[0],
                region: rect(0, 0, self.size.w, self.size.h),
                stride: self.size.w * 4,
            },
            Phase::Done => Step::Done,
        }
    }

    /// A step was done, or has failed. A frame that was painted or copied gets
    /// its verdict. Where the picture off the screen fails, so do all the frames
    /// that were to be copied from it.
    pub fn report(&mut self, success: bool) -> (r: Vec<Verdict>)
        requires
            old(self).wf(),
        ensures
            final(self).wf(),
            final(self).size == old(self).size,
            match old(self).phase {
                Phase::Paint => {
                    &&& r@ == seq![Verdict { frame: old(self).paint@[0], success }]
                    &&& final(self).paint@ == old(self).paint@.skip(1)
                    &&& final(self).copy@ == old(self).copy@
                    &&& final(self).phase == first_phase(final(self).paint@, final(self).copy@)
                },
                Phase::Copy => {
                    &&& r@ == seq![Verdict { frame: old(self).copy@[0], success }]
                    &&& final(self).paint@ == old(self).paint@
                    &&& final(self).copy@ == old(self).copy@.skip(1)
                    &&& final(self).phase == (if final(self).copy@.len() > 0 {
                        Phase::Copy
                    } else {
                        Phase::Done
                    })
                },
                Phase::Done => r@.len() == 0 && final(self).left() == old(self).left()
                    && final(self).phase == Phase::Done,
                _ => if success {
                    &&& r@.len() == 0
                    &&& final(self).paint@ == old(self).paint@
                    &&& final(self).copy@ == old(self).copy@
                    &&& final(self).phase == next_phase(old(self).phase)
                } else {
                    &&& r@ == all_end(old(self).copy@, false)
                    &&& final(self).left().len() == 0
                    &&& final(self).phase == Phase::Done
                },
            },
            verdict_frames(r@) + final(self).left() == old(self).left(),
    {
        let ghost paint = self.paint@;
        let ghost copy = self.copy@;
        match self.phase {
            Phase::Paint => {
                let frame = self.paint.remove(0);
                assert(self.paint@ =~= paint.skip(1));
                self.phase = if self.paint.len() > 0 {
                    Phase::Paint
                } else if self.copy.len() > 0 {
                    Phase::Create
                } else {
                    Phase::Done
                };
                let mut r: Vec<Verdict> = Vec::new();
                r.push(Verdict { frame, success });
                assert(r@ =~= seq![Verdict { frame: paint[0], success }]);
                assert(verdict_frames(r@) + self.left() =~= paint + copy);
                r
            },
            Phase::Copy => {
                let frame = self.copy.remove(0);
                assert(self.copy@ =~= copy.skip(1));
                if self.copy.len() == 0 {
                    self.phase = Phase::Done;
                }
                let mut r: Vec<Verdict> = Vec::new();
                r.push(Verdict { frame, success });
                assert(r@ =~= seq![Verdict { frame: copy[0], success }]);
                assert(verdict_frames(r@) + self.left() =~= paint + copy);
                r
            },
            Phase::Done => {
                let r: Vec<Verdict> = Vec::new();
                assert(verdict_frames(r@) + self.left() =~= paint + copy);
                r
            },
            phase => {
                if success {
                    self.phase = match phase {
                        Phase::Create => Phase::Bind,
                        Phase::Bind => Phase::Render,
                        Phase::Render => Phase::Rebind,
                        _ => Phase::Copy,
                    };
                    let r: Vec<Verdict> = Vec::new();
                    assert(verdict_frames(r@) + self.left() =~= paint + copy);
                    r
                } else {
                    let r = fail_all(&self.copy);
                    self.copy = Vec::new();
                    self.phase = Phase::Done;
                    assert(verdict_frames(r@) + self.left() =~= paint + copy);
                    r
                }
            },
        }
    }
}

/// What becomes of a frame: while capture is off it fails as stopped, without an
/// output it fails, otherwise it waits.
pub open spec fn frame_fate(enabled: bool, output: Option<u64>) -> FrameFate {
    if !enabled {
        FrameFate::Fail(CaptureFailureReason::Stopped)
    } else {
        match output {
            Some(o) => FrameFate::Queued { output: o },
            None => FrameFate::Fail(CaptureFailureReason::Unknown),
        }
    }
}

impl ShoestringWm {
    /// The output that a source may be captured from: none while capture is off.
    pub fn capture_constraints(&self, output: Option<u64>) -> (r: Option<u64>)
        ensures
            r == (if self.screen_capture_enabled {
                output
            } else {
                None
            }),
    {
        if !self.screen_capture_enabled {
            return None;
        }
        output
    }

    /// A capture session has begun.
    pub fn new_capture_session(&mut self, session: u64)
        ensures
            final(self).ext_screencopy.sessions@ == old(self).ext_screencopy.sessions@.push(
                session,
            ),
            final(self).ext_screencopy.pending == old(self).ext_screencopy.pending,
            *final(self) == (ShoestringWm {
                ext_screencopy: final(self).ext_screencopy,
                ..*old(self)
            }),
    {
        self.ext_screencopy.sessions.push(session);
    }

    /// A capture session is over.
    pub fn capture_session_destroyed(&mut self, session: u64)
        ensures
            final(self).ext_screencopy.sessions@ == old(self).ext_screencopy.sessions@.filter(
                |s: u64| s != session,
            ),
            final(self).ext_screencopy.pending == old(self).ext_screencopy.pending,
            *final(self) == (ShoestringWm {
                ext_screencopy: final(self).ext_screencopy,
                ..*old(self)
            }),
    {
        let keep = |s: &u64| -> (b: bool)
            ensures
                b == (*s != session),
            { *s != session };
        retain(&mut self.ext_screencopy.sessions, keep, Ghost(|s: u64| s != session));
    }

    /// A client asks for a frame of a session's output.
    pub fn capture_frame(&mut self, frame: u64, output: Option<u64>) -> (r: FrameFate)
        ensures
            r == frame_fate(old(self).screen_capture_enabled, output),
            final(self).ext_screencopy.pending@ == (match r {
                FrameFate::Queued { output: o } => old(self).ext_screencopy.pending@.push(
                    PendingExtFrame { frame, output: o },
                ),
                FrameFate::Fail(_) => old(self).ext_screencopy.pending@,
            }),
            final(self).ext_screencopy.sessions == old(self).ext_screencopy.sessions,
            *final(self) == (ShoestringWm {
                ext_screencopy: final(self).ext_screencopy,
                ..*old(self)
            }),
    {
        if !self.screen_capture_enabled {
            return FrameFate::Fail(CaptureFailureReason::Stopped);
        }
        match output {
            Some(o) => {
                self.ext_screencopy.pending.push(PendingExtFrame { frame, output: o });
                FrameFate::Queued { output: o }
            },
            None => FrameFate::Fail(CaptureFailureReason::Unknown),
        }
    }
}

/// The states of a pass, from its begin to its end, with what each step led to.
pub open spec fn is_run(lefts: Seq<Seq<u64>>, verdicts: Seq<Seq<u64>>) -> bool {
    &&& lefts.len() == verdicts.len() + 1
    &&& forall|i: int|
        0 <= i < verdicts.len() ==> #[trigger] verdicts[i] + lefts[i + 1] == lefts[i]
}

/// The verdicts of a run, one after the other.
pub open spec fn all_verdicts(verdicts: Seq<Seq<u64>>) -> Seq<u64>
    decreases verdicts.len(),
{
    if verdicts.len() == 0 {
        Seq::empty()
    } else {
        all_verdicts(verdicts.drop_last()) + verdicts.last()
    }
}

/// Whatever goes wrong on the way, a pass that has come to its end has given each
/// of its frames one verdict, in order.
pub proof fn law_each_frame_resolved_once(lefts: Seq<Seq<u64>>, verdicts: Seq<Seq<u64>>)
    requires
        is_run(lefts, verdicts),
    ensures
        all_verdicts(verdicts) + lefts.last() == lefts[0],
        lefts.last().len() == 0 ==> all_verdicts(verdicts) == lefts[0],
    decreases verdicts.len(),
{
    if verdicts.len() == 0 {
        assert(all_verdicts(verdicts) + lefts.last() =~= lefts[0]);
    } else {
        let n = verdicts.len() - 1;
        let vs = verdicts.drop_last();
        let ls = lefts.drop_last();
        assert forall|i: int| 0 <= i < vs.len() implies #[trigger] vs[i] + ls[i + 1] == ls[i] by {
            assert(verdicts[i] + lefts[i + 1] == lefts[i]);
        }
        law_each_frame_resolved_once(ls, vs);
        assert(verdicts[n] + lefts[n + 1] == lefts[n]);
        assert(ls.last() == lefts[n]);
        assert(all_verdicts(verdicts) + lefts.last() =~= all_verdicts(vs) + (verdicts[n]
            + lefts[n + 1]));
    }
    assert(lefts.last().len() == 0 ==> all_verdicts(verdicts) =~= lefts[0]);
}

/// The frames of a pass are those that wait for its output.
pub proof fn law_frames_of_the_output(pending: Seq<PendingExtFrame>, output: u64, frame: u64)
    ensures
        frames_of(pending, output).contains(frame) <==> exists|i: int|
            0 <= i < pending.len() && (#[trigger] pending[i]).output == output && pending[i].frame
                == frame,
{
    let p = |p: PendingExtFrame| p.output == output;
    let s = pending.filter(p);
    let e = PendingExtFrame { frame, output };
    crate::seqs::lemma_filter_in(pending, p, e);
    if frames_of(pending, output).contains(frame) {
        let k = choose|k: int|
            0 <= k < frames_of(pending, output).len() && frames_of(pending, output)[k] == frame;
        assert(s.contains(s[k]));
        crate::seqs::lemma_filter_in(pending, p, s[k]);
        assert(s[k] == e);
        let i = choose|i: int| 0 <= i < pending.len() && pending[i] == e;
        assert(pending[i].frame == frame);
    }
    if exists|i: int|
        0 <= i < pending.len() && (#[trigger] pending[i]).output == output && pending[i].frame
            == frame {
        let i = choose|i: int|
            0 <= i < pending.len() && (#[trigger] pending[i]).output == output && pending[i].frame
                == frame;
        assert(pending[i] == e);
        assert(pending.contains(e));
        let k = choose|k: int| 0 <= k < s.len() && s[k] == e;
        assert(frames_of(pending, output)[k] == frame);
    }
}

/// Frames that all end in the same way get one verdict each, in order.
pub proof fn law_all_end_alike(frames: Seq<u64>, success: bool, i: int)
    requires
        0 <= i < frames.len(),
    ensures
        all_end(frames, success).len() == frames.len(),
        all_end(frames, success)[i].frame == frames[i],
        all_end(frames, success)[i].success == success,
        verdict_frames(all_end(frames, success)) == frames,
{
    assert(verdict_frames(all_end(frames, success)) =~= frames);
}

/// A pass paints as long as there is something to paint, then makes a picture off the
/// screen for what there is to copy: it is made, bound, painted, bound again, and
/// copied from. A pass with nothing left is done.
pub proof fn law_phases_in_order(paint: Seq<u64>, copy: Seq<u64>)
    ensures
        first_phase(paint, copy) is Paint <==> paint.len() > 0,
        first_phase(paint, copy) is Create <==> paint.len() == 0 && copy.len() > 0,
        first_phase(paint, copy) is Done <==> paint.len() == 0 && copy.len() == 0,
        next_phase(Phase::Create) is Bind,
        next_phase(next_phase(Phase::Create)) is Render,
        next_phase(next_phase(next_phase(Phase::Create))) is Rebind,
        next_phase(next_phase(next_phase(next_phase(Phase::Create)))) is Copy,
        next_phase(Phase::Copy) is Copy && next_phase(Phase::Paint) is Paint && next_phase(
            Phase::Done,
        ) is Done,
{
}

/// A frame waits exactly where capture is on and its output is known; it fails as
/// stopped exactly where capture is off.
pub proof fn law_fate_of_a_frame(enabled: bool, output: Option<u64>)
    ensures
        ({
            let f = frame_fate(enabled, output);
            &&& f is Queued <==> enabled && output is Some
            &&& f is Queued ==> output == Some(f->output)
            &&& !enabled <==> f == FrameFate::Fail(CaptureFailureReason::Stopped)
            &&& enabled && output is None <==> f == FrameFate::Fail(CaptureFailureReason::Unknown)
        }),
{
}

} // verus!
