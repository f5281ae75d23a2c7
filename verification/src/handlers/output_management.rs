//! Arrangements of the outputs that clients ask for: heads to enable or disable,
//! tried and applied as one.

use vstd::prelude::*;

use crate::backend::Transform;
use crate::geometry::Point;
use crate::geometry::Size;
use crate::seqs::retain;
use crate::state::ShoestringWm;

verus! {

/// The clients that arrange outputs. The serial changes with the outputs.
#[derive(Debug)]
pub struct OutputManagementState {
    pub serial: u32,
    pub managers: Vec<u64>,
}

/// A mode that a client asks for: one of the output's, or one of its own making.
#[derive(Clone, Copy, Debug, PartialEq, Eq, Structural)]
#[allow(inconsistent_fields)]
pub enum ModeChoice {
    Named { size: Size, refresh: i32 },
    Custom { size: Size, refresh: i32 },
}

/// What a client wants of an output. The scale is given by its bits.
#[derive(Clone, Copy, Debug, PartialEq, Eq, Structural)]
pub struct HeadIntent {
    pub enabled: bool,
    pub mode: Option<ModeChoice>,
    pub position: Option<Point>,
    pub transform: Option<Transform>,
    pub scale_bits: Option<u64>,
}

/// A head of an arrangement: its output, and what is wanted of it.
#[derive(Clone, Copy, Debug, PartialEq, Eq, Structural)]
pub struct Head {
    pub output: u64,
    pub intent: HeadIntent,
}

/// An arrangement, made for the outputs as of a serial.
#[derive(Debug)]
pub struct ConfigurationData {
    pub serial: u32,
    pub heads: Vec<Head>,
}

/// What a client sets of a head.
#[derive(Clone, Copy, Debug, PartialEq, Eq, Structural)]
pub enum HeadRequest {
    SetMode { size: Size, refresh: i32 },
    SetCustomMode { size: Size, refresh: i32 },
    SetPosition(Point),
    SetTransform(WireTransform),
    SetScale { bits: u64 },
    SetAdaptiveSync,
}

/// An orientation as a client gives it: by its number.
#[derive(Clone, Copy, Debug, PartialEq, Eq, Structural)]
pub struct WireTransform {
    pub code: u32,
}

/// The greatest number of an orientation. A greater one is passed over.
pub const LAST_TRANSFORM: u32 = 7;

/// The orientation with a number.
pub fn transform_of(t: WireTransform) -> (r: Transform)
    ensures
        r == wire_transform(t.code),
{
    match t.code {
        1 => Transform::_90,
        2 => Transform::_180,
        3 => Transform::_270,
        4 => Transform::Flipped,
        5 => Transform::Flipped90,
        6 => Transform::Flipped180,
        7 => Transform::Flipped270,
        _ => Transform::Normal,
    }
}

/// The orientation with a number.
pub open spec fn wire_transform(code: u32) -> Transform {
    if code == 1 {
        Transform::_90
    } else if code == 2 {
        Transform::_180
    } else if code == 3 {
        Transform::_270
    } else if code == 4 {
        Transform::Flipped
    } else if code == 5 {
        Transform::Flipped90
    } else if code == 6 {
        Transform::Flipped180
    } else if code == 7 {
        Transform::Flipped270
    } else {
        Transform::Normal
    }
}

/// A head of which nothing is wanted yet but to be on or off.
pub open spec fn bare_intent(enabled: bool) -> HeadIntent {
    HeadIntent { enabled, mode: None, position: None, transform: None, scale_bits: None }
}

/// What is wanted of a head once a client has set something.
pub open spec fn configured(i: HeadIntent, r: HeadRequest) -> HeadIntent {
    match r {
        HeadRequest::SetMode { size, refresh } => HeadIntent {
            mode: Some(ModeChoice::Named { size, refresh }),
            ..i
        },
        HeadRequest::SetCustomMode { size, refresh } => HeadIntent {
            mode: Some(ModeChoice::Custom { size, refresh }),
            ..i
        },
        HeadRequest::SetPosition(p) => HeadIntent { position: Some(p), ..i },
        HeadRequest::SetTransform(t) => if t.code <= LAST_TRANSFORM {
            HeadIntent { transform: Some(wire_transform(t.code)), ..i }
        } else {
            i
        },
        HeadRequest::SetScale { bits } => HeadIntent { scale_bits: Some(bits), ..i },
        HeadRequest::SetAdaptiveSync => i,
    }
}

impl ConfigurationData {
    /// An arrangement without heads.
    pub fn new(serial: u32) -> (r: Self)
        ensures
            r.serial == serial,
            r.heads@.len() == 0,
    {
        ConfigurationData { serial, heads: Vec::new() }
    }

    /// Adds a head that is to be on or off. The result is its place.
    pub fn add_head(&mut self, output: u64, enabled: bool) -> (r: usize)
        ensures
            final(self).serial == old(self).serial,
            final(self).heads@ == old(self).heads@.push(
                Head { output, intent: bare_intent(enabled) },
            ),
            r == old(self).heads@.len(),
    {
        let at: usize = self.heads.len();
        self.heads.push(
            Head {
                output,
                intent: HeadIntent {
                    enabled,
                    mode: None,
                    position: None,
                    transform: None,
                    scale_bits: None,
                },
            },
        );
        at
    }

    /// Sets something of the head at a place.
    pub fn configure_head(&mut self, at: usize, request: HeadRequest)
        requires
            at < old(self).heads@.len(),
        ensures
            final(self).serial == old(self).serial,
            final(self).heads@ == old(self).heads@.update(
                at as int,
                Head {
                    output: old(self).heads@[at as int].output,
                    intent: configured(old(self).heads@[at as int].intent, request),
                },
            ),
    {
        let head = self.heads[at];
        let mut intent = head.intent;
        match request {
            HeadRequest::SetMode { size, refresh } => {
                intent.mode = Some(ModeChoice::Named { size, refresh });
            },
            HeadRequest::SetCustomMode { size, refresh } => {
                intent.mode = Some(ModeChoice::Custom { size, refresh });
            },
            HeadRequest::SetPosition(p) => {
                intent.position = Some(p);
            },
            HeadRequest::SetTransform(t) => {
                if t.code <= LAST_TRANSFORM {
                    intent.transform = Some(transform_of(t));
                }
            },
            HeadRequest::SetScale { bits } => {
                intent.scale_bits = Some(bits);
            },
            HeadRequest::SetAdaptiveSync => {},
        }
        self.heads.set(at, Head { output: head.output, intent });
    }
}

/// What a client is told of its arrangement, or what is done first.
#[derive(Debug)]
pub enum ApplyStart {
    Failed,
    /// The outputs have changed since.
    Cancelled,
    Succeeded,
    Run(ApplyPass),
}

/// What is to be done next.
#[derive(Clone, Copy, Debug, PartialEq, Eq, Structural)]
pub enum ApplyStep {
    Disable { output: u64 },
    ChangeMode { output: u64, size: Size, refresh: i32 },
    /// Set what is wanted besides the mode, map the output where it has a
    /// position, and render it.
    Arrange {
        output: u64,
        transform: Option<Transform>,
        scale_bits: Option<u64>,
        position: Option<Point>,
    },
    /// The answer; after a success the other clients are told too.
    Answer { success: bool },
}

/// An arrangement that is being applied, head by head.
#[derive(Debug)]
pub struct ApplyPass {
    pub heads: Vec<Head>,
    /// The head that it has come to.
    pub at: usize,
    /// Whether that head's mode is set.
    pub mode_set: bool,
    pub any_failed: bool,
    /// Whether outputs can be switched off and have their mode changed.
    pub kms: bool,
}

/// The mode that is asked for.
pub open spec fn mode_wanted(m: ModeChoice) -> (Size, i32) {
    match m {
        ModeChoice::Named { size, refresh } => (size, refresh),
        ModeChoice::Custom { size, refresh } => (size, refresh),
    }
}

impl ApplyPass {
    /// Whether the place is one of the heads or their end.
    pub open spec fn wf(self) -> bool {
        &&& self.at <= self.heads@.len()
        &&& self.at < self.heads@.len() ==> !self.skipped(self.at as int)
    }

    /// Whether nothing is done for a head: it is to be off, and no output can be
    /// switched off.
    pub open spec fn skipped(self, i: int) -> bool {
        !self.heads@[i].intent.enabled && !self.kms
    }

    /// What is to be done next.
    pub open spec fn next(self) -> ApplyStep {
        if self.at >= self.heads@.len() {
            ApplyStep::Answer { success: !self.any_failed }
        } else {
            let h = self.heads@[self.at as int];
            if !h.intent.enabled {
                ApplyStep::Disable { output: h.output }
            } else if self.kms && !self.mode_set && h.intent.mode is Some {
                let (size, refresh) = mode_wanted(h.intent.mode->0);
                ApplyStep::ChangeMode { output: h.output, size, refresh }
            } else {
                ApplyStep::Arrange {
                    output: h.output,
                    transform: h.intent.transform,
                    scale_bits: h.intent.scale_bits,
                    position: h.intent.position,
                }
            }
        }
    }

    /// What is to be done next.
    pub fn step(&self) -> (r: ApplyStep)
        requires
            self.wf(),
        ensures
            r == self.next(),
    {
        if self.at >= self.heads.len() {
            return ApplyStep::Answer { success: !self.any_failed };
        }
        let h = self.heads[self.at];
        if !h.intent.enabled {
            return ApplyStep::Disable { output: h.output };
        }
        if self.kms && !self.mode_set {
            if let Some(m) = h.intent.mode {
                let (size, refresh) = match m {
                    ModeChoice::Named { size, refresh } => (size, refresh),
                    ModeChoice::Custom { size, refresh } => (size, refresh),
                };
                return ApplyStep::ChangeMode { output: h.output, size, refresh };
            }
        }
        ApplyStep::Arrange {
            output: h.output,
            transform: h.intent.transform,
            scale_bits: h.intent.scale_bits,
            position: h.intent.position,
        }
    }

    /// The first head from a place on for which something is done.
    pub open spec fn from(self, i: int) -> int
        decreases self.heads@.len() - i,
    {
        if i >= self.heads@.len() || !self.skipped(i) {
            i
        } else {
            self.from(i + 1)
        }
    }

    fn go_on(&mut self, from: usize)
        requires
            from <= old(self).heads@.len(),
        ensures
            final(self).wf(),
            *final(self) == (ApplyPass {
                at: final(self).at,
                mode_set: false,
                ..*old(self)
            }),
            final(self).at as int == old(self).from(from as int),
    {
        let mut i: usize = from;
        while i < self.heads.len() && !self.kms && !self.heads[i].intent.enabled
            invariant
                i <= self.heads@.len(),
                *self == *old(self),
                self.from(from as int) == self.from(i as int),
            decreases self.heads@.len() - i,
        {
            i += 1;
        }
        self.at = i;
        self.mode_set = false;
    }

    /// A step was done, or has failed. A head whose mode could not be changed is
    /// left as it is.
    pub fn report(&mut self, success: bool)
        requires
            old(self).wf(),
            !(old(self).next() is Answer),
        ensures
            final(self).wf(),
            final(self).heads == old(self).heads,
            final(self).kms == old(self).kms,
            match old(self).next() {
                ApplyStep::ChangeMode { .. } => if success {
                    *final(self) == (ApplyPass { mode_set: true, ..*old(self) })
                } else {
                    &&& final(self).any_failed
                    &&& !final(self).mode_set
                    &&& final(self).at as int == old(self).from(old(self).at + 1)
                },
                ApplyStep::Disable { .. } => {
                    &&& final(self).any_failed == (old(self).any_failed || !success)
                    &&& !final(self).mode_set
                    &&& final(self).at as int == old(self).from(old(self).at + 1)
                },
                _ => {
                    &&& final(self).any_failed == old(self).any_failed
                    &&& !final(self).mode_set
                    &&& final(self).at as int == old(self).from(old(self).at + 1)
                },
            },
    {
        let step = self.step();
        let n: usize = self.heads.len();
        assert(self.at < n);
        let next: usize = self.at + 1;
        match step {
            ApplyStep::ChangeMode { .. } => {
                if success {
                    self.mode_set = true;
                } else {
                    self.any_failed = true;
                    let ghost before = *self;
                    proof {
                        lemma_from_same(*old(self), before, next as int);
                    }
                    self.go_on(next);
                }
            },
            ApplyStep::Disable { .. } => {
                if !success {
                    self.any_failed = true;
                }
                let ghost before = *self;
                proof {
                    lemma_from_same(*old(self), before, next as int);
                }
                self.go_on(next);
            },
            _ => {
                self.go_on(next);
            },
        }
    }
}

proof fn lemma_from_same(a: ApplyPass, b: ApplyPass, i: int)
    requires
        a.heads == b.heads,
        a.kms == b.kms,
    ensures
        a.from(i) == b.from(i),
    decreases a.heads@.len() - i,
{
    if i < a.heads@.len() && a.skipped(i) {
        lemma_from_same(a, b, i + 1);
    }
}

/// How the application of an arrangement starts while the outputs have a serial.
pub open spec fn apply_started(
    serial: u32,
    config: Option<ConfigurationData>,
    test_only: bool,
    kms: bool,
    r: ApplyStart,
) -> bool {
    match config {
        None => r is Failed,
        Some(c) => if c.serial != serial {
            r is Cancelled
        } else if test_only {
            r is Succeeded
        } else {
            &&& r matches ApplyStart::Run(p)
            &&& p.wf()
            &&& p.heads == c.heads
            &&& p.kms == kms
            &&& !p.any_failed
            &&& !p.mode_set
            &&& p.at as int == p.from(0)
        },
    }
}

impl ShoestringWm {
    /// A client asks to have its arrangement applied, or only tried. One made
    /// for other outputs than there are now is cancelled. Trying always succeeds.
    pub fn apply_configuration(
        &self,
        config: Option<ConfigurationData>,
        test_only: bool,
        kms: bool,
    ) -> (r: ApplyStart)
        ensures
            apply_started(self.output_management.serial, config, test_only, kms, r),
    {
        match config {
            None => ApplyStart::Failed,
            Some(c) => {
                if c.serial != self.output_management.serial {
                    return ApplyStart::Cancelled;
                }
                if test_only {
                    return ApplyStart::Succeeded;
                }
                let mut p = ApplyPass {
                    heads: c.heads,
                    at: 0,
                    mode_set: false,
                    any_failed: false,
                    kms,
                };
                let ghost q = p;
                p.go_on(0);
                proof {
                    lemma_from_same(q, p, 0);
                }
                ApplyStart::Run(p)
            },
        }
    }

    /// A client that arranges outputs has come. The result lists the outputs to
    /// tell it of, and the serial that they stand for.
    pub fn output_manager_bound(&mut self, manager: u64) -> (r: (Vec<u64>, u32))
        ensures
            r.0@ == old(self).desktop.space.outputs@.map_values(
                |o: crate::layout::OutputArea| o.id,
            ),
            r.1 == old(self).output_management.serial,
            final(self).output_management.managers@
                == old(self).output_management.managers@.push(manager),
            final(self).output_management.serial == old(self).output_management.serial,
            *final(self) == (ShoestringWm {
                output_management: final(self).output_management,
                ..*old(self)
            }),
    {
        let ghost all = self.desktop.space.outputs@;
        let mut ids: Vec<u64> = Vec::new();
        let mut i: usize = 0;
        while i < self.desktop.space.outputs.len()
            invariant
                i <= all.len(),
                all == self.desktop.space.outputs@,
                *self == *old(self),
                ids@.len() == i,
                forall|k: int| 0 <= k < i ==> #[trigger] ids@[k] == all[k].id,
            decreases all.len() - i,
        {
            ids.push(self.desktop.space.outputs[i].id);
            i += 1;
        }
        assert(ids@ =~= all.map_values(|o: crate::layout::OutputArea| o.id));
        self.output_management.managers.push(manager);
        (ids, self.output_management.serial)
    }

    /// A client that arranges outputs is gone.
    pub fn output_manager_destroyed(&mut self, manager: u64)
        ensures
            final(self).output_management.managers@
                == old(self).output_management.managers@.filter(|m: u64| m != manager),
            final(self).output_management.serial == old(self).output_management.serial,
            *final(self) == (ShoestringWm {
                output_management: final(self).output_management,
                ..*old(self)
            }),
    {
        let keep = |m: &u64| -> (b: bool)
            ensures
                b == (*m != manager),
            { *m != manager };
        retain(&mut self.output_management.managers, keep, Ghost(|m: u64| m != manager));
    }
}

/// An arrangement that a client made before an output came or went is cancelled,
/// whether it is to be applied or only tried.
pub proof fn law_stale_arrangement_cancelled(
    serial: u32,
    config: ConfigurationData,
    test_only: bool,
    kms: bool,
    r: ApplyStart,
)
    requires
        config.serial == serial,
        apply_started(
            crate::backend::outputs::serial_after(serial),
            Some(config),
            test_only,
            kms,
            r,
        ),
    ensures
        r is Cancelled,
{
}

/// The states of an arrangement that is being applied, with the outcomes of the
/// steps.
pub open spec fn is_apply_run(states: Seq<ApplyPass>, outcomes: Seq<bool>) -> bool {
    &&& states.len() == outcomes.len() + 1
    &&& forall|i: int| 0 <= i < outcomes.len() ==> #[trigger] reported(states, outcomes, i)
}

/// Whether the state behind the step at `i` is what its outcome leads to, as far
/// as failures go.
pub open spec fn reported(states: Seq<ApplyPass>, outcomes: Seq<bool>, i: int) -> bool {
    states[i + 1].any_failed == (states[i].any_failed || step_failed(
        states[i].next(),
        outcomes[i],
    ))
}

/// Whether a step's outcome is a failure of the arrangement: an output that could
/// not be switched off, or a mode that could not be changed.
pub open spec fn step_failed(step: ApplyStep, success: bool) -> bool {
    !success && (step is Disable || step is ChangeMode)
}

/// The client hears of a failure exactly where an output could not be switched
/// off or a mode could not be changed.
pub proof fn law_answer_tells_failures(states: Seq<ApplyPass>, outcomes: Seq<bool>)
    requires
        is_apply_run(states, outcomes),
        !states[0].any_failed,
        states.last().at >= states.last().heads@.len(),
    ensures
        states.last().next() == (ApplyStep::Answer {
            success: forall|i: int|
                0 <= i < outcomes.len() ==> !step_failed((#[trigger] states[i]).next(), outcomes[i]),
        }),
{
    lemma_failures(states, outcomes, outcomes.len() as int);
}

proof fn lemma_failures(states: Seq<ApplyPass>, outcomes: Seq<bool>, n: int)
    requires
        is_apply_run(states, outcomes),
        !states[0].any_failed,
        0 <= n <= outcomes.len(),
    ensures
        states[n].any_failed <==> exists|i: int|
            0 <= i < n && step_failed((#[trigger] states[i]).next(), outcomes[i]),
    decreases n,
{
    if n > 0 {
        lemma_failures(states, outcomes, n - 1);
        assert(reported(states, outcomes, n - 1));
        if states[n].any_failed {
            if states[n - 1].any_failed {
                let i = choose|i: int|
                    0 <= i < n - 1 && step_failed((#[trigger] states[i]).next(), outcomes[i]);
                assert(step_failed(states[i].next(), outcomes[i]));
            } else {
                assert(step_failed(states[n - 1].next(), outcomes[n - 1]));
            }
        }
    }
}

/// The orientations have the numbers one to seven in the order of their angles, those
/// that are flipped behind the others; any other number stands for the upright one.
pub proof fn law_orientation_numbers(code: u32)
    ensures
        wire_transform(code) is _90 <==> code == 1,
        wire_transform(code) is _180 <==> code == 2,
        wire_transform(code) is _270 <==> code == 3,
        wire_transform(code) is Flipped <==> code == 4,
        wire_transform(code) is Flipped90 <==> code == 5,
        wire_transform(code) is Flipped180 <==> code == 6,
        wire_transform(code) is Flipped270 <==> code == 7,
        wire_transform(code) is Normal <==> code == 0 || code > 7,
{
}

/// A request sets what it names and leaves the rest as it was, also whether the head is
/// on; an orientation with an unknown number is passed over.
pub proof fn law_request_sets_one_thing(i: HeadIntent, r: HeadRequest)
    ensures
        ({
            let c = configured(i, r);
            &&& c.enabled == i.enabled
            &&& r matches HeadRequest::SetMode { size, refresh } ==> c.mode == Some(
                ModeChoice::Named { size, refresh },
            )
            &&& r matches HeadRequest::SetCustomMode { size, refresh } ==> c.mode == Some(
                ModeChoice::Custom { size, refresh },
            )
            &&& !(r is SetMode || r is SetCustomMode) ==> c.mode == i.mode
            &&& r matches HeadRequest::SetPosition(p) ==> c.position == Some(p)
            &&& !(r is SetPosition) ==> c.position == i.position
            &&& r matches HeadRequest::SetTransform(t) ==> (t.code <= 7 ==> c.transform == Some(
                wire_transform(t.code),
            )) && (t.code > 7 ==> c.transform == i.transform)
            &&& !(r is SetTransform) ==> c.transform == i.transform
            &&& r matches HeadRequest::SetScale { bits } ==> c.scale_bits == Some(bits)
            &&& !(r is SetScale) ==> c.scale_bits == i.scale_bits
        }),
        bare_intent(true).enabled && !bare_intent(false).enabled,
        bare_intent(i.enabled).mode is None && bare_intent(i.enabled).position is None
            && bare_intent(i.enabled).transform is None && bare_intent(i.enabled).scale_bits is None,
{
}

/// The heads are gone through in order. One that is to be off is switched off where
/// outputs can be, and passed over where they cannot; one that is to be on gets its mode
/// first, where one is wanted and modes can be changed, and then the rest.
pub proof fn law_next_for_a_head(p: ApplyPass, size: Size, refresh: i32)
    requires
        p.wf(),
        p.at < p.heads@.len(),
    ensures
        ({
            let h = p.heads@[p.at as int];
            &&& !h.intent.enabled ==> p.kms && p.next() == (ApplyStep::Disable { output: h.output })
            &&& h.intent.enabled && p.kms && !p.mode_set && (h.intent.mode == Some(
                ModeChoice::Named { size, refresh },
            ) || h.intent.mode == Some(ModeChoice::Custom { size, refresh })) ==> p.next() == (
            ApplyStep::ChangeMode { output: h.output, size, refresh })
            &&& h.intent.enabled && (!p.kms || p.mode_set || h.intent.mode is None) ==> p.next()
                == (ApplyStep::Arrange {
                output: h.output,
                transform: h.intent.transform,
                scale_bits: h.intent.scale_bits,
                position: h.intent.position,
            })
        }),
{
}

/// Only heads that are to be off where no output can be switched off are passed over,
/// and no other.
pub proof fn law_heads_passed_over(p: ApplyPass, i: int, k: int)
    requires
        0 <= i <= p.heads@.len(),
    ensures
        i <= p.from(i) <= p.heads@.len(),
        i <= k < p.from(i) ==> !p.heads@[k].intent.enabled && !p.kms,
        p.from(i) < p.heads@.len() ==> p.heads@[p.from(i)].intent.enabled || p.kms,
    decreases p.heads@.len() - i,
{
    if i < p.heads@.len() && p.skipped(i) {
        law_heads_passed_over(p, i + 1, k);
    }
}

/// An arrangement that cannot be found fails; one for other outputs is cancelled; one
/// that is only tried succeeds; any other is applied, from its first head on.
pub proof fn law_how_applying_starts(
    serial: u32,
    config: Option<ConfigurationData>,
    test_only: bool,
    kms: bool,
    r: ApplyStart,
)
    requires
        apply_started(serial, config, test_only, kms, r),
    ensures
        r is Failed <==> config is None,
        r is Cancelled <==> config is Some && config->0.serial != serial,
        r is Succeeded <==> config is Some && config->0.serial == serial && test_only,
        r is Run <==> config is Some && config->0.serial == serial && !test_only,
        r matches ApplyStart::Run(p) ==> p.heads == config->0.heads && p.kms == kms && !p.any_failed
            && !p.mode_set && p.at == p.from(0),
{
}

/// An arrangement has failed only where an output could not be switched off or a mode
/// could not be changed.
pub proof fn law_what_counts_as_failure(step: ApplyStep, success: bool)
    ensures
        step_failed(step, success) <==> !success && (step is Disable || step is ChangeMode),
        step is Arrange || step is Answer || success ==> !step_failed(step, success),
{
}

} // verus!
