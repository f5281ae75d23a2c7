//! Pointers that clients move: requests are gathered until a frame, and take
//! effect together.

use vstd::prelude::*;

verus! {

/// The direction of scrolling.
#[derive(Clone, Copy, Debug, PartialEq, Eq, Structural)]
pub enum Axis {
    Vertical,
    Horizontal,
}

/// What scrolls.
#[derive(Clone, Copy, Debug, PartialEq, Eq, Structural)]
pub enum AxisSource {
    Wheel,
    Finger,
    Continuous,
    WheelTilt,
}

/// What has come since the last frame. Scroll values are in fractions of
/// [`FIXED_ONE`]; a place is given by the bits of its coordinates.
#[derive(Debug)]
pub struct PendingFrame {
    pub location: Option<(u64, u64)>,
    /// The buttons, and whether they went down.
    pub buttons: Vec<(u32, bool)>,
    pub has_axis: bool,
    pub horizontal: AxisPart,
    pub vertical: AxisPart,
    pub source: Option<AxisSource>,
}

/// What has come for one direction.
#[derive(Clone, Copy, Debug, PartialEq, Eq, Structural)]
pub struct AxisPart {
    pub value: i64,
    /// In 120ths of a step.
    pub v120: Option<i32>,
    pub stop: bool,
}

/// One unit of a scroll value.
pub const FIXED_ONE: i64 = 256;

/// The greatest sum of scroll values that is exact.
pub const VALUE_LIMIT: i64 = 0x20_0000_0000_0000;

/// What a client asks for. Directions, button states and sources are given by
/// their numbers.
#[derive(Clone, Copy, Debug)]
#[allow(inconsistent_fields)]
pub enum PointerRequest {
    /// The pointer goes to this place, which is relative to where it was to go.
    Motion { location: (u64, u64) },
    /// The pointer goes to this place; none where there is no such output.
    MotionAbsolute { location: Option<(u64, u64)> },
    Button { button: u32, state: u32 },
    Axis { axis: u32, value: i32 },
    AxisDiscrete { axis: u32, value: i32, discrete: i32 },
    AxisStop { axis: u32 },
    AxisSource { source: u32 },
    Frame,
    Destroy,
}

/// What follows a request.
#[derive(Clone, Copy, Debug, PartialEq, Eq, Structural)]
pub enum PointerReply {
    Nothing,
    /// The client is told of its mistake.
    InvalidAxis,
    InvalidAxisSource,
    /// What was gathered takes effect.
    Flush,
}

/// The direction with a number.
pub open spec fn axis_of(code: u32) -> Option<Axis> {
    if code == 0 {
        Some(Axis::Vertical)
    } else if code == 1 {
        Some(Axis::Horizontal)
    } else {
        None
    }
}

/// The direction with a number.
pub fn map_axis(code: u32) -> (r: Option<Axis>)
    ensures
        r == axis_of(code),
{
    match code {
        0 => Some(Axis::Vertical),
        1 => Some(Axis::Horizontal),
        _ => None,
    }
}

/// Whether a button goes down, by the number of its state.
pub fn map_button_state(code: u32) -> (r: Option<bool>)
    ensures
        r == (if code == 0 {
            Some(false)
        } else if code == 1 {
            Some(true)
        } else {
            None
        }),
{
    match code {
        0 => Some(false),
        1 => Some(true),
        _ => None,
    }
}

/// The source with a number.
pub open spec fn source_of(code: u32) -> Option<AxisSource> {
    if code == 0 {
        Some(AxisSource::Wheel)
    } else if code == 1 {
        Some(AxisSource::Finger)
    } else if code == 2 {
        Some(AxisSource::Continuous)
    } else if code == 3 {
        Some(AxisSource::WheelTilt)
    } else {
        None
    }
}

/// The source with a number.
pub fn map_axis_source(code: u32) -> (r: Option<AxisSource>)
    ensures
        r == source_of(code),
{
    match code {
        0 => Some(AxisSource::Wheel),
        1 => Some(AxisSource::Finger),
        2 => Some(AxisSource::Continuous),
        3 => Some(AxisSource::WheelTilt),
        _ => None,
    }
}

/// Steps in 120ths, as far as they can be written.
pub open spec fn in_120ths(discrete: i32) -> int {
    crate::geometry::clamp(discrete * 120, i32::MIN as int, i32::MAX as int)
}

fn to_120ths(discrete: i32) -> (r: i32)
    ensures
        r as int == in_120ths(discrete),
{
    let v: i64 = discrete as i64 * 120;
    if v > i32::MAX as i64 {
        i32::MAX
    } else if v < i32::MIN as i64 {
        i32::MIN
    } else {
        v as i32
    }
}

impl PendingFrame {
    /// Nothing has come.
    pub fn new() -> (r: Self)
        ensures
            r.location is None,
            r.buttons@.len() == 0,
            !r.has_axis,
            r.horizontal == (AxisPart { value: 0, v120: None, stop: false }),
            r.vertical == (AxisPart { value: 0, v120: None, stop: false }),
            r.source is None,
    {
        PendingFrame {
            location: None,
            buttons: Vec::new(),
            has_axis: false,
            horizontal: AxisPart { value: 0, v120: None, stop: false },
            vertical: AxisPart { value: 0, v120: None, stop: false },
            source: None,
        }
    }

    /// What has come for a direction.
    pub open spec fn part(self, axis: Axis) -> AxisPart {
        match axis {
            Axis::Vertical => self.vertical,
            Axis::Horizontal => self.horizontal,
        }
    }

    /// With other values for a direction.
    pub open spec fn with_part(self, axis: Axis, part: AxisPart) -> PendingFrame {
        match axis {
            Axis::Vertical => PendingFrame { vertical: part, has_axis: true, ..self },
            Axis::Horizontal => PendingFrame { horizontal: part, has_axis: true, ..self },
        }
    }

    /// Whether the sums are exact, also with one more value.
    pub open spec fn fits(self, more: int) -> bool {
        &&& -VALUE_LIMIT <= self.vertical.value + more <= VALUE_LIMIT
        &&& -VALUE_LIMIT <= self.horizontal.value + more <= VALUE_LIMIT
    }

    fn set_part(&mut self, axis: Axis, part: AxisPart)
        ensures
            *final(self) == old(self).with_part(axis, part),
    {
        self.has_axis = true;
        match axis {
            Axis::Vertical => {
                self.vertical = part;
            },
            Axis::Horizontal => {
                self.horizontal = part;
            },
        }
    }

    fn get_part(&self, axis: Axis) -> (r: AxisPart)
        ensures
            r == self.part(axis),
    {
        match axis {
            Axis::Vertical => self.vertical,
            Axis::Horizontal => self.horizontal,
        }
    }

    /// The value that a request adds.
    pub open spec fn added(request: PointerRequest) -> int {
        match request {
            PointerRequest::Axis { value, .. } => value as int,
            PointerRequest::AxisDiscrete { value, .. } => value as int,
            _ => 0,
        }
    }

    /// Takes in a request.
    pub fn request(&mut self, request: PointerRequest) -> (r: PointerReply)
        requires
            old(self).fits(PendingFrame::added(request)),
        ensures
            match request {
                PointerRequest::Motion { location } => r == PointerReply::Nothing && *final(self)
                    == (PendingFrame { location: Some(location), ..*old(self) }),
                PointerRequest::MotionAbsolute { location } => r == PointerReply::Nothing
                    && *final(self) == (PendingFrame {
                    location: match location {
                        Some(l) => Some(l),
                        None => old(self).location,
                    },
                    ..*old(self)
                }),
                PointerRequest::Button { button, state } => {
                    &&& r == PointerReply::Nothing
                    &&& final(self).buttons@ == (if state == 0 || state == 1 {
                        old(self).buttons@.push((button, state == 1))
                    } else {
                        old(self).buttons@
                    })
                    &&& *final(self) == (PendingFrame {
                        buttons: final(self).buttons,
                        ..*old(self)
                    })
                },
                PointerRequest::Axis { axis, value } => match axis_of(axis) {
                    Some(a) => r == PointerReply::Nothing && *final(self) == old(self).with_part(
                        a,
                        AxisPart {
                            value: (old(self).part(a).value + value) as i64,
                            ..old(self).part(a)
                        },
                    ),
                    None => r == PointerReply::InvalidAxis && *final(self) == *old(self),
                },
                PointerRequest::AxisDiscrete { axis, value, discrete } => match axis_of(axis) {
                    Some(a) => r == PointerReply::Nothing && *final(self) == old(self).with_part(
                        a,
                        AxisPart {
                            value: (old(self).part(a).value + value) as i64,
                            v120: Some(in_120ths(discrete) as i32),
                            ..old(self).part(a)
                        },
                    ),
                    None => r == PointerReply::InvalidAxis && *final(self) == *old(self),
                },
                PointerRequest::AxisStop { axis } => match axis_of(axis) {
                    Some(a) => r == PointerReply::Nothing && *final(self) == old(self).with_part(
                        a,
                        AxisPart { stop: true, ..old(self).part(a) },
                    ),
                    None => r == PointerReply::InvalidAxis && *final(self) == *old(self),
                },
                PointerRequest::AxisSource { source } => match source_of(source) {
                    Some(s) => r == PointerReply::Nothing && *final(self) == (PendingFrame {
                        has_axis: true,
                        source: Some(s),
                        ..*old(self)
                    }),
                    None => r == PointerReply::InvalidAxisSource && *final(self) == *old(self),
                },
                PointerRequest::Frame => r == PointerReply::Flush && *final(self) == *old(self),
                PointerRequest::Destroy => r == PointerReply::Nothing && *final(self) == *old(self),
            },
    {
        match request {
            PointerRequest::Motion { location } => {
                self.location = Some(location);
                PointerReply::Nothing
            },
            PointerRequest::MotionAbsolute { location } => {
                if location.is_some() {
                    self.location = location;
                }
                PointerReply::Nothing
            },
            PointerRequest::Button { button, state } => {
                if let Some(pressed) = map_button_state(state) {
                    self.buttons.push((button, pressed));
                }
                PointerReply::Nothing
            },
            PointerRequest::Axis { axis, value } => match map_axis(axis) {
                Some(a) => {
                    let p = self.get_part(a);
                    self.set_part(
                        a,
                        AxisPart { value: p.value + value as i64, v120: p.v120, stop: p.stop },
                    );
                    PointerReply::Nothing
                },
                None => PointerReply::InvalidAxis,
            },
            PointerRequest::AxisDiscrete { axis, value, discrete } => match map_axis(axis) {
                Some(a) => {
                    let p = self.get_part(a);
                    self.set_part(
                        a,
                        AxisPart {
                            value: p.value + value as i64,
                            v120: Some(to_120ths(discrete)),
                            stop: p.stop,
                        },
                    );
                    PointerReply::Nothing
                },
                None => PointerReply::InvalidAxis,
            },
            PointerRequest::AxisStop { axis } => match map_axis(axis) {
                Some(a) => {
                    let p = self.get_part(a);
                    self.set_part(a, AxisPart { value: p.value, v120: p.v120, stop: true });
                    PointerReply::Nothing
                },
                None => PointerReply::InvalidAxis,
            },
            PointerRequest::AxisSource { source } => match map_axis_source(source) {
                Some(s) => {
                    self.has_axis = true;
                    self.source = Some(s);
                    PointerReply::Nothing
                },
                None => PointerReply::InvalidAxisSource,
            },
            PointerRequest::Frame => PointerReply::Flush,
            PointerRequest::Destroy => PointerReply::Nothing,
        }
    }
}

/// A step count that a client sends is recovered from the 120ths, where it is
/// not so great that it was cut.
pub proof fn law_steps_recovered(discrete: i32)
    requires
        i32::MIN <= discrete * 120 <= i32::MAX,
    ensures
        crate::geometry::quot(in_120ths(discrete), 120) == discrete,
{
}

/// The numbers of the directions and of the sources, and no others.
pub proof fn law_numbers_of_a_scroll(code: u32)
    ensures
        axis_of(code) == Some(Axis::Vertical) <==> code == 0,
        axis_of(code) == Some(Axis::Horizontal) <==> code == 1,
        axis_of(code) is None <==> code > 1,
        source_of(code) == Some(AxisSource::Wheel) <==> code == 0,
        source_of(code) == Some(AxisSource::Finger) <==> code == 1,
        source_of(code) == Some(AxisSource::Continuous) <==> code == 2,
        source_of(code) == Some(AxisSource::WheelTilt) <==> code == 3,
        source_of(code) is None <==> code > 3,
{
}

/// A step counts 120, and more steps than can be written count as many as can.
pub proof fn law_steps_in_120ths(discrete: i32)
    ensures
        i32::MIN <= 120 * discrete <= i32::MAX ==> in_120ths(discrete) == 120 * discrete,
        120 * discrete > i32::MAX ==> in_120ths(discrete) == i32::MAX,
        120 * discrete < i32::MIN ==> in_120ths(discrete) == i32::MIN,
{
}

/// What comes for one direction leaves the other as it was, and makes the frame one
/// that scrolls.
pub proof fn law_directions_apart(f: PendingFrame, axis: Axis, part: AxisPart)
    ensures
        f.with_part(axis, part).part(axis) == part,
        f.with_part(axis, part).has_axis,
        axis is Vertical ==> f.with_part(axis, part).horizontal == f.horizontal && f.with_part(
            axis,
            part,
        ).vertical == part,
        axis is Horizontal ==> f.with_part(axis, part).vertical == f.vertical && f.with_part(
            axis,
            part,
        ).horizontal == part,
        f.with_part(axis, part).buttons == f.buttons && f.with_part(axis, part).location
            == f.location && f.with_part(axis, part).source == f.source,
        f.part(Axis::Vertical) == f.vertical && f.part(Axis::Horizontal) == f.horizontal,
{
}

/// A scroll adds its value, with steps or without, and nothing else adds any.
pub proof fn law_value_added(axis: u32, value: i32, discrete: i32, r: PointerRequest)
    ensures
        PendingFrame::added(PointerRequest::Axis { axis, value }) == value,
        PendingFrame::added(PointerRequest::AxisDiscrete { axis, value, discrete }) == value,
        !(r is Axis || r is AxisDiscrete) ==> PendingFrame::added(r) == 0,
{
}

} // verus!
