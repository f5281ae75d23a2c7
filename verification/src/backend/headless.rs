//! The backend without a screen: one virtual output, painted off the screen.

use vstd::prelude::*;

use crate::backend::outputs::OutputCame;
use crate::backend::Transform;
use crate::geometry::Point;
use crate::geometry::Size;
use crate::parse_output_size;
use crate::state::ShoestringWm;
use crate::text::concat2;
use crate::text::decimal_string;
use crate::text::str_eq;

verus! {

/// The size of the virtual output where none is set.
pub const DEFAULT_WIDTH: i32 = 1920;

pub const DEFAULT_HEIGHT: i32 = 1080;

/// The time between two frames, in milliseconds.
pub const FRAME_INTERVAL_MS: u64 = 16;

/// The refresh rate that is reported, in thousandths of a hertz.
pub const REFRESH: i32 = 60_000;

/// How an output is set up.
#[derive(Debug)]
pub struct OutputSetup {
    pub name: String,
    pub make: String,
    pub model: String,
    pub serial: String,
    pub size: Size,
    pub refresh: i32,
    pub location: Point,
    /// How the picture is turned.
    pub transform: Transform,
    /// How the output is reported to be turned.
    pub reported: Transform,
}

/// Whether an output is set up at the origin with a name and a model, and
/// reported as upright.
pub open spec fn sets_up(
    o: OutputSetup,
    name: Seq<char>,
    model: Seq<char>,
    size: Size,
    transform: Transform,
) -> bool {
    &&& o.name@ == name
    &&& o.make@ == "shoestring-wm"@
    &&& o.model@ == model
    &&& o.serial@ == "Unknown"@
    &&& o.size == size
    &&& o.refresh == REFRESH
    &&& o.location == (Point { x: 0, y: 0 })
    &&& o.transform == transform
    &&& o.reported == Transform::Normal
}

/// The backend without a screen.
#[derive(Clone, Copy, Debug, PartialEq, Eq, Structural)]
pub struct HeadlessData {
    /// The card's node, where clients may allocate buffers; none where the
    /// processor paints.
    pub render_node: Option<u64>,
    pub target: Option<OffscreenTarget>,
}

/// The size of the virtual output: the one that is set, where it is one.
pub fn virtual_size(setting: Option<&str>) -> (r: (i32, i32))
    ensures
        (r.0 as int, r.1 as int) == virtual_size_of(
            match setting {
                Some(s) => Some(s@),
                None => None,
            },
        ),
{
    match setting {
        Some(s) => match parse_output_size(s) {
            Some(p) => p,
            None => (DEFAULT_WIDTH, DEFAULT_HEIGHT),
        },
        None => (DEFAULT_WIDTH, DEFAULT_HEIGHT),
    }
}

/// The size of the virtual output.
pub open spec fn virtual_size_of(setting: Option<Seq<char>>) -> (int, int) {
    match setting {
        Some(s) => match crate::output_size(s) {
            Some(p) => p,
            None => (DEFAULT_WIDTH as int, DEFAULT_HEIGHT as int),
        },
        None => (DEFAULT_WIDTH as int, DEFAULT_HEIGHT as int),
    }
}

/// Whatever is set, the virtual output has an area.
pub proof fn law_virtual_size_positive(setting: Option<Seq<char>>)
    ensures
        virtual_size_of(setting).0 > 0,
        virtual_size_of(setting).1 > 0,
{
}

/// What the start of the backend gives.
#[derive(Debug)]
pub struct HeadlessStart {
    pub data: HeadlessData,
    pub setup: OutputSetup,
    pub came: OutputCame,
    /// Whether clients are told that they may hand over buffers of the card.
    pub advertise: bool,
}

/// How the backend starts: its virtual output, who is told of it, and whether
/// clients are told that they may hand over buffers of the card. That is done
/// once, and only where the painter takes some format. `logical` is what the
/// output measures in the desktop.
pub fn init_headless(
    state: &mut ShoestringWm,
    output: u64,
    setting: Option<&str>,
    logical: Size,
    scale_bits: u64,
    render_node: Option<u64>,
    advertised: bool,
    formats: usize,
) -> (r: HeadlessStart)
    ensures
        r.data == (HeadlessData { render_node, target: None }),
        ({
            let size = virtual_size_of(
                match setting {
                    Some(s) => Some(s@),
                    None => None,
                },
            );
            sets_up(
                r.setup,
                "HEADLESS-1"@,
                "Headless"@,
                Size { w: size.0 as i32, h: size.1 as i32 },
                Transform::Normal,
            )
        }),
        crate::backend::outputs::came_at_origin(
            *old(state),
            output,
            r.setup,
            logical,
            scale_bits,
            *final(state),
            r.came,
        ),
        r.advertise == (!advertised && formats > 0),
{
    let (w, h) = virtual_size(setting);
    let setup = OutputSetup {
        name: "HEADLESS-1".to_string(),
        make: "shoestring-wm".to_string(),
        model: "Headless".to_string(),
        serial: "Unknown".to_string(),
        size: Size { w, h },
        refresh: REFRESH,
        location: Point { x: 0, y: 0 },
        transform: Transform::Normal,
        reported: Transform::Normal,
    };
    let came = state.output_at_origin(output, &setup, logical, scale_bits);
    HeadlessStart {
        data: HeadlessData { render_node, target: None },
        setup,
        came,
        advertise: !advertised && formats > 0,
    }
}

/// The path of a render node.
pub open spec fn render_node(n: nat) -> Seq<char> {
    "/dev/dri/renderD"@ + crate::text::decimal(n)
}

/// The path of the render node: the one that is set, else the first of three that
/// is there, else the first.
pub fn render_node_path(setting: Option<String>, exists_128: bool, exists_129: bool, exists_130: bool)
    -> (r: String)
    ensures
        match setting {
            Some(s) => r == s,
            None => r@ == render_node(
                if exists_128 {
                    128
                } else if exists_129 {
                    129
                } else if exists_130 {
                    130
                } else {
                    128
                },
            ),
        },
{
    match setting {
        Some(s) => s,
        None => {
            let n: u64 = if exists_128 {
                128
            } else if exists_129 {
                129
            } else if exists_130 {
                130
            } else {
                128
            };
            let digits = decimal_string(n);
            concat2("/dev/dri/renderD", digits.as_str())
        },
    }
}

/// Whether a setting is switched on.
pub fn env_flag(value: Option<&str>) -> (r: bool)
    ensures
        r == (value matches Some(v) && (v@ == "1"@ || v@ == "true"@ || v@ == "yes"@)),
{
    match value {
        Some(v) => str_eq(v, "1") || str_eq(v, "true") || str_eq(v, "yes"),
        None => false,
    }
}

/// What paints.
#[derive(Clone, Copy, Debug, PartialEq, Eq, Structural)]
pub enum Painter {
    /// A graphics card, by its render node.
    Card,
    Software,
}

/// What paints: the card, unless software is forced or the card cannot be used.
/// Whether it can is tried only where it matters.
pub fn create_egl_display(forced_software: bool, card_usable: bool) -> (r: Painter)
    ensures
        r == (if !forced_software && card_usable {
            Painter::Card
        } else {
            Painter::Software
        }),
{
    if forced_software || !card_usable {
        Painter::Software
    } else {
        Painter::Card
    }
}

/// The picture that is painted into: its size, and how many frames old it is.
/// Zero means that nothing is known of it.
#[derive(Clone, Copy, Debug, PartialEq, Eq, Structural)]
pub struct OffscreenTarget {
    pub size: Size,
    pub age: u32,
}

/// What is done about the picture before a frame.
#[derive(Clone, Copy, Debug, PartialEq, Eq, Structural)]
pub enum TargetStep {
    /// No frame: the output has no mode.
    Skip,
    /// Make one of this size.
    Create { size: Size },
    /// Paint what has changed since that many frames.
    Paint { age: u32 },
}

impl HeadlessData {
    /// What is done about the picture before a frame.
    pub open spec fn step_of(self, mode: Option<Size>) -> TargetStep {
        match mode {
            None => TargetStep::Skip,
            Some(size) => match self.target {
                Some(t) => if t.size == size {
                    TargetStep::Paint { age: t.age }
                } else {
                    TargetStep::Create { size }
                },
                None => TargetStep::Create { size },
            },
        }
    }

    /// What a new picture leaves: nothing is known of what it holds.
    pub open spec fn with_new(self, size: Size) -> HeadlessData {
        HeadlessData { target: Some(OffscreenTarget { size, age: 0 }), ..self }
    }

    /// What painting leaves: a picture that is one frame old by the next frame.
    pub open spec fn once_painted(self) -> HeadlessData {
        HeadlessData {
            target: match self.target {
                Some(t) => Some(OffscreenTarget { size: t.size, age: 1 }),
                None => None,
            },
            ..self
        }
    }

    /// What is done about the picture before a frame. One of another size is made
    /// anew.
    pub fn render_once(&self, mode: Option<Size>) -> (r: TargetStep)
        ensures
            r == self.step_of(mode),
    {
        match mode {
            None => TargetStep::Skip,
            Some(size) => match self.target {
                Some(t) => if t.size == size {
                    TargetStep::Paint { age: t.age }
                } else {
                    TargetStep::Create { size }
                },
                None => TargetStep::Create { size },
            },
        }
    }

    /// A picture was made: nothing is known of what it holds.
    pub fn target_created(&mut self, size: Size)
        ensures
            *final(self) == old(self).with_new(size),
    {
        self.target = Some(OffscreenTarget { size, age: 0 });
    }

    /// The picture was painted: by the next frame it is one frame old.
    pub fn painted(&mut self)
        ensures
            *final(self) == old(self).once_painted(),
    {
        if let Some(t) = self.target {
            self.target = Some(OffscreenTarget { size: t.size, age: 1 });
        }
    }
}

/// All of a picture is painted only once: from then on, while the mode stays,
/// only what has changed since the last frame.
pub proof fn law_painted_is_one_old(
    before: HeadlessData,
    size: Size,
    states: Seq<HeadlessData>,
    k: int,
)
    requires
        states.len() > 0,
        states[0] == before.with_new(size),
        forall|i: int|
            #![trigger states[i]]
            0 < i < states.len() ==> states[i] == states[i - 1].once_painted(),
        0 <= k < states.len(),
    ensures
        states[k].step_of(Some(size)) == (TargetStep::Paint {
            age: if k == 0 {
                0
            } else {
                1
            },
        }),
    decreases k,
{
    if k > 0 {
        law_painted_is_one_old(before, size, states, k - 1);
        assert(states[k] == states[k - 1].once_painted());
    }
}

/// The virtual output is as large as is set, and 1920 by 1080 where nothing is set or
/// what is set is no size.
pub proof fn law_virtual_size(s: Seq<char>)
    ensures
        virtual_size_of(None) == (1920int, 1080int),
        crate::output_size(s) matches Some(p) ==> virtual_size_of(Some(s)) == p,
        crate::output_size(s) is None ==> virtual_size_of(Some(s)) == (1920int, 1080int),
{
}

/// A picture is made where there is none or the mode has another size; otherwise it is
/// painted on, and without a mode nothing is done. A picture that was made anew holds
/// nothing that is known, one that was painted holds the last frame; its size stays.
pub proof fn law_picture_for_the_mode(d: HeadlessData, size: Size)
    ensures
        d.step_of(None) is Skip,
        d.step_of(Some(size)) == (TargetStep::Create { size }) <==> d.target is None
            || d.target->0.size != size,
        d.target is Some && d.target->0.size == size ==> d.step_of(Some(size)) == (
        TargetStep::Paint { age: d.target->0.age }),
        d.with_new(size).target == Some(OffscreenTarget { size, age: 0 }),
        d.with_new(size).render_node == d.render_node,
        d.target matches Some(t) ==> d.once_painted().target == Some(
            OffscreenTarget { size: t.size, age: 1 },
        ),
        d.target is None ==> d.once_painted().target is None,
        d.once_painted().render_node == d.render_node,
{
}

/// An output of a backend without a card is at the origin, runs at 60 hertz and is
/// reported as upright, whichever way its picture is turned.
pub proof fn law_set_up_at_origin(
    o: OutputSetup,
    name: Seq<char>,
    model: Seq<char>,
    size: Size,
    transform: Transform,
)
    requires
        sets_up(o, name, model, size, transform),
    ensures
        o.location.x == 0 && o.location.y == 0,
        o.refresh == 60000,
        o.reported is Normal,
        o.transform == transform,
        o.size == size,
        o.name@ == name && o.model@ == model,
{
}

} // verus!
