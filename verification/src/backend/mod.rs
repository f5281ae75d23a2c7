//! What the display backends share: output orientations and their names.

use vstd::prelude::*;

pub mod headless;
pub mod outputs;
pub mod scene;
pub mod udev;
pub mod winit;

verus! {

/// Whether variable refresh is in effect on an output: true only where the
/// configuration asked for it and the connector can do it.
#[derive(Clone, Copy, Debug)]
pub struct VrrState(pub bool);

/// An orientation as the configuration writes it.
#[derive(Clone, Copy, Debug, PartialEq, Eq, Structural)]
pub enum OutputTransform {
    Normal,
    _90,
    _180,
    _270,
    Flipped,
    Flipped90,
    Flipped180,
    Flipped270,
}

/// An orientation of an output.
#[derive(Clone, Copy, Debug, PartialEq, Eq, Structural)]
pub enum Transform {
    Normal,
    _90,
    _180,
    _270,
    Flipped,
    Flipped90,
    Flipped180,
    Flipped270,
}

/// The orientation that a configured one stands for.
pub open spec fn transform_of(t: OutputTransform) -> Transform {
    match t {
        OutputTransform::Normal => Transform::Normal,
        OutputTransform::_90 => Transform::_90,
        OutputTransform::_180 => Transform::_180,
        OutputTransform::_270 => Transform::_270,
        OutputTransform::Flipped => Transform::Flipped,
        OutputTransform::Flipped90 => Transform::Flipped90,
        OutputTransform::Flipped180 => Transform::Flipped180,
        OutputTransform::Flipped270 => Transform::Flipped270,
    }
}

/// Maps a configured orientation onto the output's own.
pub fn transform_from_config(t: OutputTransform) -> (r: Transform)
    ensures
        r == transform_of(t),
{
    match t {
        OutputTransform::Normal => Transform::Normal,
        OutputTransform::_90 => Transform::_90,
        OutputTransform::_180 => Transform::_180,
        OutputTransform::_270 => Transform::_270,
        OutputTransform::Flipped => Transform::Flipped,
        OutputTransform::Flipped90 => Transform::Flipped90,
        OutputTransform::Flipped180 => Transform::Flipped180,
        OutputTransform::Flipped270 => Transform::Flipped270,
    }
}

/// The name by which an orientation is configured and reported.
pub open spec fn name_of(t: Transform) -> Seq<char> {
    match t {
        Transform::Normal => "normal"@,
        Transform::_90 => "90"@,
        Transform::_180 => "180"@,
        Transform::_270 => "270"@,
        Transform::Flipped => "flipped"@,
        Transform::Flipped90 => "flipped-90"@,
        Transform::Flipped180 => "flipped-180"@,
        Transform::Flipped270 => "flipped-270"@,
    }
}

/// The name of an orientation in the report of outputs.
pub fn transform_name(t: Transform) -> (r: &'static str)
    ensures
        r@ == name_of(t),
{
    match t {
        Transform::Normal => "normal",
        Transform::_90 => "90",
        Transform::_180 => "180",
        Transform::_270 => "270",
        Transform::Flipped => "flipped",
        Transform::Flipped90 => "flipped-90",
        Transform::Flipped180 => "flipped-180",
        Transform::Flipped270 => "flipped-270",
    }
}

/// No two orientations are reported under one name, so a name in the report of
/// outputs stands for one configured orientation.
pub proof fn law_transform_names_distinct(a: OutputTransform, b: OutputTransform)
    ensures
        name_of(transform_of(a)) == name_of(transform_of(b)) ==> a == b,
{
    reveal_strlit("normal");
    reveal_strlit("90");
    reveal_strlit("180");
    reveal_strlit("270");
    reveal_strlit("flipped");
    reveal_strlit("flipped-90");
    reveal_strlit("flipped-180");
    reveal_strlit("flipped-270");
    let x = name_of(transform_of(a));
    let y = name_of(transform_of(b));
    if x == y {
        assert(x.len() == y.len());
        assert(x[0] == y[0]);
        if x.len() > 8 {
            assert(x[8] == y[8]);
        }
        if x.len() > 9 {
            assert(x[9] == y[9]);
        }
    }
}

/// A configured orientation is reported under the name by which it was configured.
pub proof fn law_reported_as_configured(t: OutputTransform)
    ensures
        ({
            let n = name_of(transform_of(t));
            &&& t is Normal ==> n == "normal"@
            &&& t is _90 ==> n == "90"@
            &&& t is _180 ==> n == "180"@
            &&& t is _270 ==> n == "270"@
            &&& t is Flipped ==> n == "flipped"@
            &&& t is Flipped90 ==> n == "flipped-90"@
            &&& t is Flipped180 ==> n == "flipped-180"@
            &&& t is Flipped270 ==> n == "flipped-270"@
        }),
        t is Normal <==> transform_of(t) is Normal,
        t is _90 <==> transform_of(t) is _90,
        t is _180 <==> transform_of(t) is _180,
        t is _270 <==> transform_of(t) is _270,
        t is Flipped <==> transform_of(t) is Flipped,
        t is Flipped90 <==> transform_of(t) is Flipped90,
        t is Flipped180 <==> transform_of(t) is Flipped180,
        t is Flipped270 <==> transform_of(t) is Flipped270,
{
}

} // verus!
