//! The pointer's picture, and the windows below it.

use vstd::prelude::*;

use crate::geometry::Point;
use crate::layout::Space;
use crate::state::ShoestringWm;

verus! {

/// What the pointer looks like, as a client wants it.
#[derive(Clone, Copy, Debug, PartialEq, Eq, Structural)]
pub enum CursorImageStatus {
    Hidden,
    /// The manager's own picture.
    Named,
    /// A surface of the client.
    Surface(u64),
}

/// The pointer's picture: the manager's own, once there is one, and what the
/// client wants.
#[derive(Clone, Copy, Debug, PartialEq, Eq, Structural)]
pub struct PointerElement {
    pub buffer: Option<u64>,
    pub status: CursorImageStatus,
}

/// What is drawn of the pointer.
#[derive(Clone, Copy, Debug, PartialEq, Eq, Structural)]
pub enum PointerPicture {
    Nothing,
    Buffer(u64),
    Surface(u64),
}

impl Default for PointerElement {
    /// No picture yet; the manager's own is to be shown.
    fn default() -> (r: Self)
        ensures
            r == (PointerElement { buffer: None, status: CursorImageStatus::Named }),
    {
        PointerElement { buffer: None, status: CursorImageStatus::Named }
    }
}

impl PointerElement {
    /// A client wants another pointer.
    pub fn set_status(&mut self, status: CursorImageStatus)
        ensures
            *final(self) == (PointerElement { status, ..*old(self) }),
    {
        self.status = status;
    }

    /// The manager's own picture.
    pub fn set_buffer(&mut self, buffer: u64)
        ensures
            *final(self) == (PointerElement { buffer: Some(buffer), ..*old(self) }),
    {
        self.buffer = Some(buffer);
    }

    /// What is drawn of the pointer.
    pub fn render_elements(&self) -> (r: PointerPicture)
        ensures
            r == (match self.status {
                CursorImageStatus::Hidden => PointerPicture::Nothing,
                CursorImageStatus::Named => match self.buffer {
                    Some(b) => PointerPicture::Buffer(b),
                    None => PointerPicture::Nothing,
                },
                CursorImageStatus::Surface(s) => PointerPicture::Surface(s),
            }),
    {
        match self.status {
            CursorImageStatus::Hidden => PointerPicture::Nothing,
            CursorImageStatus::Named => match self.buffer {
                Some(b) => PointerPicture::Buffer(b),
                None => PointerPicture::Nothing,
            },
            CursorImageStatus::Surface(s) => PointerPicture::Surface(s),
        }
    }
}

/// What an output shows below the pointer.
#[derive(Clone, Copy, Debug, PartialEq, Eq, Structural)]
pub enum SpaceElements {
    /// One window alone, at a place on the output.
    Window { window: u64, loc: Point },
    /// All windows and layer surfaces.
    Stack,
}

/// Whether `i` is the first entry of an output.
pub open spec fn first_output(space: Space, output: u64, i: int) -> bool {
    &&& 0 <= i < space.outputs@.len()
    &&& space.outputs@[i].id == output
    &&& forall|j: int| 0 <= j < i ==> (#[trigger] space.outputs@[j]).id != output
}

/// Where an output begins; the origin where it has no place.
pub open spec fn output_origin(space: Space, output: u64) -> Point {
    let i = choose|i: int| first_output(space, output, i);
    if first_output(space, output, i) {
        match space.outputs@[i].geometry {
            Some(g) => g.loc,
            None => Point { x: 0, y: 0 },
        }
    } else {
        Point { x: 0, y: 0 }
    }
}

fn origin_of(space: &Space, output: u64) -> (r: Point)
    ensures
        r == output_origin(*space, output),
{
    let mut i: usize = 0;
    while i < space.outputs.len()
        invariant
            i <= space.outputs@.len(),
            forall|j: int| 0 <= j < i ==> (#[trigger] space.outputs@[j]).id != output,
        decreases space.outputs@.len() - i,
    {
        if space.outputs[i].id == output {
            proof {
                assert(first_output(*space, output, i as int));
                let c = choose|c: int| first_output(*space, output, c);
                assert(first_output(*space, output, c));
                if c < i {
                    assert(space.outputs@[c].id != output);
                }
                if (i as int) < c {
                    assert(space.outputs@[i as int].id != output);
                }
            }
            return match space.outputs[i].geometry {
                Some(g) => g.loc,
                None => Point { x: 0, y: 0 },
            };
        }
        i += 1;
    }
    assert(forall|k: int| !first_output(*space, output, k));
    Point { x: 0, y: 0 }
}

/// Where a window is mapped; the origin where it is not.
pub open spec fn window_origin(space: Space, window: u64) -> Point {
    match space.location(window) {
        Some(loc) => loc,
        None => Point { x: 0, y: 0 },
    }
}

/// What an output shows below the pointer: a window that is fullscreen on it
/// alone, seen from the output's corner; else everything.
pub fn output_space_elements(space: &Space, output: u64, fullscreen: Option<u64>) -> (r:
    SpaceElements)
    requires
        fullscreen matches Some(w) ==> {
            let from = output_origin(*space, output);
            let at = window_origin(*space, w);
            &&& i32::MIN <= at.x - from.x <= i32::MAX
            &&& i32::MIN <= at.y - from.y <= i32::MAX
        },
    ensures
        r == (match fullscreen {
            Some(w) => SpaceElements::Window {
                window: w,
                loc: Point {
                    x: (window_origin(*space, w).x - output_origin(*space, output).x) as i32,
                    y: (window_origin(*space, w).y - output_origin(*space, output).y) as i32,
                },
            },
            None => SpaceElements::Stack,
        }),
{
    match fullscreen {
        Some(w) => {
            let from = origin_of(space, output);
            let at = match space.element_location(w) {
                Some(loc) => loc,
                None => Point { x: 0, y: 0 },
            };
            SpaceElements::Window { window: w, loc: Point { x: at.x - from.x, y: at.y - from.y } }
        },
        None => SpaceElements::Stack,
    }
}

impl ShoestringWm {
    /// A client wants another pointer, or a tablet tool brings its own: there is
    /// one pointer for both.
    pub fn cursor_image(&mut self, status: CursorImageStatus)
        ensures
            *final(self) == (ShoestringWm {
                pointer_element: PointerElement { status, ..old(self).pointer_element },
                ..*old(self)
            }),
    {
        self.pointer_element.set_status(status);
    }
}

/// An output begins at the corner of its place, and one that has none or is not there
/// at the origin; so does a window that is not mapped.
pub proof fn law_origins(space: Space, output: u64, window: u64, i: int)
    ensures
        0 <= i < space.outputs@.len() && space.outputs@[i].id == output && (forall|j: int|
            0 <= j < i ==> (#[trigger] space.outputs@[j]).id != output) ==> {
            &&& space.outputs@[i].geometry matches Some(g) ==> output_origin(space, output) == g.loc
            &&& space.outputs@[i].geometry is None ==> output_origin(space, output) == (Point {
                x: 0,
                y: 0,
            })
        },
        (forall|j: int|
            0 <= j < space.outputs@.len() ==> (#[trigger] space.outputs@[j]).id != output)
            ==> output_origin(space, output) == (Point { x: 0, y: 0 }),
        space.location(window) matches Some(p) ==> window_origin(space, window) == p,
        space.location(window) is None ==> window_origin(space, window) == (Point { x: 0, y: 0 }),
{
    if 0 <= i < space.outputs@.len() && space.outputs@[i].id == output && (forall|j: int|
        0 <= j < i ==> (#[trigger] space.outputs@[j]).id != output) {
        assert(first_output(space, output, i));
        let k = choose|k: int| first_output(space, output, k);
        assert(first_output(space, output, k));
        if k < i {
            assert(space.outputs@[k].id != output);
        }
        if i < k {
            assert(space.outputs@[i].id != output);
        }
    }
}

} // verus!
