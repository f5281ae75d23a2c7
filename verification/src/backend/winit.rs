//! The backend in a window of another session.

use vstd::prelude::*;

use crate::backend::headless::OutputSetup;
use crate::backend::headless::REFRESH;
use crate::backend::outputs::OutputCame;
use crate::backend::Transform;
use crate::geometry::Point;
use crate::geometry::Size;
use crate::state::ShoestringWm;

verus! {

/// The size of the window when it opens.
pub const WINDOW_WIDTH: u32 = 1600;

pub const WINDOW_HEIGHT: u32 = 1000;

/// What happens to the window.
#[derive(Clone, Copy, Debug, PartialEq, Eq, Structural)]
pub enum WindowEvent {
    Resized(Size),
    Input,
    Redraw,
    CloseRequested,
    Other,
}

/// What follows.
#[derive(Clone, Copy, Debug, PartialEq, Eq, Structural)]
pub enum WindowStep {
    Nothing,
    /// The output has this mode now, and stays in its place.
    SetMode { size: Size, refresh: i32, location: Point },
    /// Handle the input.
    Input,
    /// Paint, and ask to paint again.
    Redraw,
    /// End the manager.
    Stop,
}

/// The title of the window.
pub fn window_title(setting: Option<String>) -> (r: String)
    ensures
        match setting {
            Some(s) => r == s,
            None => r@ == "shoestring-wm"@,
        },
{
    match setting {
        Some(s) => s,
        None => "shoestring-wm".to_string(),
    }
}

/// How the backend starts: its one output, and who is told of it. The picture is
/// flipped, since the window's rows run upwards; the output is reported as
/// upright. `logical` is what the window measures in the desktop.
pub fn init_winit(
    state: &mut ShoestringWm,
    output: u64,
    size: Size,
    logical: Size,
    scale_bits: u64,
) -> (r: (OutputSetup, OutputCame))
    ensures
        crate::backend::headless::sets_up(
            r.0,
            "winit"@,
            "Winit"@,
            size,
            Transform::Flipped180,
        ),
        crate::backend::outputs::came_at_origin(
            *old(state),
            output,
            r.0,
            logical,
            scale_bits,
            *final(state),
            r.1,
        ),
{
    let setup = OutputSetup {
        name: "winit".to_string(),
        make: "shoestring-wm".to_string(),
        model: "Winit".to_string(),
        serial: "Unknown".to_string(),
        size,
        refresh: REFRESH,
        location: Point { x: 0, y: 0 },
        transform: Transform::Flipped180,
        reported: Transform::Normal,
    };
    let came = state.output_at_origin(output, &setup, logical, scale_bits);
    (setup, came)
}

/// What follows something that happens to the window.
pub fn on_window_event(event: WindowEvent) -> (r: WindowStep)
    ensures
        r == (match event {
            WindowEvent::Resized(size) => WindowStep::SetMode {
                size,
                refresh: REFRESH,
                location: Point { x: 0, y: 0 },
            },
            WindowEvent::Input => WindowStep::Input,
            WindowEvent::Redraw => WindowStep::Redraw,
            WindowEvent::CloseRequested => WindowStep::Stop,
            WindowEvent::Other => WindowStep::Nothing,
        }),
{
    match event {
        WindowEvent::Resized(size) => WindowStep::SetMode {
            size,
            refresh: REFRESH,
            location: Point { x: 0, y: 0 },
        },
        WindowEvent::Input => WindowStep::Input,
        WindowEvent::Redraw => WindowStep::Redraw,
        WindowEvent::CloseRequested => WindowStep::Stop,
        WindowEvent::Other => WindowStep::Nothing,
    }
}

} // verus!
