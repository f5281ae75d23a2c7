//! Pointer and touch grabs: moving, resizing, dismissing popups.

pub mod move_grab;
pub mod popup_touch;
pub mod resize_grab;
