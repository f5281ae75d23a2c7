//! What clients ask of the manager through the protocols it serves.

pub mod compositor;
pub mod inhibit;
pub mod layer_shell;
pub mod output_management;
pub mod screencopy;
pub mod session_lock;
pub mod virtual_pointer;
pub mod xdg_activation;
pub mod xdg_decoration;
pub mod xdg_shell;
