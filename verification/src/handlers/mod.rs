//! What the compositor decides when a client asks for something.
pub mod clients;
pub mod layer_shell;
pub mod xdg_shell;
pub mod xwayland;
