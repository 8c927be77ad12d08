//! The rules of a Wayland compositor for a 4Dwm-style desktop: where windows go, what each operation
//! does to them, what clients are told, and what is drawn. What needs a display, a socket or a file
//! is left to the program around it.
pub mod cache;
pub mod config;
pub mod configuring;
pub mod defaults;
pub mod desk_ops;
pub mod geometry;
pub mod handlers;
pub mod handshake;
pub mod hdr;
pub mod head_protocol;
pub mod icon_image;
pub mod icons;
pub mod idle;
pub mod image_capture;
pub mod input;
pub mod invocation;
pub mod keybinds;
pub mod layering;
pub mod logging;
pub mod menu;
pub mod minimized;
pub mod opening;
pub mod outcomes;
pub mod output_management;
pub mod outputs;
pub mod paths;
pub mod pidfile;
pub mod placement;
pub mod pointer_constraints;
pub mod power;
pub mod render;
pub mod routing;
pub mod scan;
pub mod screencopy;
pub mod security_context;
pub mod session_lock;
pub mod shell_rules;
pub mod spawn;
pub mod stacking;
pub mod state;
pub mod table;
pub mod text;
pub mod theme_export;
pub mod theme_names;
pub mod thumbnail;
pub mod vrr;
pub mod window_ops;
pub mod workspace_protocol;
pub mod x11_menu;
