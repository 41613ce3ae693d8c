//! Monazite core: the verified logic of a small embeddable browser shell.
//!
//! The centrepiece is the resumable download manager in [`download`]: a
//! registry of transfer records with a pause/resume/cancel lifecycle, a
//! sandbox resolver for destination paths, and the worker state machine
//! that drives each transfer. Around it stand the other pure subsystems of
//! the shell: HTML sanitising, layout, permissions, tab and process
//! bookkeeping, user scripts, and pixel utilities.

pub mod ai;
pub mod bus;
pub mod compositor;
pub mod crash;
pub mod dom;
pub mod download;
pub mod extensions;
pub mod frame;
pub mod framing;
pub mod htmlsrc;
pub mod isolation;
pub mod layout;
pub mod messages;
pub mod net;
pub mod permissions;
pub mod pixels;
pub mod port;
pub mod printing;
pub mod scripts;
pub mod tabs;
pub mod text;
pub mod update;
pub mod window_ai;

