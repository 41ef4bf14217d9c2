//! The decisions of an on-demand build proxy.
//!
//! The proxy listens on one port and forwards every request to a child server that it started
//! itself. A file change stops the child; the next request starts it again.
//!
//! Everything that waits, spawns, connects or signals is done by the caller. This library says
//! what to do next, and holds what has to be remembered in between.

pub mod text;
pub mod watch;
pub mod ansi;
pub mod command;
pub mod child;
pub mod server;
pub mod stop;
pub mod proxy;
pub mod debounce;
