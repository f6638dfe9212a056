//! Core of a remote keyboard-and-mouse daemon: key tables, the wire
//! protocol, connection authentication and the pointer and button plans.

pub mod auth;
pub mod protocol;
pub mod server;
pub mod x11;
