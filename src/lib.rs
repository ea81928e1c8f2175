//! A multi-client chat and presence server core: the line-oriented wire
//! protocol, the command model, the dispatch table over caller roles, the
//! client registry and the retry/acknowledgement delivery protocol.
pub mod kind;
pub mod text;
pub mod params;
pub mod commands;
pub mod frame;
pub mod session;
pub mod delivery;
pub mod server;
pub mod behaviors;
