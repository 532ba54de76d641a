//! Verified core of a multi-process message bus: wire types, frame codec,
//! service registry, broker routing, client and supervisor decisions.

pub mod text;
pub mod std_extra;
pub mod frame;
pub mod codec;
pub mod catalog;
pub mod shared_map;
pub mod registry;
pub mod broker;
pub mod session;
pub mod client;
pub mod transport;
pub mod supervisor;
pub mod auth;
pub mod cli;
