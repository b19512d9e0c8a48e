//! A WebSocket message router, as a verified state machine.
//!
//! Endpoints rendezvous under a shared eight-character identifier and have
//! their frames forwarded to one another, either as peers of a lobby or as
//! the hosts and clients of a host-client session. This crate holds the
//! registry of such sessions, the admission rules, the routing rule and the
//! per-connection forwarder; sockets, timers and locks belong to the caller.

pub mod config;
pub mod connections;
pub mod credentials;
pub mod forwarder;
pub mod ids;
pub mod register;
pub mod registry;
pub mod sockets;
pub mod stats;
pub mod text;

pub use config::{Color, Config, Matches};
pub use connections::Connection;
pub use forwarder::{Action, Forwarder, ForwarderState, Inbound};
pub use register::{RegisterRequest, Registration, RegistrationType, RemoveRequest};
pub use registry::{DrainReport, Registry};
pub use sockets::{Socket, SocketRequest, SocketType};
pub use stats::{return_stats, RegistrationStats, Stats, SystemStats};
