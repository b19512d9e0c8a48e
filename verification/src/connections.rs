//! Connections attached to a registration.

pub mod connection;

pub use connection::Connection;
pub use connection::ConnectionView;
