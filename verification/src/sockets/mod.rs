//! Admission of sockets and their roles.

pub mod rejections;
pub mod socket;
pub mod socket_request;

pub use rejections::Rejections;
pub use socket::Socket;
pub use socket::SocketType;
pub use socket_request::SocketRequest;
