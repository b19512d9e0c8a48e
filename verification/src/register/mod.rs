//! Registrations and the requests that create and remove them.

pub mod identifier;
pub mod register_request;
pub mod registration;
pub mod rejections;
pub mod remove_request;

pub use register_request::RegisterRequest;
pub use registration::Registration;
pub use registration::RegistrationType;
pub use rejections::Rejections;
pub use remove_request::RemoveRequest;
