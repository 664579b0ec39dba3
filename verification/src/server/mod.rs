//! The HTTP server: what is decided for a request.

pub mod audio;
pub mod handlers;
pub mod json;
pub mod pipeline_registry;
pub mod request;
pub mod response;
