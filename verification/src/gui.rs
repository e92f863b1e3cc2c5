//! The desktop interface.
pub mod dto;
pub mod service;
pub mod service_laws;
