//! Choices on the command line, and what is shown and told.
pub mod args;
pub mod args_laws;
pub mod dto;
pub mod dto_laws;
pub mod human;
pub mod human_laws;
