//! What a version needs besides the client itself.
pub mod libraries;
