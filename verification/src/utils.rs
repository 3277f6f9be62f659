//! Helpers that several parts of the board share.

pub mod content_scoring;
