//! Helpers for the accounts of users.

pub mod hash;
