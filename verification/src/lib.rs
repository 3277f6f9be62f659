//! Core of a voting-driven discussion board: identifier masking, sequential
//! identifier allocation, the vote ledger with its materialized counters, and
//! the assembly of comment trees.

pub mod api_types;
pub mod auth;
pub mod base64_serde;
pub mod comments;
pub mod conf;
pub mod expansion;
pub mod masked_oid;
pub mod middleware;
pub mod posts;
pub mod sequence;
pub mod services;
pub mod thread_laws;
pub mod types;
pub mod util;
pub mod utils;
pub mod votes;
