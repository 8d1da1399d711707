//! The parser's helpers, under the path where its callers look for them.

pub use crate::digest::sha256_hex;
pub use crate::links::bump_domain_count;
pub use crate::text::normalize_ws;
