//! Fast native launcher front end for a slower interpreted CLI tool.
//!
//! The library holds the verified core: a versioned, keyed, time-bounded
//! cache of rebranded help text, the pure text rebrander, the runtime and
//! entry-point resolution logic, and the dispatch decisions.

use vstd::prelude::*;

pub mod cache;
pub mod dispatch;
pub mod errors;
pub mod installer;
pub mod rebrand;
pub mod runtime;
pub mod text;

verus! {

/// Version of the delegated tool that this launcher targets.
pub const OPENCLAW_VERSION: &'static str = "2026.2.1";

/// Version of the launcher itself.
pub const CHITIN_VERSION: &'static str = "0.1.0";

} // verus!
