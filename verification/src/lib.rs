//! Verified core of the coding-agent CLI provider and the Matrix room tools.
//!
//! The library holds the logic: directive parsing, the session store,
//! command-line assembly, response post-processing, URL path encoding and the
//! formatting of Matrix tool results.  Process spawning, HTTP and JSON
//! decoding live in the companion application crate.
pub mod text;
pub mod directive;
pub mod claude_code;
pub mod encoding;
pub mod matrix;
