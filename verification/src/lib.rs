//! Verified core of a small HTTP client that a foreign host drives through a
//! C boundary.
//!
//! - [`gateway`] takes the bytes of a call for a request and gives the text
//!   that goes back, whatever way the call ends.
//! - [`executor`] decides what goes out for a request and turns how sending
//!   ended into the one response shape.
//! - [`model`] holds requests and responses and writes a response as it goes
//!   over the wire; [`schema`] reads a request out of a JSON document;
//!   [`json`] and [`text`] hold the JSON and character work below them.
//! - [`config`] is the protocol of loading and reloading the configuration
//!   script; [`lua`] holds the sandboxed interpreter it runs in.
//!
//! The library neither touches the network nor the file system: its callers
//! do, and hand it what they found.

use vstd::prelude::*;

pub mod config;
pub mod executor;
pub mod gateway;
pub mod json;
pub mod lua;
pub mod model;
pub mod schema;
pub mod text;

verus! {

/// The value a header's `enabled` flag takes when the request leaves it out.
pub fn default_true() -> (enabled: bool)
    ensures
        enabled,
{
    true
}

} // verus!
