//! The embedded scripting host.

pub mod runtime;
