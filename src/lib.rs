//! Lazily bound operating-system entry points.
//!
//! A process-wide registry loads each named dynamic library at most once,
//! symbol bindings resolve a typed entry point from it at most once, a
//! generator turns a batch of tagged declarations into those bindings, and a
//! capability ladder answers which DPI feature tier the system offers.
use vstd::prelude::*;

pub mod binding;
pub mod context;
pub mod dpi;
pub mod generator;
pub mod registry;
pub mod wide;

verus! {

} // verus!
