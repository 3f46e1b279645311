//! The output-assembly engine of a code formatter, together with the small
//! pure helpers that the surrounding command line tool relies on.
//!
//! The crate is verified with Verus: what a function promises stands in its
//! contract. The few functions that rest on the standard library without
//! proof are private and say so.

pub mod communication;
pub mod environment;
pub mod formatting;
pub mod paths;
pub mod text;
