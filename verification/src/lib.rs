//! A verified codec and client core for the Internet Printing Protocol (IPP).
//!
//! IPP messages are a compact binary format carried in HTTP POST bodies: an
//! eight-byte header, delimiter-separated groups of named, typed attribute
//! values, an end-of-attributes marker, and an optional opaque payload.
//! This crate models that wire format, proves the encoder and the parser
//! inverse to each other, and verifies the request builders, status
//! classification and printer-readiness rules that a client needs.
//! The HTTP transport itself is left to the caller.

use vstd::prelude::*;

pub mod attribute;
pub mod codec;
pub mod laws;
pub mod model;
pub mod names;
pub mod operation;
pub mod optparse;
pub mod parse;
pub mod request;
pub mod status;
pub mod value;
pub mod wire;

verus! {

} // verus!
