//! A verified codec for RFC 2616 request header fields: a typed model of the
//! known header fields plus extension fields, with serialization to
//! `Name: value` wire lines and parsing back from name/value pairs.
pub mod collection;
pub mod date;
pub mod header;
pub mod laws;
pub mod num;
pub mod quoting;
pub mod tokens;
pub mod util;

use vstd::prelude::*;

verus! {

} // verus!
