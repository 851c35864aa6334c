//! Core engine for building request URLs against a structured web API:
//! percent-encoding of record leaf values, `{name}`-template parsing and
//! substitution, build-time partitioning of record fields into path and
//! query parameters, and a pagination envelope derived from response
//! headers.
#![verifier::loop_isolation(false)]

use vstd::prelude::*;

pub mod emoji_str;
pub mod error;
pub mod laws;
pub mod partition;
pub mod percent;
pub mod query;
pub mod request;
pub mod search;
pub mod smo;
pub mod tags;
pub mod url;
pub mod utils;
pub mod value;

verus! {

} // verus!
