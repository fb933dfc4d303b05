//! The one segment that a request path carries.

use crate::ring::identifier_text;
use crate::ring::parse_identifier;
use crate::ring::InputError;
use crate::ring::M;
use vstd::prelude::*;

verus! {

/// The variable segment of a request path: a key, or an identifier in
/// decimal.
pub struct PathExtractor {
    pub key: String,
}

impl PathExtractor {
    /// The identifier the segment denotes. A segment that is no identifier
    /// of the ring is rejected.
    pub fn identifier(&self) -> (id: Result<u64, InputError>)
        ensures
            id == identifier_text(self.key@),
            id matches Ok(v) ==> v < M,
    {
        parse_identifier(self.key.as_str())
    }
}

} // verus!
