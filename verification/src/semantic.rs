//! Semantic identities of frozen SpecIR.

use vstd::prelude::*;

verus! {

/// Frozen SpecIR semantic identity, as lowercase hexadecimal SHA-256 text.
#[derive(Debug)]
pub struct SpecHash(pub String);

impl SpecHash {
    /// Creates a hash from lowercase hexadecimal text.
    pub fn new(value: String) -> (r: Self)
        ensures
            r.0@ == value@,
    {
        SpecHash(value)
    }

    /// Returns the lowercase hexadecimal text.
    pub fn as_str(&self) -> (r: &str)
        ensures
            r@ == self.0@,
    {
        self.0.as_str()
    }

    /// Copies the hash.
    pub fn copy(&self) -> (r: Self)
        ensures
            r.0@ == self.0@,
    {
        SpecHash(self.0.clone())
    }
}

} // verus!
