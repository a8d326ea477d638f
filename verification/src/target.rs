//! Identities of target manifests.

use vstd::prelude::*;

verus! {

/// Immutable target manifest identity, as lowercase hexadecimal SHA-256 text.
#[derive(Debug)]
pub struct TargetHash(pub String);

impl TargetHash {
    /// Creates a hash from lowercase hexadecimal text.
    pub fn new(value: String) -> (r: Self)
        ensures
            r.0@ == value@,
    {
        TargetHash(value)
    }

    /// Returns the lowercase hexadecimal text.
    pub fn as_str(&self) -> (r: &str)
        ensures
            r@ == self.0@,
    {
        self.0.as_str()
    }

    /// Copies the hash.
    pub fn copy(&self) -> (r: Self)
        ensures
            r.0@ == self.0@,
    {
        TargetHash(self.0.clone())
    }
}

} // verus!
