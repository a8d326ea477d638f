//! Identities of ScheduleIR plans.

use vstd::prelude::*;

verus! {

/// Exact ScheduleIR identity, as lowercase hexadecimal SHA-256 text.
#[derive(Debug)]
pub struct ScheduleHash(pub String);

impl ScheduleHash {
    /// Creates a hash from lowercase hexadecimal text.
    pub fn new(value: String) -> (r: Self)
        ensures
            r.0@ == value@,
    {
        ScheduleHash(value)
    }

    /// Returns the lowercase hexadecimal text.
    pub fn as_str(&self) -> (r: &str)
        ensures
            r@ == self.0@,
    {
        self.0.as_str()
    }

    /// Copies the hash.
    pub fn copy(&self) -> (r: Self)
        ensures
            r.0@ == self.0@,
    {
        ScheduleHash(self.0.clone())
    }
}

} // verus!
