use vstd::prelude::*;

use crate::buffer::WriteError;

verus! {

/// A text sink that accepts everything and keeps nothing; it lets a format
/// be checked without producing output.
pub struct PrintWrapper;

impl PrintWrapper {
    /// Accepts `s` and discards it.
    pub fn write_str(&mut self, s: &str) -> (r: Result<(), WriteError>)
        ensures
            r is Ok,
    {
        Ok(())
    }
}

} // verus!
