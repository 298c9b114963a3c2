//! Integer registers, which hold base addresses.

use vstd::prelude::*;

verus! {

/// The number of an integer register, as in `R2`.
#[derive(Debug, Clone, Copy, PartialEq, Eq, Hash, Structural)]
pub struct RegId(pub u8);

impl RegId {
    /// The register with the number `id`.
    pub fn new(id: u8) -> (reg: RegId)
        ensures
            reg == RegId(id),
    {
        RegId(id)
    }

    /// The register's number.
    pub fn number(&self) -> (n: u8)
        ensures
            n == self.0,
    {
        self.0
    }
}

} // verus!
