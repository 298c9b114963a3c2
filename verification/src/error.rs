//! The ways in which loading or running a program fails.

use vstd::prelude::*;

verus! {

/// A failure of the simulation. Either one ends the run: nothing is retried.
#[derive(Debug, Clone, Copy, PartialEq, Eq, Hash, Structural)]
pub enum SimError {
    /// An instruction lacks an operand, or names something else where it has
    /// to name a functional unit.
    InvariantViolation,
    /// The cycle counter went past the ceiling before every instruction had
    /// written back.
    SimulationDivergence,
}

} // verus!
