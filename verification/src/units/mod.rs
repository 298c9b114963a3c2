//! The units an operand can name: reservation stations, functional units and
//! registers.

pub mod fu;
pub mod regs;
pub mod rs;

use vstd::prelude::*;

use self::fu::FuId;
use self::regs::RegId;
use self::rs::RsId;

verus! {

/// A unit that an operand or a destination refers to.
#[derive(Debug, Clone, Copy, PartialEq, Eq, Hash, Structural)]
pub enum Unit {
    /// Reservation station unit
    Rs(RsId),
    /// Floating point unit
    Fu(FuId),
    /// Register unit
    Regs(RegId),
}

impl From<RsId> for Unit {
    fn from(id: RsId) -> (unit: Unit) {
        Unit::Rs(id)
    }
}

impl vstd::std_specs::convert::FromSpecImpl<RsId> for Unit {
    open spec fn obeys_from_spec() -> bool {
        true
    }

    open spec fn from_spec(id: RsId) -> Unit {
        Unit::Rs(id)
    }
}

impl From<FuId> for Unit {
    fn from(id: FuId) -> (unit: Unit) {
        Unit::Fu(id)
    }
}

impl vstd::std_specs::convert::FromSpecImpl<FuId> for Unit {
    open spec fn obeys_from_spec() -> bool {
        true
    }

    open spec fn from_spec(id: FuId) -> Unit {
        Unit::Fu(id)
    }
}

impl From<RegId> for Unit {
    fn from(id: RegId) -> (unit: Unit) {
        Unit::Regs(id)
    }
}

impl vstd::std_specs::convert::FromSpecImpl<RegId> for Unit {
    open spec fn obeys_from_spec() -> bool {
        true
    }

    open spec fn from_spec(id: RegId) -> Unit {
        Unit::Regs(id)
    }
}

} // verus!
