//! The symbolic values that operands and results are expressed in.
//!
//! A value is an immutable tree: constants and unit references at the leaves,
//! deferred operations above them. A node is built from nodes that exist
//! already, so no value contains itself, and nodes are shared by reference
//! counting.

use std::rc::Rc;
use vstd::prelude::*;

use crate::inst::Type;
use crate::units::fu::FuId;
use crate::units::Unit;

verus! {

/// A shared value.
pub type Value = Rc<ValueInner>;

/// One node of a value.
#[derive(Debug, PartialEq)]
pub enum ValueInner {
    /// An immediate value.
    Imm(i64),
    /// A constant with two decimal places, held in hundredths.
    Float(i64),
    /// A unit.
    Unit(Unit),
    /// A memory address.
    MemAddr(Value),
    /// A operation.
    Op(Type, Value, Value),
}

/// Puts a node behind a shared pointer.
pub fn new(inner: ValueInner) -> (value: Value)
    ensures
        *value == inner,
{
    Rc::new(inner)
}

/// The deferred operation `t` on `v1` and `v2`.
pub fn apply_op(t: Type, v1: Value, v2: Value) -> (value: Value)
    ensures
        *value == ValueInner::Op(t, v1, v2),
{
    new(ValueInner::Op(t, v1, v2))
}

/// Another pointer to the value behind `value`.
///
/// Trusted: `Rc::clone` returns a pointer to the same allocation, so what it
/// returns holds the same value.
#[verifier::external_body]
pub(crate) fn share(value: &Value) -> (shared: Value)
    ensures
        shared == *value,
{
    Rc::clone(value)
}

/// Another pointer to the value behind `value`, if there is one.
pub fn share_opt(value: &Option<Value>) -> (shared: Option<Value>)
    ensures
        shared == *value,
{
    match value {
        Some(v) => Some(share(v)),
        None => None,
    }
}

impl Clone for ValueInner {
    /// A copy of the node that shares what is below it.
    fn clone(&self) -> (copy: Self)
        ensures
            copy == *self,
    {
        match self {
            ValueInner::Imm(v) => ValueInner::Imm(*v),
            ValueInner::Float(v) => ValueInner::Float(*v),
            ValueInner::Unit(u) => ValueInner::Unit(*u),
            ValueInner::MemAddr(v) => ValueInner::MemAddr(share(v)),
            ValueInner::Op(t, v1, v2) => ValueInner::Op(*t, share(v1), share(v2)),
        }
    }
}

/// The functional unit that `value` names, if it is a reference to one.
pub open spec fn spec_fu_ref(value: Option<Value>) -> Option<FuId> {
    match value {
        Some(v) => match *v {
            ValueInner::Unit(Unit::Fu(id)) => Some(id),
            _ => None,
        },
        None => None,
    }
}

/// The functional unit that `value` names, if it is a reference to one.
pub fn fu_ref(value: &Option<Value>) -> (id: Option<FuId>)
    ensures
        id == spec_fu_ref(*value),
        id matches Some(f) ==> f.wf(),
{
    match value {
        Some(v) => match &**v {
            ValueInner::Unit(Unit::Fu(id)) => {
                let _ = id.index();
                Some(*id)
            },
            _ => None,
        },
        None => None,
    }
}

impl From<i64> for ValueInner {
    fn from(v: i64) -> (value: ValueInner) {
        ValueInner::Imm(v)
    }
}

impl vstd::std_specs::convert::FromSpecImpl<i64> for ValueInner {
    open spec fn obeys_from_spec() -> bool {
        true
    }

    open spec fn from_spec(v: i64) -> ValueInner {
        ValueInner::Imm(v)
    }
}

impl From<Unit> for ValueInner {
    fn from(u: Unit) -> (value: ValueInner) {
        ValueInner::Unit(u)
    }
}

impl vstd::std_specs::convert::FromSpecImpl<Unit> for ValueInner {
    open spec fn obeys_from_spec() -> bool {
        true
    }

    open spec fn from_spec(u: Unit) -> ValueInner {
        ValueInner::Unit(u)
    }
}

impl From<Value> for ValueInner {
    fn from(v: Value) -> (value: ValueInner) {
        ValueInner::MemAddr(v)
    }
}

impl vstd::std_specs::convert::FromSpecImpl<Value> for ValueInner {
    open spec fn obeys_from_spec() -> bool {
        true
    }

    open spec fn from_spec(v: Value) -> ValueInner {
        ValueInner::MemAddr(v)
    }
}

impl From<(Type, Value, Value)> for ValueInner {
    fn from(t: (Type, Value, Value)) -> (value: ValueInner) {
        ValueInner::Op(t.0, t.1, t.2)
    }
}

impl vstd::std_specs::convert::FromSpecImpl<(Type, Value, Value)> for ValueInner {
    open spec fn obeys_from_spec() -> bool {
        true
    }

    open spec fn from_spec(t: (Type, Value, Value)) -> ValueInner {
        ValueInner::Op(t.0, t.1, t.2)
    }
}

} // verus!
