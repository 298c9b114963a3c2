//! The functional-unit table: the renamed register file.

use std::rc::Rc;
use vstd::prelude::*;

use crate::units::rs::RsId;
use crate::value::{new, share_opt, Value, ValueInner};

verus! {

/// The number of slots in the functional-unit table.
pub const FU_SIZE: usize = 16;

/// The name of a functional-unit slot, as in `F6`. Names are the even numbers
/// below twice the table's size; the slot of a name is half its number.
#[derive(Debug, Clone, Copy, PartialEq, Eq, Hash, Structural)]
pub struct FuId(u8);

impl FuId {
    #[verifier::type_invariant]
    closed spec fn inv(self) -> bool {
        self.0 % 2 == 0 && self.0 < 32
    }

    /// The number in the name.
    pub closed spec fn number(self) -> int {
        self.0 as int
    }

    /// Whether the name is one of the table's.
    pub open spec fn wf(self) -> bool {
        0 <= self.number() < 2 * FU_SIZE && self.number() % 2 == 0
    }

    /// The index of the slot that the name stands for.
    pub open spec fn slot(self) -> int {
        self.number() / 2
    }

    /// The name with the number `id`.
    pub closed spec fn spec_new(id: u8) -> FuId {
        FuId(id)
    }

    /// The name with the number `id` has that number.
    pub proof fn lemma_number_of_new(id: u8)
        ensures
            FuId::spec_new(id).number() == id,
    {
    }

    /// Two names with one number are the same name.
    pub proof fn lemma_same_number(a: FuId, b: FuId)
        requires
            a.number() == b.number(),
        ensures
            a == b,
    {
    }

    /// The name with the number `id`, which is even and below twice the
    /// table's size.
    pub fn new(id: u8) -> (fu: FuId)
        requires
            id % 2 == 0,
            id < 2 * FU_SIZE,
        ensures
            fu == FuId::spec_new(id),
            fu.number() == id,
            fu.wf(),
    {
        FuId(id)
    }

    /// The name with the number `id`, if there is one.
    pub fn try_new(id: u8) -> (fu: Option<FuId>)
        ensures
            fu is Some <==> id % 2 == 0 && id < 2 * FU_SIZE,
            fu matches Some(f) ==> f == FuId::spec_new(id) && f.number() == id && f.wf(),
    {
        if id % 2 == 0 && id < 32 {
            Some(FuId(id))
        } else {
            None
        }
    }

    /// The name of the slot with the index `slot`.
    pub fn of_slot(slot: usize) -> (fu: FuId)
        requires
            slot < FU_SIZE,
        ensures
            fu.slot() == slot,
            fu.number() == 2 * slot,
            fu.wf(),
    {
        FuId((2 * slot) as u8)
    }

    /// The number in the name.
    pub fn id(&self) -> (n: u8)
        ensures
            n == self.number(),
            self.wf(),
    {
        proof {
            use_type_invariant(self);
        }
        self.0
    }

    /// The index of the slot that the name stands for.
    pub fn index(&self) -> (i: usize)
        ensures
            i == self.slot(),
            i < FU_SIZE,
            self.wf(),
    {
        proof {
            use_type_invariant(self);
        }
        (self.0 / 2) as usize
    }
}

/// One slot of the table: the station that will write it, if one is under
/// way, and the value it holds, if it holds one.
#[derive(Debug, PartialEq)]
pub struct FloatingUnitInner {
    pub qi: Option<RsId>,
    pub value: Option<Value>,
}

impl Default for FloatingUnitInner {
    fn default() -> (slot: FloatingUnitInner)
        ensures
            slot == (FloatingUnitInner { qi: None, value: None }),
    {
        FloatingUnitInner { qi: None, value: None }
    }
}

impl FloatingUnitInner {
    /// The slot with the constant `val`, given in hundredths, as its value.
    pub fn with_value(self, val: i64) -> (slot: Self)
        ensures
            slot == (FloatingUnitInner { qi: self.qi, value: Some(Rc::new(ValueInner::Float(val))) }),
    {
        FloatingUnitInner { qi: self.qi, value: Some(new(ValueInner::Float(val))) }
    }
}

impl Clone for FloatingUnitInner {
    /// A copy of the slot that shares its value.
    fn clone(&self) -> (copy: Self)
        ensures
            copy == *self,
    {
        FloatingUnitInner { qi: self.qi, value: share_opt(&self.value) }
    }
}

/// The slot `i` of a new table: no station is under way to it, and it holds
/// the constant `2 * i`.
pub open spec fn initial_slot(i: int) -> FloatingUnitInner {
    FloatingUnitInner { qi: None, value: Some(Rc::new(ValueInner::Float((200 * i) as i64))) }
}

/// The slots of a new table.
pub open spec fn initial_slots() -> Seq<FloatingUnitInner> {
    Seq::new(FU_SIZE as nat, |i: int| initial_slot(i))
}

/// The slots after the station `qi` has taken the slot `id` as the
/// destination of its instruction: the slot waits for `qi` and holds nothing.
pub open spec fn spec_mark_busy(slots: Seq<FloatingUnitInner>, id: FuId, qi: RsId) -> Seq<
    FloatingUnitInner,
> {
    slots.update(id.slot(), FloatingUnitInner { qi: Some(qi), value: None })
}

/// The slots after the station `qi` has offered `value` to the slot `id`:
/// the slot takes it if it still waits for `qi`, and nothing changes
/// otherwise.
pub open spec fn spec_mark_ready(
    slots: Seq<FloatingUnitInner>,
    id: FuId,
    qi: RsId,
    value: Value,
) -> Seq<FloatingUnitInner> {
    if slots[id.slot()].qi == Some(qi) {
        slots.update(id.slot(), FloatingUnitInner { qi: Some(qi), value: Some(value) })
    } else {
        slots
    }
}

/// What the first slot at or after `from` that names `qi` as its station
/// holds; nothing if no slot there names it.
pub open spec fn spec_owned_from(slots: Seq<FloatingUnitInner>, qi: RsId, from: int) -> Option<
    Value,
>
    decreases slots.len() - from,
{
    if from < 0 || from >= slots.len() {
        None
    } else if slots[from].qi == Some(qi) {
        slots[from].value
    } else {
        spec_owned_from(slots, qi, from + 1)
    }
}

/// What the slot that names `qi` as its station holds: of several, the first.
pub open spec fn spec_try_get_value(slots: Seq<FloatingUnitInner>, qi: RsId) -> Option<Value> {
    spec_owned_from(slots, qi, 0)
}

/// The slots without their stations: every slot keeps what it holds.
pub open spec fn spec_clear(slots: Seq<FloatingUnitInner>) -> Seq<FloatingUnitInner> {
    Seq::new(slots.len(), |i: int| FloatingUnitInner { qi: None, value: slots[i].value })
}

/// The functional-unit table.
#[derive(Debug, PartialEq)]
pub struct FloatingUnit {
    pub inner: [FloatingUnitInner; FU_SIZE],
}

impl View for FloatingUnit {
    type V = Seq<FloatingUnitInner>;

    open spec fn view(&self) -> Seq<FloatingUnitInner> {
        self.inner@
    }
}

impl Clone for FloatingUnit {
    /// A copy of the table that shares its values.
    fn clone(&self) -> (copy: Self)
        ensures
            copy@ == self@,
    {
        let copy = FloatingUnit {
            inner: [
                self.inner[0].clone(),
                self.inner[1].clone(),
                self.inner[2].clone(),
                self.inner[3].clone(),
                self.inner[4].clone(),
                self.inner[5].clone(),
                self.inner[6].clone(),
                self.inner[7].clone(),
                self.inner[8].clone(),
                self.inner[9].clone(),
                self.inner[10].clone(),
                self.inner[11].clone(),
                self.inner[12].clone(),
                self.inner[13].clone(),
                self.inner[14].clone(),
                self.inner[15].clone(),
            ],
        };
        assert(copy@ =~= self@);
        copy
    }
}

impl FloatingUnit {
    /// A table in which slot `i` holds the constant `2 * i` and waits for
    /// no station.
    pub fn new() -> (table: FloatingUnit)
        ensures
            table@ == initial_slots(),
    {
        let table = FloatingUnit {
            inner: [
                FloatingUnitInner::default().with_value(0),
                FloatingUnitInner::default().with_value(200),
                FloatingUnitInner::default().with_value(400),
                FloatingUnitInner::default().with_value(600),
                FloatingUnitInner::default().with_value(800),
                FloatingUnitInner::default().with_value(1000),
                FloatingUnitInner::default().with_value(1200),
                FloatingUnitInner::default().with_value(1400),
                FloatingUnitInner::default().with_value(1600),
                FloatingUnitInner::default().with_value(1800),
                FloatingUnitInner::default().with_value(2000),
                FloatingUnitInner::default().with_value(2200),
                FloatingUnitInner::default().with_value(2400),
                FloatingUnitInner::default().with_value(2600),
                FloatingUnitInner::default().with_value(2800),
                FloatingUnitInner::default().with_value(3000),
            ],
        };
        assert(table@ =~= initial_slots());
        table
    }

    /// Mark the floating unit as busy: the slot `id` waits for the station
    /// `qi` and holds nothing.
    pub fn mark_busy(&mut self, id: FuId, qi: RsId)
        ensures
            final(self)@ == spec_mark_busy(old(self)@, id, qi),
    {
        let i: usize = id.index();
        self.inner[i].qi = Some(qi);
        self.inner[i].value = None;
        assert(self@ =~= spec_mark_busy(old(self)@, id, qi));
    }

    /// Mark the floating unit as ready: the slot `id` takes `value` if it
    /// still waits for the station `qi`. A slot that another station has
    /// taken since keeps waiting for that one.
    pub fn mark_ready(&mut self, id: FuId, qi: RsId, value: Value)
        ensures
            final(self)@ == spec_mark_ready(old(self)@, id, qi, value),
    {
        let i: usize = id.index();
        if self.inner[i].qi == Some(qi) {
            self.inner[i].value = Some(value);
        }
        assert(self@ =~= spec_mark_ready(old(self)@, id, qi, value));
    }

    /// The slot `id`.
    pub fn get(&self, id: FuId) -> (slot: &FloatingUnitInner)
        ensures
            *slot == self@[id.slot()],
            id.wf(),
    {
        &self.inner[id.index()]
    }

    /// What the slot that names the station `qi` holds, if a slot names it
    /// and holds a value; of several such slots the first decides.
    pub fn try_get_value(&self, qi: RsId) -> (value: Option<Value>)
        ensures
            value == spec_try_get_value(self@, qi),
    {
        let mut i: usize = 0;
        while i < FU_SIZE
            invariant
                i <= FU_SIZE,
                self@.len() == FU_SIZE,
                spec_try_get_value(self@, qi) == spec_owned_from(self@, qi, i as int),
            decreases FU_SIZE - i,
        {
            if self.inner[i].qi == Some(qi) {
                return share_opt(&self.inner[i].value);
            }
            i = i + 1;
        }
        None
    }

    /// Forget the stations: every slot keeps what it holds and waits for
    /// none.
    pub fn clear(&mut self)
        ensures
            final(self)@ == spec_clear(old(self)@),
    {
        let mut i: usize = 0;
        while i < FU_SIZE
            invariant
                i <= FU_SIZE,
                self@.len() == FU_SIZE,
                old(self)@.len() == FU_SIZE,
                forall|j: int| 0 <= j < i ==> self@[j] == spec_clear(old(self)@)[j],
                forall|j: int| i <= j < FU_SIZE ==> self@[j] == old(self)@[j],
            decreases FU_SIZE - i,
        {
            self.inner[i].qi = None;
            i = i + 1;
        }
        assert(self@ =~= spec_clear(old(self)@));
    }
}

} // verus!
