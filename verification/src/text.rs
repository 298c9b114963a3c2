//! Plain text for what the engine holds: numbers, the names of units, values,
//! and the rows of a report. Colours and the terminal are left to whoever
//! prints the text.

use vstd::prelude::*;
use vstd::string::{StrSliceExecFns, StringExecFns};

use crate::executer::Executer;
use crate::inst::{Instruction, Type};
use crate::units::fu::{FloatingUnit, FloatingUnitInner, FuId, FU_SIZE};
use crate::units::regs::RegId;
use crate::units::rs::{ReservationStation, RsId, RsInner, RsState, RsType};
use crate::units::Unit;
use crate::value::{Value, ValueInner};

verus! {

/// The character for the digit `d`.
pub open spec fn spec_digit(d: int) -> char {
    seq!['0', '1', '2', '3', '4', '5', '6', '7', '8', '9'][d]
}

/// The digits of `n` in base ten, without leading zeros.
pub open spec fn spec_decimal_nat(n: nat) -> Seq<char>
    decreases n,
{
    if n < 10 {
        seq![spec_digit(n as int)]
    } else {
        spec_decimal_nat(n / 10).push(spec_digit((n % 10) as int))
    }
}

/// The integer `n` in base ten, with a minus sign if it is negative.
pub open spec fn spec_decimal(n: int) -> Seq<char> {
    if n < 0 {
        seq!['-'] + spec_decimal_nat((-n) as nat)
    } else {
        spec_decimal_nat(n as nat)
    }
}

/// The constant of `h` hundredths with its two decimal places, as in
/// `-0.05`.
pub open spec fn spec_hundredths(h: int) -> Seq<char> {
    let m = if h < 0 {
        -h
    } else {
        h
    };
    let sign: Seq<char> = if h < 0 {
        seq!['-']
    } else {
        Seq::empty()
    };
    sign + spec_decimal_nat((m / 100) as nat) + seq![
        '.',
        spec_digit((m / 10) % 10),
        spec_digit(m % 10),
    ]
}

/// `s`, with blanks after it as far as it is shorter than `width`.
pub open spec fn spec_pad_right(s: Seq<char>, width: nat) -> Seq<char> {
    if s.len() >= width {
        s
    } else {
        s + Seq::new((width - s.len()) as nat, |i: int| ' ')
    }
}

/// `s`, with blanks before it as far as it is shorter than `width`.
pub open spec fn spec_pad_left(s: Seq<char>, width: nat) -> Seq<char> {
    if s.len() >= width {
        s
    } else {
        Seq::new((width - s.len()) as nat, |i: int| ' ') + s
    }
}

/// The digit `d` as text.
fn digit_str(d: u64) -> (text: &'static str)
    requires
        d < 10,
    ensures
        text@ == seq![spec_digit(d as int)],
{
    proof {
        reveal_strlit("0");
        reveal_strlit("1");
        reveal_strlit("2");
        reveal_strlit("3");
        reveal_strlit("4");
        reveal_strlit("5");
        reveal_strlit("6");
        reveal_strlit("7");
        reveal_strlit("8");
        reveal_strlit("9");
    }
    let text = if d == 0 {
        "0"
    } else if d == 1 {
        "1"
    } else if d == 2 {
        "2"
    } else if d == 3 {
        "3"
    } else if d == 4 {
        "4"
    } else if d == 5 {
        "5"
    } else if d == 6 {
        "6"
    } else if d == 7 {
        "7"
    } else if d == 8 {
        "8"
    } else {
        "9"
    };
    assert(text@ =~= seq![spec_digit(d as int)]);
    text
}

/// The number `n` in base ten.
pub fn decimal_u64(n: u64) -> (text: String)
    ensures
        text@ == spec_decimal_nat(n as nat),
    decreases n,
{
    if n < 10 {
        String::from_str(digit_str(n))
    } else {
        let mut text = decimal_u64(n / 10);
        text.append(digit_str(n % 10));
        assert(text@ =~= spec_decimal_nat(n as nat));
        text
    }
}

/// The size of `n` without its sign.
fn magnitude(n: i64) -> (m: u64)
    ensures
        m == if n < 0 {
            -n
        } else {
            n as int
        },
{
    if n == i64::MIN {
        0x8000_0000_0000_0000
    } else if n < 0 {
        (-n) as u64
    } else {
        n as u64
    }
}

/// The integer `n` in base ten.
pub fn decimal(n: i64) -> (text: String)
    ensures
        text@ == spec_decimal(n as int),
{
    let digits = decimal_u64(magnitude(n));
    if n < 0 {
        proof {
            reveal_strlit("-");
        }
        let mut text = String::from_str("-");
        text.append(digits.as_str());
        assert(text@ =~= spec_decimal(n as int));
        text
    } else {
        digits
    }
}

/// The constant of `h` hundredths with its two decimal places.
pub fn hundredths(h: i64) -> (text: String)
    ensures
        text@ == spec_hundredths(h as int),
{
    proof {
        reveal_strlit("-");
        reveal_strlit("");
        reveal_strlit(".");
    }
    let m: u64 = magnitude(h);
    let mut text = String::from_str(
        if h < 0 {
            "-"
        } else {
            ""
        },
    );
    text.append(decimal_u64(m / 100).as_str());
    text.append(".");
    text.append(digit_str((m / 10) % 10));
    text.append(digit_str(m % 10));
    assert(text@ =~= spec_hundredths(h as int));
    text
}

/// `text`, with blanks after it as far as it is shorter than `width`.
pub fn pad_right(text: String, width: usize) -> (padded: String)
    ensures
        padded@ == spec_pad_right(text@, width as nat),
{
    proof {
        reveal_strlit(" ");
    }
    let n: usize = text.as_str().unicode_len();
    let mut padded = text;
    let mut i: usize = n;
    while i < width
        invariant
            n == text@.len(),
            n <= i,
            n < width ==> i <= width,
            n >= width ==> i == n,
            padded@ == text@ + Seq::new((i - n) as nat, |j: int| ' '),
        decreases width - i,
    {
        proof {
            reveal_strlit(" ");
        }
        padded.append(" ");
        i = i + 1;
        assert(" "@ =~= seq![' ']);
        assert(padded@ =~= text@ + Seq::new((i - n) as nat, |j: int| ' '));
    }
    assert(padded@ =~= spec_pad_right(text@, width as nat));
    padded
}

/// `text`, with blanks before it as far as it is shorter than `width`.
pub fn pad_left(text: String, width: usize) -> (padded: String)
    ensures
        padded@ == spec_pad_left(text@, width as nat),
{
    proof {
        reveal_strlit(" ");
        reveal_strlit("");
    }
    let n: usize = text.as_str().unicode_len();
    let mut padded = String::from_str("");
    let mut i: usize = n;
    while i < width
        invariant
            n == text@.len(),
            n <= i,
            n < width ==> i <= width,
            n >= width ==> i == n,
            padded@ == Seq::new((i - n) as nat, |j: int| ' '),
        decreases width - i,
    {
        proof {
            reveal_strlit(" ");
        }
        padded.append(" ");
        i = i + 1;
        assert(" "@ =~= seq![' ']);
        assert(padded@ =~= Seq::new((i - n) as nat, |j: int| ' '));
    }
    padded.append(text.as_str());
    assert(padded@ =~= spec_pad_left(text@, width as nat));
    padded
}

impl Type {
    /// The name of the operation.
    pub open spec fn spec_name(self) -> Seq<char> {
        match self {
            Type::ADDD => seq!['A', 'D', 'D', 'D'],
            Type::SUBD => seq!['S', 'U', 'B', 'D'],
            Type::MULTD => seq!['M', 'U', 'L', 'T', 'D'],
            Type::DIVD => seq!['D', 'I', 'V', 'D'],
            Type::LD => seq!['L', 'D'],
            Type::SD => seq!['S', 'D'],
        }
    }

    /// The name of the operation.
    pub fn name(self) -> (name: &'static str)
        ensures
            name@ == self.spec_name(),
    {
        proof {
            reveal_strlit("ADDD");
            reveal_strlit("SUBD");
            reveal_strlit("MULTD");
            reveal_strlit("DIVD");
            reveal_strlit("LD");
            reveal_strlit("SD");
        }
        let name = match self {
            Type::ADDD => "ADDD",
            Type::SUBD => "SUBD",
            Type::MULTD => "MULTD",
            Type::DIVD => "DIVD",
            Type::LD => "LD",
            Type::SD => "SD",
        };
        assert(name@ =~= self.spec_name());
        name
    }
}

impl RsType {
    /// The name of the kind.
    pub open spec fn spec_name(self) -> Seq<char> {
        match self {
            RsType::ADD => seq!['A', 'D', 'D'],
            RsType::MULT => seq!['M', 'U', 'L', 'T'],
            RsType::LOAD => seq!['L', 'O', 'A', 'D'],
            RsType::STORE => seq!['S', 'T', 'O', 'R', 'E'],
        }
    }

    /// The name of the kind.
    pub fn name(self) -> (name: &'static str)
        ensures
            name@ == self.spec_name(),
    {
        proof {
            reveal_strlit("ADD");
            reveal_strlit("MULT");
            reveal_strlit("LOAD");
            reveal_strlit("STORE");
        }
        let name = match self {
            RsType::ADD => "ADD",
            RsType::MULT => "MULT",
            RsType::LOAD => "LOAD",
            RsType::STORE => "STORE",
        };
        assert(name@ =~= self.spec_name());
        name
    }
}

impl RsState {
    /// The name of the state, as a report shows it.
    pub open spec fn spec_name(self) -> Seq<char> {
        match self {
            RsState::Free => seq!['F', 'r', 'e', 'e'],
            RsState::Busy => seq!['B', 'u', 's', 'y'],
            RsState::Calculating => seq!['C', 'a', 'l', 'c'],
            RsState::Ready => seq!['R', 'e', 'a', 'd', 'y'],
        }
    }

    /// The name of the state, as a report shows it.
    pub fn name(self) -> (name: &'static str)
        ensures
            name@ == self.spec_name(),
    {
        proof {
            reveal_strlit("Free");
            reveal_strlit("Busy");
            reveal_strlit("Calc");
            reveal_strlit("Ready");
        }
        let name = match self {
            RsState::Free => "Free",
            RsState::Busy => "Busy",
            RsState::Calculating => "Calc",
            RsState::Ready => "Ready",
        };
        assert(name@ =~= self.spec_name());
        name
    }
}

impl RsId {
    /// The station's name: its kind and its index, as in `MULT1`.
    pub open spec fn spec_label(self) -> Seq<char> {
        self.0.spec_name() + spec_decimal_nat(self.1 as nat)
    }

    /// The station's name: its kind and its index, as in `MULT1`.
    pub fn label(&self) -> (label: String)
        ensures
            label@ == self.spec_label(),
    {
        let mut label = String::from_str(self.0.name());
        label.append(decimal_u64(self.1 as u64).as_str());
        label
    }
}

impl RegId {
    /// The register's name, as in `R2`.
    pub open spec fn spec_label(self) -> Seq<char> {
        seq!['R'] + spec_decimal_nat(self.0 as nat)
    }

    /// The register's name, as in `R2`.
    pub fn label(&self) -> (label: String)
        ensures
            label@ == self.spec_label(),
    {
        proof {
            reveal_strlit("R");
        }
        let mut label = String::from_str("R");
        label.append(decimal_u64(self.0 as u64).as_str());
        assert(label@ =~= self.spec_label());
        label
    }
}

impl FuId {
    /// The functional unit's name with two digits, as in `F06`.
    pub open spec fn spec_label(self) -> Seq<char> {
        seq!['F', spec_digit(self.number() / 10), spec_digit(self.number() % 10)]
    }

    /// The functional unit's name with two digits, as in `F06`.
    pub fn label(&self) -> (label: String)
        ensures
            label@ == self.spec_label(),
    {
        proof {
            reveal_strlit("F");
        }
        let n: u64 = self.id() as u64;
        let mut label = String::from_str("F");
        label.append(digit_str(n / 10));
        label.append(digit_str(n % 10));
        assert(label@ =~= self.spec_label());
        label
    }
}

impl Unit {
    /// The unit's name.
    pub open spec fn spec_label(self) -> Seq<char> {
        match self {
            Unit::Rs(id) => id.spec_label(),
            Unit::Fu(id) => id.spec_label(),
            Unit::Regs(id) => id.spec_label(),
        }
    }

    /// The unit's name.
    pub fn label(&self) -> (label: String)
        ensures
            label@ == self.spec_label(),
    {
        match self {
            Unit::Rs(id) => id.label(),
            Unit::Fu(id) => id.label(),
            Unit::Regs(id) => id.label(),
        }
    }
}

impl ValueInner {
    /// The value at a glance: a leaf as it is, anything larger by its
    /// outermost node alone.
    pub open spec fn spec_brief(self) -> Seq<char> {
        match self {
            ValueInner::Imm(v) => spec_decimal(v as int),
            ValueInner::Float(v) => spec_hundredths(v as int),
            ValueInner::Unit(u) => u.spec_label(),
            ValueInner::MemAddr(_) => seq!['M', '[', '.', '.', ']'],
            ValueInner::Op(t, _, _) => seq!['.', '.'] + t.spec_op_str() + seq!['.', '.'],
        }
    }

    /// The value in full: a memory address as `M[..]` around the address,
    /// an operation in brackets with its sign between the operands.
    pub open spec fn spec_text(self) -> Seq<char>
        decreases self,
    {
        match self {
            ValueInner::Imm(v) => spec_decimal(v as int),
            ValueInner::Float(v) => spec_hundredths(v as int),
            ValueInner::Unit(u) => u.spec_label(),
            ValueInner::MemAddr(v) => seq!['M', '['] + v.spec_text() + seq![']'],
            ValueInner::Op(t, v1, v2) => seq!['('] + v1.spec_text() + t.spec_op_str() + v2.spec_text()
                + seq![')'],
        }
    }

    /// The value at a glance.
    pub fn brief(&self) -> (text: String)
        ensures
            text@ == self.spec_brief(),
    {
        proof {
            reveal_strlit("M[..]");
            reveal_strlit("..");
        }
        match self {
            ValueInner::Imm(v) => decimal(*v),
            ValueInner::Float(v) => hundredths(*v),
            ValueInner::Unit(u) => u.label(),
            ValueInner::MemAddr(_) => {
                let text = String::from_str("M[..]");
                assert(text@ =~= self.spec_brief());
                text
            },
            ValueInner::Op(t, _, _) => {
                let mut text = String::from_str("..");
                text.append(t.op_str());
                text.append("..");
                assert(text@ =~= self.spec_brief());
                text
            },
        }
    }

    /// The value in full.
    pub fn text(&self) -> (text: String)
        ensures
            text@ == self.spec_text(),
        decreases self,
    {
        proof {
            reveal_strlit("M[");
            reveal_strlit("]");
            reveal_strlit("(");
            reveal_strlit(")");
        }
        match self {
            ValueInner::Imm(v) => decimal(*v),
            ValueInner::Float(v) => hundredths(*v),
            ValueInner::Unit(u) => u.label(),
            ValueInner::MemAddr(v) => {
                let mut text = String::from_str("M[");
                text.append((&**v).text().as_str());
                text.append("]");
                assert(text@ =~= self.spec_text());
                text
            },
            ValueInner::Op(t, v1, v2) => {
                let mut text = String::from_str("(");
                text.append((&**v1).text().as_str());
                text.append(t.op_str());
                text.append((&**v2).text().as_str());
                text.append(")");
                assert(text@ =~= self.spec_text());
                text
            },
        }
    }
}

/// The cycle `cycle`, or a blank if there is none.
pub open spec fn spec_cycle_text(cycle: Option<u64>) -> Seq<char> {
    match cycle {
        Some(c) => spec_decimal_nat(c as nat),
        None => seq![' '],
    }
}

/// The cycle `cycle`, or a blank if there is none.
pub fn cycle_text(cycle: Option<u64>) -> (text: String)
    ensures
        text@ == spec_cycle_text(cycle),
{
    proof {
        reveal_strlit(" ");
    }
    match cycle {
        Some(c) => decimal_u64(c),
        None => {
            let text = String::from_str(" ");
            assert(text@ =~= seq![' ']);
            text
        },
    }
}

impl Instruction {
    /// The instruction as it is written: operation, destination and the two
    /// operands, with a blank between them.
    pub open spec fn spec_text(self) -> Seq<char> {
        self.op.spec_name() + seq![' '] + self.dest.spec_label() + seq![' '] + self.src1->0.spec_text()
            + seq![' '] + self.src2->0.spec_text()
    }

    /// The instruction's row in the table of a run: the instruction in a
    /// column of twenty characters, then the cycles of issue, start, end
    /// and write-back, each in a column of three.
    pub open spec fn spec_row(self) -> Seq<char> {
        spec_pad_right(self.spec_text(), 20) + seq![':', ' '] + spec_pad_left(
            spec_cycle_text(self.emit_cycle),
            3,
        ) + seq![',', ' '] + spec_pad_left(spec_cycle_text(self.start_cycle), 3) + seq![',', ' ']
            + spec_pad_left(spec_cycle_text(self.exec_cycle), 3) + seq![',', ' '] + spec_pad_left(
            spec_cycle_text(self.write_cycle),
            3,
        )
    }

    /// The instruction, which has both operands, as it is written.
    pub fn text(&self) -> (text: String)
        requires
            self.src1 is Some,
            self.src2 is Some,
        ensures
            text@ == self.spec_text(),
    {
        proof {
            reveal_strlit(" ");
        }
        let mut text = String::from_str(self.op.name());
        text.append(" ");
        text.append(self.dest.label().as_str());
        text.append(" ");
        if let Some(v) = &self.src1 {
            text.append((&**v).text().as_str());
        }
        text.append(" ");
        if let Some(v) = &self.src2 {
            text.append((&**v).text().as_str());
        }
        assert(text@ =~= self.spec_text());
        text
    }

    /// The row of the instruction, which has both operands, in the table of
    /// a run.
    pub fn row(&self) -> (row: String)
        requires
            self.src1 is Some,
            self.src2 is Some,
        ensures
            row@ == self.spec_row(),
    {
        proof {
            reveal_strlit(": ");
            reveal_strlit(", ");
        }
        let mut row = pad_right(self.text(), 20);
        row.append(": ");
        row.append(pad_left(cycle_text(self.emit_cycle), 3).as_str());
        row.append(", ");
        row.append(pad_left(cycle_text(self.start_cycle), 3).as_str());
        row.append(", ");
        row.append(pad_left(cycle_text(self.exec_cycle), 3).as_str());
        row.append(", ");
        row.append(pad_left(cycle_text(self.write_cycle), 3).as_str());
        assert(row@ =~= self.spec_row());
        row
    }
}

/// The text `None` with a blank after it.
pub open spec fn spec_none() -> Seq<char> {
    seq!['N', 'o', 'n', 'e', ' ']
}

/// What a report shows for a value that may be missing: the value at a
/// glance, or `None`, in a column of five characters.
pub open spec fn spec_brief_column(value: Option<Value>) -> Seq<char> {
    match value {
        Some(v) => spec_pad_right(v.spec_brief(), 5),
        None => spec_none(),
    }
}

/// What a report shows for a station that may be missing: the station's
/// name, or `None`, in a column of six characters.
pub open spec fn spec_tag_column(tag: Option<RsId>) -> Seq<char> {
    match tag {
        Some(t) => spec_pad_right(t.spec_label(), 6),
        None => spec_pad_right(spec_none(), 6),
    }
}

/// What a report shows for a value that may be missing: the value at a
/// glance, or `None`, in a column of five characters.
pub fn brief_column(value: &Option<Value>) -> (text: String)
    ensures
        text@ == spec_brief_column(*value),
{
    proof {
        reveal_strlit("None ");
    }
    match value {
        Some(v) => pad_right((&**v).brief(), 5),
        None => {
            let text = String::from_str("None ");
            assert(text@ =~= spec_none());
            text
        },
    }
}

/// What a report shows for a station that may be missing: the station's
/// name, or `None`, in a column of six characters.
pub fn tag_column(tag: &Option<RsId>) -> (text: String)
    ensures
        text@ == spec_tag_column(*tag),
{
    proof {
        reveal_strlit("None ");
    }
    match tag {
        Some(t) => pad_right(t.label(), 6),
        None => {
            let text = String::from_str("None ");
            assert(text@ =~= spec_none());
            pad_right(text, 6)
        },
    }
}

/// What a report shows for the instruction that a station may hold: its
/// operation, or `None`, in a column of five characters.
pub open spec fn spec_held_column(inst: Option<Instruction>) -> Seq<char> {
    match inst {
        Some(inst) => spec_pad_right(inst.op.spec_name(), 5),
        None => spec_none(),
    }
}

/// What a report shows for an address that may be missing: the address in
/// full, or `None`.
pub open spec fn spec_address_column(addr: Option<Value>) -> Seq<char> {
    match addr {
        Some(v) => v.spec_text(),
        None => spec_none(),
    }
}

/// What a report shows for the instruction that a station may hold.
pub fn held_column(inst: &Option<Instruction>) -> (text: String)
    ensures
        text@ == spec_held_column(*inst),
{
    proof {
        reveal_strlit("None ");
    }
    match inst {
        Some(inst) => pad_right(String::from_str(inst.op.name()), 5),
        None => {
            let text = String::from_str("None ");
            assert(text@ =~= spec_none());
            text
        },
    }
}

/// What a report shows for an address that may be missing.
pub fn address_column(addr: &Option<Value>) -> (text: String)
    ensures
        text@ == spec_address_column(*addr),
{
    proof {
        reveal_strlit("None ");
    }
    match addr {
        Some(v) => (&**v).text(),
        None => {
            let text = String::from_str("None ");
            assert(text@ =~= spec_none());
            text
        },
    }
}

impl RsInner {
    /// The station's row in a report: its name, its state, the operation
    /// of its instruction, the two operands at a glance, the two stations it
    /// waits for, and the address in full; `None` stands for what is not
    /// there.
    pub open spec fn spec_row(self) -> Seq<char> {
        spec_pad_right(self.id.spec_label(), 6) + seq![' ', ':', ' '] + spec_pad_right(
            self.state.spec_name(),
            6,
        ) + seq![','] + spec_held_column(self.inst) + seq![','] + spec_brief_column(self.vj) + seq![',']
            + spec_brief_column(self.vk) + seq![','] + spec_tag_column(self.qj) + seq![','] + spec_tag_column(
            self.qk,
        ) + seq![','] + spec_address_column(self.addr)
    }

    /// The station's row in a report.
    pub fn row(&self) -> (row: String)
        ensures
            row@ == self.spec_row(),
    {
        proof {
            reveal_strlit(" : ");
            reveal_strlit(",");
        }
        let mut row = pad_right(self.id.label(), 6);
        row.append(" : ");
        row.append(pad_right(String::from_str(self.state.name()), 6).as_str());
        row.append(",");
        row.append(held_column(&self.inst).as_str());
        row.append(",");
        row.append(brief_column(&self.vj).as_str());
        row.append(",");
        row.append(brief_column(&self.vk).as_str());
        row.append(",");
        row.append(tag_column(&self.qj).as_str());
        row.append(",");
        row.append(tag_column(&self.qk).as_str());
        row.append(",");
        row.append(address_column(&self.addr).as_str());
        assert(row@ =~= self.spec_row());
        row
    }
}

impl FloatingUnitInner {
    /// The row in a report of the slot, which has the name `id`: nothing if
    /// no station has written or will write the slot; else the slot's name,
    /// that station, and the value in full, or `None` if it is still to come.
    pub open spec fn spec_row(self, id: FuId) -> Option<Seq<char>> {
        match self.qi {
            Some(tag) => Some(
                id.spec_label() + seq![' ', ':', ' '] + spec_pad_right(tag.spec_label(), 6) + seq![
                    ' ',
                    '-',
                    '>',
                    ' ',
                ] + (match self.value {
                    Some(v) => v.spec_text(),
                    None => seq!['N', 'o', 'n', 'e'],
                }),
            ),
            None => None,
        }
    }

    /// The row in a report of the slot, which has the name `id`.
    pub fn row(&self, id: FuId) -> (row: Option<String>)
        ensures
            row is Some <==> self.spec_row(id) is Some,
            row matches Some(text) ==> self.spec_row(id) == Some(text@),
    {
        proof {
            reveal_strlit(" : ");
            reveal_strlit(" -> ");
            reveal_strlit("None");
        }
        match self.qi {
            Some(tag) => {
                let mut row = id.label();
                row.append(" : ");
                row.append(pad_right(tag.label(), 6).as_str());
                row.append(" -> ");
                match &self.value {
                    Some(v) => {
                        row.append((&**v).text().as_str());
                    },
                    None => {
                        row.append("None");
                    },
                }
                assert(self.spec_row(id) matches Some(text) && text =~= row@);
                Some(row)
            },
            None => None,
        }
    }
}

/// The rows of the first `n` of `stations`, each with a line feed after it.
pub open spec fn spec_station_rows(stations: Seq<RsInner>, n: int) -> Seq<char>
    decreases n,
{
    if n <= 0 {
        Seq::empty()
    } else {
        spec_station_rows(stations, n - 1) + stations[n - 1].spec_row() + seq!['\n']
    }
}

/// The rows of those among the first `n` of `slots` that have one, each with
/// a line feed after it.
pub open spec fn spec_slot_rows(slots: Seq<FloatingUnitInner>, n: int) -> Seq<char>
    decreases n,
{
    if n <= 0 {
        Seq::empty()
    } else {
        match slots[n - 1].spec_row(FuId::spec_new((2 * (n - 1)) as u8)) {
            Some(row) => spec_slot_rows(slots, n - 1) + row + seq!['\n'],
            None => spec_slot_rows(slots, n - 1),
        }
    }
}

impl ReservationStation {
    /// The rows of the stations, in the pool's order, each with a line feed
    /// after it.
    pub fn rows(&self) -> (rows: String)
        ensures
            rows@ == spec_station_rows(self@, self@.len() as int),
    {
        proof {
            reveal_strlit("");
        }
        let mut rows = String::from_str("");
        let n: usize = self.inner.len();
        let mut i: usize = 0;
        while i < n
            invariant
                i <= n,
                n == self@.len(),
                rows@ == spec_station_rows(self@, i as int),
            decreases n - i,
        {
            proof {
                reveal_strlit("\n");
            }
            rows.append(self.inner[i].row().as_str());
            rows.append("\n");
            i = i + 1;
            assert("\n"@ =~= seq!['\n']);
            assert(rows@ =~= spec_station_rows(self@, i as int));
        }
        rows
    }
}

impl FloatingUnit {
    /// The rows of the slots that a station has written or will write, in
    /// the table's order, each with a line feed after it.
    pub fn rows(&self) -> (rows: String)
        ensures
            rows@ == spec_slot_rows(self@, FU_SIZE as int),
    {
        proof {
            reveal_strlit("");
        }
        let mut rows = String::from_str("");
        let mut i: usize = 0;
        while i < FU_SIZE
            invariant
                i <= FU_SIZE,
                self@.len() == FU_SIZE,
                rows@ == spec_slot_rows(self@, i as int),
            decreases FU_SIZE - i,
        {
            proof {
                reveal_strlit("\n");
            }
            let id = FuId::of_slot(i);
            proof {
                FuId::lemma_number_of_new((2 * i) as u8);
                FuId::lemma_same_number(id, FuId::spec_new((2 * i) as u8));
            }
            if let Some(row) = self.inner[i].row(id) {
                rows.append(row.as_str());
                rows.append("\n");
            }
            i = i + 1;
            assert("\n"@ =~= seq!['\n']);
            assert(rows@ =~= spec_slot_rows(self@, i as int));
        }
        rows
    }
}

impl Executer {
    /// The report of a cycle: the cycle's number and whether the run has
    /// finished, the rows of the stations, and the rows of the slots.
    pub open spec fn spec_report(self) -> Seq<char> {
        seq!['C', 'y', 'c', 'l', 'e', ':', ' '] + spec_decimal_nat(self.cycle as nat) + (if self.finished {
            seq![' ', '>', ' ', 'F', 'i', 'n', 'i', 's', 'h', 'e', 'd', '\n']
        } else {
            seq![' ', '>', ' ', 'R', 'u', 'n', 'n', 'i', 'n', 'g', '\n']
        }) + seq![
            'R',
            'e',
            's',
            'e',
            'r',
            'v',
            'a',
            't',
            'i',
            'o',
            'n',
            ' ',
            'S',
            't',
            'a',
            't',
            'i',
            'o',
            'n',
            's',
            ':',
            '\n',
        ] + spec_station_rows(self.rs@, self.rs@.len() as int) + seq![
            '\n',
            'F',
            'l',
            'o',
            'a',
            't',
            'i',
            'n',
            'g',
            ' ',
            'U',
            'n',
            'i',
            't',
            's',
            ':',
            '\n',
        ] + spec_slot_rows(self.fu@, FU_SIZE as int) + seq!['\n']
    }

    /// The report of a cycle.
    pub fn report(&self) -> (report: String)
        ensures
            report@ == self.spec_report(),
    {
        proof {
            reveal_strlit("Cycle: ");
            reveal_strlit(" > Finished\n");
            reveal_strlit(" > Running\n");
            reveal_strlit("Reservation Stations:\n");
            reveal_strlit("\nFloating Units:\n");
            reveal_strlit("\n");
        }
        let mut report = String::from_str("Cycle: ");
        report.append(decimal_u64(self.cycle).as_str());
        report.append(
            if self.finished {
                " > Finished\n"
            } else {
                " > Running\n"
            },
        );
        report.append("Reservation Stations:\n");
        report.append(self.rs.rows().as_str());
        report.append("\nFloating Units:\n");
        report.append(self.fu.rows().as_str());
        report.append("\n");
        assert(report@ =~= self.spec_report());
        report
    }
}

} // verus!
