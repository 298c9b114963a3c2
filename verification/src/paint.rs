//! The report in colour.
//!
//! Text is painted for a terminal that takes ANSI escape sequences: a
//! painted piece begins with the sequence for its colour, which the
//! sequence for its weight may follow, and ends with the sequence that
//! resets both. Whether to paint at all is for the caller to say, who knows
//! where the text goes; text that is not painted is left as it is.

use console::{Attribute, Color, Style};
use vstd::prelude::*;
use vstd::string::StringExecFns;

use crate::executer::{spec_table, Executer};
use crate::inst::{Instruction, Type};
use crate::text::{
    cycle_text, decimal_u64, pad_left, pad_right, spec_cycle_text, spec_decimal_nat, spec_none, spec_pad_left,
    spec_pad_right, spec_slot_rows, spec_station_rows,
};
use crate::units::fu::{FloatingUnit, FloatingUnitInner, FuId, FU_SIZE};
use crate::units::rs::{ReservationStation, RsId, RsInner, RsState};
use crate::value::Value;

verus! {

/// A colour of the terminal.
#[derive(Debug, Clone, Copy, PartialEq, Eq, Hash, Structural)]
pub enum Tint {
    Red,
    Green,
    Yellow,
    Blue,
    Magenta,
    Cyan,
    White,
}

/// A weight of painted text.
#[derive(Debug, Clone, Copy, PartialEq, Eq, Hash, Structural)]
pub enum Weight {
    Bold,
    Underlined,
}

/// The escape sequence that sets the colour `tint`.
pub open spec fn spec_tint_code(tint: Tint) -> Seq<char> {
    seq![
        '\u{1b}',
        '[',
        '3',
        match tint {
            Tint::Red => '1',
            Tint::Green => '2',
            Tint::Yellow => '3',
            Tint::Blue => '4',
            Tint::Magenta => '5',
            Tint::Cyan => '6',
            Tint::White => '7',
        },
        'm',
    ]
}

/// The escape sequence that sets the weight `weight`; nothing if there is
/// none to set.
pub open spec fn spec_weight_code(weight: Option<Weight>) -> Seq<char> {
    match weight {
        Some(Weight::Bold) => seq!['\u{1b}', '[', '1', 'm'],
        Some(Weight::Underlined) => seq!['\u{1b}', '[', '4', 'm'],
        None => Seq::empty(),
    }
}

/// The escape sequence that resets colour and weight.
pub open spec fn spec_reset_code() -> Seq<char> {
    seq!['\u{1b}', '[', '0', 'm']
}

/// `text` in the colour `tint` and the weight `weight` if `colored` says to
/// paint, and as it is otherwise.
#[verifier::opaque]
pub open spec fn spec_paint(text: Seq<char>, tint: Tint, weight: Option<Weight>, colored: bool) -> Seq<char> {
    if colored {
        spec_tint_code(tint) + spec_weight_code(weight) + text + spec_reset_code()
    } else {
        text
    }
}

/// Paints `text` in the colour `tint`.
///
/// Trusted: `console::Style::new` with `fg` and `force_styling`, applied to
/// `text` by `apply_to`, and the `Display` of the `console::StyledObject`
/// that this gives, through `to_string`. With styling forced off it writes
/// the text alone. With styling forced on it writes `ESC [ 3n m` for the
/// colour with the number `n`, which is 1 for red, 2 for green, 3 for
/// yellow, 4 for blue, 5 for magenta, 6 for cyan and 7 for white, then the
/// text, then `ESC [ 0 m`.
#[verifier::external_body]
fn tinted(text: &str, tint: Tint, colored: bool) -> (painted: String)
    ensures
        painted@ == spec_paint(text@, tint, None, colored),
{
    let fg = match tint {
        Tint::Red => Color::Red,
        Tint::Green => Color::Green,
        Tint::Yellow => Color::Yellow,
        Tint::Blue => Color::Blue,
        Tint::Magenta => Color::Magenta,
        Tint::Cyan => Color::Cyan,
        Tint::White => Color::White,
    };
    Style::new().fg(fg).force_styling(colored).apply_to(text).to_string()
}

/// Paints `text` in the colour `tint` and the weight `weight`.
///
/// Trusted: `console::Style::new` with `fg`, `attr` and `force_styling`,
/// applied to `text` by `apply_to`, and the `Display` of the
/// `console::StyledObject` that this gives, through `to_string`. With
/// styling forced off it writes the text alone. With styling forced on it
/// writes `ESC [ 3n m` for the colour with the number `n`, then `ESC [ 1 m`
/// for bold or `ESC [ 4 m` for underlined, then the text, then
/// `ESC [ 0 m`.
#[verifier::external_body]
fn tinted_weighted(text: &str, tint: Tint, weight: Weight, colored: bool) -> (painted: String)
    ensures
        painted@ == spec_paint(text@, tint, Some(weight), colored),
{
    let fg = match tint {
        Tint::Red => Color::Red,
        Tint::Green => Color::Green,
        Tint::Yellow => Color::Yellow,
        Tint::Blue => Color::Blue,
        Tint::Magenta => Color::Magenta,
        Tint::Cyan => Color::Cyan,
        Tint::White => Color::White,
    };
    let attr = match weight {
        Weight::Bold => Attribute::Bold,
        Weight::Underlined => Attribute::Underlined,
    };
    Style::new().fg(fg).attr(attr).force_styling(colored).apply_to(text).to_string()
}

/// `text` in the colour `tint` and the weight `weight` if `colored` says to
/// paint, and as it is otherwise.
pub fn paint(text: &str, tint: Tint, weight: Option<Weight>, colored: bool) -> (painted: String)
    ensures
        painted@ == spec_paint(text@, tint, weight, colored),
{
    match weight {
        Some(w) => tinted_weighted(text, tint, w, colored),
        None => tinted(text, tint, colored),
    }
}

impl Type {
    /// The colour of the operation.
    pub open spec fn spec_tint(self) -> Tint {
        match self {
            Type::ADDD => Tint::Green,
            Type::SUBD => Tint::Red,
            Type::MULTD => Tint::Yellow,
            Type::DIVD => Tint::Blue,
            Type::LD => Tint::Cyan,
            Type::SD => Tint::Magenta,
        }
    }

    /// The operation in its colour, in a column of five characters.
    pub open spec fn spec_painted(self, colored: bool) -> Seq<char> {
        spec_paint(spec_pad_right(self.spec_name(), 5), self.spec_tint(), None, colored)
    }

    /// The colour of the operation.
    pub fn tint(self) -> (tint: Tint)
        ensures
            tint == self.spec_tint(),
    {
        match self {
            Type::ADDD => Tint::Green,
            Type::SUBD => Tint::Red,
            Type::MULTD => Tint::Yellow,
            Type::DIVD => Tint::Blue,
            Type::LD => Tint::Cyan,
            Type::SD => Tint::Magenta,
        }
    }

    /// The operation in its colour, in a column of five characters.
    pub fn painted(self, colored: bool) -> (text: String)
        ensures
            text@ == self.spec_painted(colored),
    {
        paint(pad_right(String::from_str(self.name()), 5).as_str(), self.tint(), None, colored)
    }
}

impl RsState {
    /// The colour of the state.
    pub open spec fn spec_tint(self) -> Tint {
        match self {
            RsState::Free => Tint::Yellow,
            RsState::Busy => Tint::Red,
            RsState::Calculating => Tint::Blue,
            RsState::Ready => Tint::Green,
        }
    }

    /// The state in its colour, bold, in a column of six characters.
    pub open spec fn spec_painted(self, colored: bool) -> Seq<char> {
        spec_paint(spec_pad_right(self.spec_name(), 6), self.spec_tint(), Some(Weight::Bold), colored)
    }

    /// The colour of the state.
    pub fn tint(self) -> (tint: Tint)
        ensures
            tint == self.spec_tint(),
    {
        match self {
            RsState::Free => Tint::Yellow,
            RsState::Busy => Tint::Red,
            RsState::Calculating => Tint::Blue,
            RsState::Ready => Tint::Green,
        }
    }

    /// The state in its colour, bold, in a column of six characters.
    pub fn painted(self, colored: bool) -> (text: String)
        ensures
            text@ == self.spec_painted(colored),
    {
        paint(
            pad_right(String::from_str(self.name()), 6).as_str(),
            self.tint(),
            Some(Weight::Bold),
            colored,
        )
    }
}

impl RsId {
    /// The station's name in green, bold, in a column of six characters.
    pub open spec fn spec_painted(self, colored: bool) -> Seq<char> {
        spec_paint(spec_pad_right(self.spec_label(), 6), Tint::Green, Some(Weight::Bold), colored)
    }

    /// The station's name in green, bold, in a column of six characters.
    pub fn painted(&self, colored: bool) -> (text: String)
        ensures
            text@ == self.spec_painted(colored),
    {
        paint(pad_right(self.label(), 6).as_str(), Tint::Green, Some(Weight::Bold), colored)
    }
}

/// `None` with a blank after it, in white.
pub open spec fn spec_painted_none(colored: bool) -> Seq<char> {
    spec_paint(spec_none(), Tint::White, None, colored)
}

/// What the coloured report shows for an operand: the value at a glance in
/// cyan, bold, in a column of five characters, or `None` in white.
pub open spec fn spec_painted_operand(value: Option<Value>, colored: bool) -> Seq<char> {
    match value {
        Some(v) => spec_paint(spec_pad_right(v.spec_brief(), 5), Tint::Cyan, Some(Weight::Bold), colored),
        None => spec_painted_none(colored),
    }
}

/// What the coloured report shows for a station that an operand is awaited
/// from: the station's name, painted, or `None` in a column of six characters,
/// not painted.
pub open spec fn spec_painted_tag(tag: Option<RsId>, colored: bool) -> Seq<char> {
    match tag {
        Some(t) => t.spec_painted(colored),
        None => spec_pad_right(spec_none(), 6),
    }
}

/// `None` with a blank after it, in white.
pub fn painted_none(colored: bool) -> (text: String)
    ensures
        text@ == spec_painted_none(colored),
{
    proof {
        reveal_strlit("None ");
    }
    assert("None "@ =~= spec_none());
    paint("None ", Tint::White, None, colored)
}

/// What the coloured report shows for an operand.
pub fn painted_operand(value: &Option<Value>, colored: bool) -> (text: String)
    ensures
        text@ == spec_painted_operand(*value, colored),
{
    match value {
        Some(v) => paint(pad_right((&**v).brief(), 5).as_str(), Tint::Cyan, Some(Weight::Bold), colored),
        None => painted_none(colored),
    }
}

/// What the coloured report shows for a station that an operand is awaited
/// from.
pub fn painted_tag(tag: &Option<RsId>, colored: bool) -> (text: String)
    ensures
        text@ == spec_painted_tag(*tag, colored),
{
    proof {
        reveal_strlit("None ");
    }
    match tag {
        Some(t) => t.painted(colored),
        None => {
            let text = String::from_str("None ");
            assert(text@ =~= spec_none());
            pad_right(text, 6)
        },
    }
}

/// What the coloured report shows for the instruction that a station may
/// hold: its operation, painted, or `None`, not painted.
pub open spec fn spec_painted_held(inst: Option<Instruction>, colored: bool) -> Seq<char> {
    match inst {
        Some(inst) => inst.op.spec_painted(colored),
        None => spec_none(),
    }
}

/// What the coloured report shows for an address that may be missing: the
/// address in full in blue, or `None` in white.
pub open spec fn spec_painted_address(addr: Option<Value>, colored: bool) -> Seq<char> {
    match addr {
        Some(v) => spec_paint(v.spec_text(), Tint::Blue, None, colored),
        None => spec_painted_none(colored),
    }
}

/// What the coloured report shows for the instruction that a station may
/// hold.
pub fn painted_held(inst: &Option<Instruction>, colored: bool) -> (text: String)
    ensures
        text@ == spec_painted_held(*inst, colored),
{
    proof {
        reveal_strlit("None ");
    }
    match inst {
        Some(inst) => inst.op.painted(colored),
        None => {
            let text = String::from_str("None ");
            assert(text@ =~= spec_none());
            text
        },
    }
}

/// What the coloured report shows for an address that may be missing.
pub fn painted_address(addr: &Option<Value>, colored: bool) -> (text: String)
    ensures
        text@ == spec_painted_address(*addr, colored),
{
    match addr {
        Some(v) => paint((&**v).text().as_str(), Tint::Blue, None, colored),
        None => painted_none(colored),
    }
}

impl RsInner {
    /// The station's row in the coloured report: the pieces of its row,
    /// each painted in its way.
    pub open spec fn spec_painted_row(self, colored: bool) -> Seq<char> {
        self.id.spec_painted(colored) + seq![' ', ':', ' '] + self.state.spec_painted(colored) + seq![',']
            + spec_painted_held(self.inst, colored) + seq![','] + spec_painted_operand(self.vj, colored)
            + seq![','] + spec_painted_operand(self.vk, colored) + seq![','] + spec_painted_tag(
            self.qj,
            colored,
        ) + seq![','] + spec_painted_tag(self.qk, colored) + seq![','] + spec_painted_address(
            self.addr,
            colored,
        )
    }

    /// The station's row in the coloured report.
    pub fn painted_row(&self, colored: bool) -> (row: String)
        ensures
            row@ == self.spec_painted_row(colored),
    {
        proof {
            reveal_strlit(" : ");
            reveal_strlit(",");
        }
        let mut row = self.id.painted(colored);
        row.append(" : ");
        row.append(self.state.painted(colored).as_str());
        row.append(",");
        row.append(painted_held(&self.inst, colored).as_str());
        row.append(",");
        row.append(painted_operand(&self.vj, colored).as_str());
        row.append(",");
        row.append(painted_operand(&self.vk, colored).as_str());
        row.append(",");
        row.append(painted_tag(&self.qj, colored).as_str());
        row.append(",");
        row.append(painted_tag(&self.qk, colored).as_str());
        row.append(",");
        row.append(painted_address(&self.addr, colored).as_str());
        assert(row@ =~= self.spec_painted_row(colored));
        row
    }
}

/// What the coloured report shows for what a slot holds: the value in full
/// in cyan, underlined, or `None` in white.
pub open spec fn spec_painted_content(value: Option<Value>, colored: bool) -> Seq<char> {
    match value {
        Some(v) => spec_paint(v.spec_text(), Tint::Cyan, Some(Weight::Underlined), colored),
        None => spec_paint(seq!['N', 'o', 'n', 'e'], Tint::White, None, colored),
    }
}

/// What the coloured report shows for what a slot holds.
pub fn painted_content(value: &Option<Value>, colored: bool) -> (text: String)
    ensures
        text@ == spec_painted_content(*value, colored),
{
    proof {
        reveal_strlit("None");
    }
    match value {
        Some(v) => paint((&**v).text().as_str(), Tint::Cyan, Some(Weight::Underlined), colored),
        None => {
            assert("None"@ =~= seq!['N', 'o', 'n', 'e']);
            paint("None", Tint::White, None, colored)
        },
    }
}

impl FloatingUnitInner {
    /// The row in the coloured report of the slot, which has the name `id`:
    /// nothing if no station has written or will write the slot; else the
    /// slot's name in magenta, underlined, that station, painted, and the
    /// value in full in cyan, underlined, or `None` in white.
    pub open spec fn spec_painted_row(self, id: FuId, colored: bool) -> Option<Seq<char>> {
        match self.qi {
            Some(tag) => Some(
                spec_paint(id.spec_label(), Tint::Magenta, Some(Weight::Underlined), colored) + seq![
                    ' ',
                    ':',
                    ' ',
                ] + tag.spec_painted(colored) + seq![' ', '-', '>', ' '] + spec_painted_content(
                    self.value,
                    colored,
                ),
            ),
            None => None,
        }
    }

    /// The row in the coloured report of the slot, which has the name `id`.
    pub fn painted_row(&self, id: FuId, colored: bool) -> (row: Option<String>)
        ensures
            row is Some <==> self.spec_painted_row(id, colored) is Some,
            row matches Some(text) ==> self.spec_painted_row(id, colored) == Some(text@),
    {
        proof {
            reveal_strlit(" : ");
            reveal_strlit(" -> ");
        }
        match self.qi {
            Some(tag) => {
                let mut row = paint(id.label().as_str(), Tint::Magenta, Some(Weight::Underlined), colored);
                row.append(" : ");
                row.append(tag.painted(colored).as_str());
                row.append(" -> ");
                row.append(painted_content(&self.value, colored).as_str());
                assert(self.spec_painted_row(id, colored) matches Some(text) && text =~= row@);
                Some(row)
            },
            None => None,
        }
    }
}

impl Instruction {
    /// The instruction's row in the coloured table of a run: the
    /// instruction in white, bold, and the cycles of issue, start, end and
    /// write-back in red, blue, yellow and green.
    pub open spec fn spec_painted_row(self, colored: bool) -> Seq<char> {
        spec_paint(spec_pad_right(self.spec_text(), 20), Tint::White, Some(Weight::Bold), colored) + seq![
            ':',
            ' ',
        ] + spec_paint(spec_pad_left(spec_cycle_text(self.emit_cycle), 3), Tint::Red, None, colored) + seq![
            ',',
            ' ',
        ] + spec_paint(spec_pad_left(spec_cycle_text(self.start_cycle), 3), Tint::Blue, None, colored)
            + seq![',', ' '] + spec_paint(
            spec_pad_left(spec_cycle_text(self.exec_cycle), 3),
            Tint::Yellow,
            None,
            colored,
        ) + seq![',', ' '] + spec_paint(
            spec_pad_left(spec_cycle_text(self.write_cycle), 3),
            Tint::Green,
            None,
            colored,
        )
    }

    /// The row of the instruction, which has both operands, in the coloured
    /// table of a run.
    pub fn painted_row(&self, colored: bool) -> (row: String)
        requires
            self.src1 is Some,
            self.src2 is Some,
        ensures
            row@ == self.spec_painted_row(colored),
    {
        proof {
            reveal_strlit(": ");
            reveal_strlit(", ");
        }
        let mut row = paint(pad_right(self.text(), 20).as_str(), Tint::White, Some(Weight::Bold), colored);
        row.append(": ");
        row.append(paint(pad_left(cycle_text(self.emit_cycle), 3).as_str(), Tint::Red, None, colored).as_str());
        row.append(", ");
        row.append(
            paint(pad_left(cycle_text(self.start_cycle), 3).as_str(), Tint::Blue, None, colored).as_str(),
        );
        row.append(", ");
        row.append(
            paint(pad_left(cycle_text(self.exec_cycle), 3).as_str(), Tint::Yellow, None, colored).as_str(),
        );
        row.append(", ");
        row.append(
            paint(pad_left(cycle_text(self.write_cycle), 3).as_str(), Tint::Green, None, colored).as_str(),
        );
        assert(row@ =~= self.spec_painted_row(colored));
        row
    }
}

/// The coloured rows of the first `n` of `stations`, each with a line feed
/// after it.
pub open spec fn spec_painted_station_rows(stations: Seq<RsInner>, n: int, colored: bool) -> Seq<char>
    decreases n,
{
    if n <= 0 {
        Seq::empty()
    } else {
        spec_painted_station_rows(stations, n - 1, colored) + stations[n - 1].spec_painted_row(colored)
            + seq!['\n']
    }
}

/// The coloured rows of those among the first `n` of `slots` that have one,
/// each with a line feed after it.
pub open spec fn spec_painted_slot_rows(slots: Seq<FloatingUnitInner>, n: int, colored: bool) -> Seq<char>
    decreases n,
{
    if n <= 0 {
        Seq::empty()
    } else {
        match slots[n - 1].spec_painted_row(FuId::spec_new((2 * (n - 1)) as u8), colored) {
            Some(row) => spec_painted_slot_rows(slots, n - 1, colored) + row + seq!['\n'],
            None => spec_painted_slot_rows(slots, n - 1, colored),
        }
    }
}

/// The coloured rows of the first `n` of the instructions `rows`, each with
/// a line feed after it.
pub open spec fn spec_painted_table_rows(rows: Seq<Instruction>, n: int, colored: bool) -> Seq<char>
    decreases n,
{
    if n <= 0 {
        Seq::empty()
    } else {
        spec_painted_table_rows(rows, n - 1, colored) + rows[n - 1].spec_painted_row(colored) + seq!['\n']
    }
}

impl ReservationStation {
    /// The coloured rows of the stations, in the pool's order, each with a
    /// line feed after it.
    pub fn painted_rows(&self, colored: bool) -> (rows: String)
        ensures
            rows@ == spec_painted_station_rows(self@, self@.len() as int, colored),
    {
        proof {
            reveal_strlit("");
        }
        let mut rows = String::from_str("");
        let n: usize = self.inner.len();
        let mut i: usize = 0;
        while i < n
            invariant
                i <= n,
                n == self@.len(),
                rows@ == spec_painted_station_rows(self@, i as int, colored),
            decreases n - i,
        {
            proof {
                reveal_strlit("\n");
            }
            rows.append(self.inner[i].painted_row(colored).as_str());
            rows.append("\n");
            i = i + 1;
            assert("\n"@ =~= seq!['\n']);
            assert(rows@ =~= spec_painted_station_rows(self@, i as int, colored));
        }
        rows
    }
}

impl FloatingUnit {
    /// The coloured rows of the slots that a station has written or will
    /// write, in the table's order, each with a line feed after it.
    pub fn painted_rows(&self, colored: bool) -> (rows: String)
        ensures
            rows@ == spec_painted_slot_rows(self@, FU_SIZE as int, colored),
    {
        proof {
            reveal_strlit("");
        }
        let mut rows = String::from_str("");
        let mut i: usize = 0;
        while i < FU_SIZE
            invariant
                i <= FU_SIZE,
                self@.len() == FU_SIZE,
                rows@ == spec_painted_slot_rows(self@, i as int, colored),
            decreases FU_SIZE - i,
        {
            proof {
                reveal_strlit("\n");
            }
            let id = FuId::of_slot(i);
            proof {
                FuId::lemma_number_of_new((2 * i) as u8);
                FuId::lemma_same_number(id, FuId::spec_new((2 * i) as u8));
            }
            if let Some(row) = self.inner[i].painted_row(id, colored) {
                rows.append(row.as_str());
                rows.append("\n");
            }
            i = i + 1;
            assert("\n"@ =~= seq!['\n']);
            assert(rows@ =~= spec_painted_slot_rows(self@, i as int, colored));
        }
        rows
    }
}

/// The words `Cycle:`.
pub open spec fn spec_cycle_heading() -> Seq<char> {
    seq!['C', 'y', 'c', 'l', 'e', ':']
}

/// The heading of the stations.
pub open spec fn spec_stations_heading() -> Seq<char> {
    seq![
        'R',
        'e',
        's',
        'e',
        'r',
        'v',
        'a',
        't',
        'i',
        'o',
        'n',
        ' ',
        'S',
        't',
        'a',
        't',
        'i',
        'o',
        'n',
        's',
        ':',
    ]
}

/// The heading of the slots.
pub open spec fn spec_slots_heading() -> Seq<char> {
    seq!['F', 'l', 'o', 'a', 't', 'i', 'n', 'g', ' ', 'U', 'n', 'i', 't', 's', ':']
}

/// The heading of the table of a run.
pub open spec fn spec_table_heading() -> Seq<char> {
    seq!['I', 'n', 's', 't', 'r', 'u', 'c', 't', 'i', 'o', 'n', 's', ':']
}

impl Executer {
    /// The coloured report of a cycle: the cycle's number in cyan, whether
    /// the run has finished in green or red, the headings in yellow, all of
    /// these bold, and the coloured rows of the stations and of the slots.
    pub open spec fn spec_painted_report(self, colored: bool) -> Seq<char> {
        let bold = Some(Weight::Bold);
        spec_paint(spec_cycle_heading(), Tint::Yellow, bold, colored) + seq![' '] + spec_paint(
            spec_decimal_nat(self.cycle as nat),
            Tint::Cyan,
            bold,
            colored,
        ) + seq![' '] + (if self.finished {
            spec_paint(seq!['>', ' ', 'F', 'i', 'n', 'i', 's', 'h', 'e', 'd'], Tint::Green, bold, colored)
        } else {
            spec_paint(seq!['>', ' ', 'R', 'u', 'n', 'n', 'i', 'n', 'g'], Tint::Red, bold, colored)
        }) + seq!['\n'] + spec_paint(spec_stations_heading(), Tint::Yellow, bold, colored) + seq!['\n']
            + spec_painted_station_rows(self.rs@, self.rs@.len() as int, colored) + seq!['\n'] + spec_paint(
            spec_slots_heading(),
            Tint::Yellow,
            bold,
            colored,
        ) + seq!['\n'] + spec_painted_slot_rows(self.fu@, FU_SIZE as int, colored) + seq!['\n']
    }

    /// The coloured table of the run so far: its heading in yellow, bold,
    /// and the rows of the completed instructions in the order of their
    /// issue.
    pub open spec fn spec_painted_table(self, colored: bool) -> Seq<char> {
        let rows = spec_table(self.insts_comp@, self.insts_comp@.len() as int);
        spec_paint(spec_table_heading(), Tint::Yellow, Some(Weight::Bold), colored) + seq!['\n']
            + spec_painted_table_rows(rows, rows.len() as int, colored)
    }

    /// The coloured report of a cycle.
    pub fn painted_report(&self, colored: bool) -> (report: String)
        ensures
            report@ == self.spec_painted_report(colored),
    {
        proof {
            reveal_strlit("Cycle:");
            reveal_strlit("> Finished");
            reveal_strlit("> Running");
            reveal_strlit("Reservation Stations:");
            reveal_strlit("Floating Units:");
            reveal_strlit("\n");
            reveal_strlit(" ");
        }
        assert("Cycle:"@ =~= spec_cycle_heading());
        assert("> Finished"@ =~= seq!['>', ' ', 'F', 'i', 'n', 'i', 's', 'h', 'e', 'd']);
        assert("> Running"@ =~= seq!['>', ' ', 'R', 'u', 'n', 'n', 'i', 'n', 'g']);
        assert("Reservation Stations:"@ =~= spec_stations_heading());
        assert("Floating Units:"@ =~= spec_slots_heading());
        let bold = Some(Weight::Bold);
        let mut report = paint("Cycle:", Tint::Yellow, bold, colored);
        report.append(" ");
        report.append(paint(decimal_u64(self.cycle).as_str(), Tint::Cyan, bold, colored).as_str());
        report.append(" ");
        if self.finished {
            report.append(paint("> Finished", Tint::Green, bold, colored).as_str());
        } else {
            report.append(paint("> Running", Tint::Red, bold, colored).as_str());
        }
        report.append("\n");
        report.append(paint("Reservation Stations:", Tint::Yellow, bold, colored).as_str());
        report.append("\n");
        report.append(self.rs.painted_rows(colored).as_str());
        report.append("\n");
        report.append(paint("Floating Units:", Tint::Yellow, bold, colored).as_str());
        report.append("\n");
        report.append(self.fu.painted_rows(colored).as_str());
        report.append("\n");
        assert(report@ =~= self.spec_painted_report(colored));
        report
    }

    /// The coloured table of the run so far. Every completed instruction
    /// has both operands.
    pub fn painted_table(&self, colored: bool) -> (table: String)
        requires
            forall|k: int|
                0 <= k < self.insts_comp@.len() ==> (#[trigger] self.insts_comp@[k]).src1 is Some
                    && self.insts_comp@[k].src2 is Some,
        ensures
            table@ == self.spec_painted_table(colored),
    {
        proof {
            reveal_strlit("Instructions:");
            reveal_strlit("\n");
        }
        assert("Instructions:"@ =~= spec_table_heading());
        let rows = self.table();
        proof {
            assert forall|k: int| 0 <= k < rows@.len() implies (#[trigger] rows@[k]).src1 is Some
                && rows@[k].src2 is Some by {
                let row = rows@[k];
                rows@.to_multiset_ensures();
                self.insts_comp@.to_multiset_ensures();
                assert(rows@.contains(row));
                assert(rows@.to_multiset().count(row) > 0);
                assert(self.insts_comp@.to_multiset().count(row) > 0);
                assert(self.insts_comp@.contains(row));
            }
        }
        let mut table = paint("Instructions:", Tint::Yellow, Some(Weight::Bold), colored);
        table.append("\n");
        let n: usize = rows.len();
        let mut i: usize = 0;
        let ghost head = table@;
        while i < n
            invariant
                i <= n,
                n == rows@.len(),
                forall|k: int|
                    0 <= k < rows@.len() ==> (#[trigger] rows@[k]).src1 is Some && rows@[k].src2 is Some,
                table@ == head + spec_painted_table_rows(rows@, i as int, colored),
            decreases n - i,
        {
            proof {
                reveal_strlit("\n");
            }
            table.append(rows[i].painted_row(colored).as_str());
            table.append("\n");
            i = i + 1;
            assert("\n"@ =~= seq!['\n']);
            assert(table@ =~= head + spec_painted_table_rows(rows@, i as int, colored));
        }
        assert(table@ =~= self.spec_painted_table(colored));
        table
    }
}

/// Text that is not painted is left as it is.
pub proof fn law_unpainted(text: Seq<char>, tint: Tint, weight: Option<Weight>)
    ensures
        spec_paint(text, tint, weight, false) == text,
{
    reveal(spec_paint);
}

/// Painted text is the text between the sequence for its colour, with the
/// one for its weight, and the sequence that resets them.
pub proof fn law_painted(text: Seq<char>, tint: Tint, weight: Option<Weight>)
    ensures
        spec_paint(text, tint, weight, true) == spec_tint_code(tint) + spec_weight_code(weight) + text
            + spec_reset_code(),
{
    reveal(spec_paint);
}

/// The row of a station that is not painted is its plain row.
pub proof fn law_unpainted_station_row(station: RsInner)
    ensures
        station.spec_painted_row(false) == station.spec_row(),
{
    reveal(spec_paint);
}

/// The row of a slot that is not painted is its plain row.
pub proof fn law_unpainted_slot_row(slot: FloatingUnitInner, id: FuId)
    ensures
        slot.spec_painted_row(id, false) == slot.spec_row(id),
{
    reveal(spec_paint);
}

/// The row of an instruction that is not painted is its plain row.
pub proof fn law_unpainted_instruction_row(inst: Instruction)
    ensures
        inst.spec_painted_row(false) == inst.spec_row(),
{
    reveal(spec_paint);
}

/// The rows of stations that are not painted are their plain rows.
proof fn lemma_unpainted_station_rows(stations: Seq<RsInner>, n: int)
    ensures
        spec_painted_station_rows(stations, n, false) == spec_station_rows(stations, n),
    decreases n,
{
    if n > 0 {
        lemma_unpainted_station_rows(stations, n - 1);
        law_unpainted_station_row(stations[n - 1]);
    }
}

/// The rows of slots that are not painted are their plain rows.
proof fn lemma_unpainted_slot_rows(slots: Seq<FloatingUnitInner>, n: int)
    ensures
        spec_painted_slot_rows(slots, n, false) == spec_slot_rows(slots, n),
    decreases n,
{
    if n > 0 {
        lemma_unpainted_slot_rows(slots, n - 1);
        law_unpainted_slot_row(slots[n - 1], FuId::spec_new((2 * (n - 1)) as u8));
    }
}

/// The report that is not painted is the plain report: to paint adds
/// colour to the report and takes nothing from it.
#[verifier::rlimit(40)]
pub proof fn law_unpainted_report(executer: Executer)
    ensures
        executer.spec_painted_report(false) == executer.spec_report(),
{
    reveal(spec_paint);
    lemma_unpainted_station_rows(executer.rs@, executer.rs@.len() as int);
    lemma_unpainted_slot_rows(executer.fu@, FU_SIZE as int);
    assert(executer.spec_painted_report(false) =~= executer.spec_report());
}

} // verus!
