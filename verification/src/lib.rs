//! A cycle-stepped simulator of Tomasulo's dynamic scheduling algorithm.
//!
//! The crate holds the scheduling engine: symbolic values, the instruction
//! lifecycle, the functional-unit table, the reservation-station pool and the
//! executer that drives them through one cycle after another. Around the
//! engine stand the reader of programs in text form, the report of a cycle
//! in plain text and in colour, and the laws that hold of every run.

pub mod accounting;
pub mod coherence;
pub mod error;
pub mod executer;
pub mod inst;
pub mod laws;
pub mod paint;
pub mod parse;
pub mod progress;
pub mod text;
pub mod units;
pub mod value;

pub use error::SimError;
pub use executer::{Executer, Machine, CYCLE_LIMIT};
pub use inst::{Instruction, Type};
pub use parse::{parse_instruction, parse_program, ParseError};
pub use units::fu::{FloatingUnit, FloatingUnitInner, FuId, FU_SIZE};
pub use units::regs::RegId;
pub use units::rs::{ReservationStation, RsId, RsInner, RsState, RsType};
pub use units::Unit;
pub use value::{Value, ValueInner};
