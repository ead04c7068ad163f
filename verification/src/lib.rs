//! Verified core of a dual-transport sensor pipeline: a line-oriented
//! reading grammar with an all-or-nothing decoder, the poll/retry state
//! machines that acquire a reading over a serial or network channel, the
//! ventilation decision logic, and the report serialisation.
//!
//! All quantities with two fractional decimal digits (temperatures,
//! humidities, dewpoints) are carried as integers in hundredths
//! ("centi" values), so that every comparison and boundary case is exact.

pub mod decision;
pub mod digits;
pub mod errors;
pub mod orchestrator;
pub mod outdoor;
pub mod poll;
pub mod reading;
pub mod report;
pub mod text;
