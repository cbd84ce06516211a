//! Accumulated Cyclone Energy from best-track advisory files.

pub mod aggregate;
pub mod ascii;
pub mod basin;
pub mod decimal;
pub mod eligibility;
pub mod energy;
pub mod error;
pub mod fields;
pub mod lines;
pub mod process;
pub mod record;
pub mod report;
pub mod tally;
pub mod track;
