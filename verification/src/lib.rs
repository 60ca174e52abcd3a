//! Decision logic of a musl compatibility probe: kernel version parsing and
//! gating, host security (MAC) context interpretation, the suite's gates, and
//! the runner's verdicts, report lines and tallies.

pub mod kernel;
pub mod provenance;
pub mod runner;
pub mod security;
pub mod suite;
pub mod text;
