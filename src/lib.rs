//! Parser for SPICE-style netlists: component lines, control blocks with
//! analysis directives, and the circuit description they assemble into.

pub mod lexer;
pub mod units;
pub mod grammar;
pub mod components;
pub mod parser;
pub mod netlist;
