//! The command line: its arguments, what each command does, and what it says.

pub mod clock;
pub mod curve_cmd;
pub mod daemon;
pub mod debug_write;
pub mod force;
pub mod help;
pub mod json;
pub mod keys;
pub mod keyspace;
pub mod numerals;
pub mod parse;
pub mod plot;
pub mod probe;
pub mod research;
pub mod run;
pub mod safety;
pub mod say;
pub mod set;
pub mod selftest;
pub mod serving;
