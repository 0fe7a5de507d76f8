//! The System Management Controller: its keys, its wire format, and the rules
//! under which it is written.

pub mod cache;
pub mod connection;
pub mod edr_detect;
pub mod enumerate;
pub mod error;
pub mod exchange;
pub mod forcing;
pub mod keys;
pub mod minimum;
pub mod panic_hook;
pub mod param;
pub mod quiet;
pub mod reading;
pub mod release;
pub mod round_trip;
pub mod safety;
pub mod selftest;
pub mod signal;
pub mod single_instance;
pub mod trial;
pub mod types;
pub mod unlock;
pub mod warning;
pub mod write_session;
