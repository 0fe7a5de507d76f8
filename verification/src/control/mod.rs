//! From temperatures to fan targets: one pipeline step per module, and the
//! tick that runs them in order.

pub mod adapter;
pub mod control_loop;
pub mod curve;
pub mod ema;
pub mod fusion;
pub mod hysteresis;
pub mod interpolation;
pub mod line;
pub mod mean;
pub mod panic;
pub mod pipeline;
pub mod slew;
pub mod state;
