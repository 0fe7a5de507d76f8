//! What an operation warns of while it goes on.

use super::error::{fourcc_text, fourcc_to_str};
use crate::log::LogLevel;
use crate::text::{decimal, push_decimal};
use vstd::prelude::*;
use vstd::string::StringExecFns;

verus! {

/// Something that the operator should know, and that stops nothing.
#[derive(Debug, Clone, Copy, PartialEq, Eq)]
pub enum Warning {
    /// The kernel does not guard the port of the user client.
    Unguarded,
    /// The machine has no key for the diagnostic unlock.
    UnlockAbsent,
    /// The SMC gave a key a size above 32; it is taken as 32.
    SizeClamped { fourcc: u32, size: u32 },
}

impl Warning {
    /// What is logged.
    pub open spec fn text(self) -> Seq<char> {
        match self {
            Warning::Unguarded =>
                "mach_port_guard rejected the AppleSMC send-right handle (kern_return 0x11 is expected on io_connect_t) — continuing unguarded per FR-073 documented fallback"@,
            Warning::UnlockAbsent =>
                "Ftst diagnostic unlock key is absent on this SoC — proceeding without unlock (feature 005 RD-01 fallback). F<i>Md writes will surface SMC result 0x82 if a different unlock mechanism is required."@,
            Warning::SizeClamped { fourcc, size } => "SMC key "@ + fourcc_text(fourcc)
                + " reported data_size="@ + decimal(size as nat) + ", clamped to 32"@,
        }
    }

    /// What is logged.
    pub fn message(&self) -> (r: String)
        ensures
            r@ == self.text(),
    {
        match *self {
            Warning::Unguarded =>
                "mach_port_guard rejected the AppleSMC send-right handle (kern_return 0x11 is expected on io_connect_t) — continuing unguarded per FR-073 documented fallback".to_owned(),
            Warning::UnlockAbsent =>
                "Ftst diagnostic unlock key is absent on this SoC — proceeding without unlock (feature 005 RD-01 fallback). F<i>Md writes will surface SMC result 0x82 if a different unlock mechanism is required.".to_owned(),
            Warning::SizeClamped { fourcc, size } => {
                let mut s: String = "SMC key ".to_owned();
                s.append(fourcc_to_str(fourcc).as_str());
                s.append(" reported data_size=");
                push_decimal(&mut s, size as u64);
                s.append(", clamped to 32");
                s
            },
        }
    }

    /// The level at which it is logged.
    pub fn level(&self) -> (r: LogLevel)
        ensures
            r == LogLevel::Warn,
    {
        LogLevel::Warn
    }
}

} // verus!
