//! The errors of the SMC layer: their stable codes and their texts.

use crate::correlation::SessionId;
use crate::text::{
    decimal, hex_list, hex_upper, push_decimal, push_hex_list, push_hex_upper, push_signed,
    signed_decimal,
};
use vstd::prelude::*;
use vstd::string::StringExecFns;

verus! {

/// Return code of the kernel.
pub type KernReturnT = i32;

/// Name of a Mach port.
pub type MachPortT = u32;

/// Name of the port of a user client.
pub type IoConnectT = u32;

/// Name of the port of a service.
pub type IoServiceT = u32;

/// Name of the port of any kernel object.
pub type IoObjectT = u32;

pub const KERN_SUCCESS: KernReturnT = 0;

/// 0xE00002C1
pub const K_IO_RETURN_NOT_PRIVILEGED: KernReturnT = -536870207;

/// 0xE00002C2
pub const K_IO_RETURN_NOT_PERMITTED: KernReturnT = -536870206;

/// 0xE00002F0
pub const K_IO_RETURN_NOT_FOUND: KernReturnT = -536870160;

/// 0xE0000229
pub const K_IO_RETURN_BUSY: KernReturnT = -536870359;

/// 0xE0000306
pub const K_IO_RETURN_TIMEOUT: KernReturnT = -536870138;

/// The kernel does not know port guards.
pub const K_KERN_NOT_SUPPORTED: KernReturnT = 0x2e;

/// Strict port guards: a violation is fatal.
pub const MPG_STRICT: u32 = 1;

/// The port name that names nothing.
pub const MACH_PORT_NULL: MachPortT = 0;

/// The method of the user client that carries every command.
pub const SMC_SELECTOR: u32 = 2;

/// Result byte: there is no such key.
pub const SMC_ERR_KEY_NOT_FOUND: u8 = 0x84;

/// Result byte: the system mode rejects the write.
pub const SMC_ERR_SYSTEM_MODE_REJECTS: u8 = 0x82;

/// Everything that can go wrong between the daemon and the SMC.
#[derive(Debug, Clone, PartialEq, Eq)]
#[non_exhaustive]
#[allow(inconsistent_fields)]
pub enum SmcError {
    /// There is no SMC here.
    ServiceNotFound,
    /// The user client could not be opened.
    OpenFailed(KernReturnT),
    /// Opening took too long.
    OpenTimeout,
    /// A call failed in the kernel.
    CallFailed { selector: u32, kr: KernReturnT, cmd: u8 },
    /// The SMC answered a command with an error.
    SmcResult { cmd: u8, result_byte: u8 },
    /// There is no such key.
    KeyNotFound(u32),
    /// The key has another type.
    TypeMismatch { fourcc: u32, expected: u32, got: u32 },
    /// The SMC reported more bytes than a value can have.
    DataSizeClamped { fourcc: u32, reported: u32 },
    /// A NaN or an infinity.
    InvalidFloat { fourcc: u32 },
    /// The SMC reported neither a size nor a type.
    EmptyResponse { fourcc: u32 },
    /// The connection is closed.
    AlreadyClosed,
    /// The SMC stayed busy.
    Busy { retried: bool },
    /// The SMC did not answer in time.
    Timeout { retried: bool },
    /// The attributes of the key forbid reading.
    AttributeDenied { fourcc: u32 },
    /// The key is not one that may be written.
    WriteDenied(u32),
    /// The value has another size than the key.
    SizeMismatch { fourcc: u32, expected: u32, got: u32 },
    /// A number that only a swapped byte order explains.
    EndiannessUnplausible { fourcc: u32, got: u32 },
    /// The diagnostic unlock read back differently.
    UnlockMismatch { expected: u8, got: u8, session: SessionId, timestamp_ns: u64 },
    /// The SMC rejected the diagnostic unlock.
    UnlockRejected { result_byte: u8, session: SessionId },
    /// The SMC rejected a fan write.
    WriteRefused {
        fourcc: u32,
        result_byte: u8,
        context: &'static str,
        session: SessionId,
        timestamp_ns: u64,
    },
    /// A write read back differently.
    WriteReadbackMismatch {
        fourcc: u32,
        expected: [u8; 4],
        expected_len: u8,
        got: [u8; 4],
        got_len: u8,
        session: SessionId,
        timestamp_ns: u64,
        iteration: Option<u8>,
    },
    /// No round trip succeeded for too long.
    WatchdogFired { elapsed_ms: u64, session: SessionId },
    /// Another instance holds the lock. Its PID is a hint, not a fact.
    ConflictDetected { holder_pid: i32, lockfile_path: String },
    /// A security agent denied the open.
    EdrDenied { suspected_agent: Option<String> },
    /// The privacy settings denied the open.
    TccDenied,
    /// Lockdown Mode denied the open.
    LockdownModeSuspected,
}

/// A return code as the kernel writes it, without a sign.
pub open spec fn unsigned(kr: KernReturnT) -> nat {
    (if kr < 0 {
        kr + 0x1_0000_0000
    } else {
        kr as int
    }) as nat
}

/// The symbolic name of a return code.
pub open spec fn return_name(kr: KernReturnT) -> Seq<char> {
    if kr == KERN_SUCCESS {
        "kIOReturnSuccess"@
    } else if kr == K_IO_RETURN_NOT_PRIVILEGED {
        "kIOReturnNotPrivileged"@
    } else if kr == K_IO_RETURN_NOT_PERMITTED {
        "kIOReturnNotPermitted"@
    } else if kr == K_IO_RETURN_NOT_FOUND {
        "kIOReturnNotFound"@
    } else if kr == K_IO_RETURN_BUSY {
        "kIOReturnBusy"@
    } else if kr == K_IO_RETURN_TIMEOUT {
        "kIOReturnTimeout"@
    } else {
        "kIOReturn<unknown>"@
    }
}

/// The symbolic name of a return code.
#[must_use]
pub fn kern_return_name(kr: KernReturnT) -> (r: &'static str)
    ensures
        r@ == return_name(kr),
{
    if kr == KERN_SUCCESS {
        "kIOReturnSuccess"
    } else if kr == K_IO_RETURN_NOT_PRIVILEGED {
        "kIOReturnNotPrivileged"
    } else if kr == K_IO_RETURN_NOT_PERMITTED {
        "kIOReturnNotPermitted"
    } else if kr == K_IO_RETURN_NOT_FOUND {
        "kIOReturnNotFound"
    } else if kr == K_IO_RETURN_BUSY {
        "kIOReturnBusy"
    } else if kr == K_IO_RETURN_TIMEOUT {
        "kIOReturnTimeout"
    } else {
        "kIOReturn<unknown>"
    }
}

/// A byte of a key as a character: itself when it is printable ASCII, else `?`.
pub open spec fn printable(b: nat) -> char {
    if 32 <= b <= 126 {
        b as char
    } else {
        '?'
    }
}

/// A key as text.
pub open spec fn fourcc_text(fourcc: u32) -> Seq<char> {
    seq![
        printable((fourcc / 0x100_0000) as nat),
        printable((fourcc / 0x1_0000 % 0x100) as nat),
        printable((fourcc / 0x100 % 0x100) as nat),
        printable((fourcc % 0x100) as nat),
    ]
}

fn printable_char(b: u8) -> (c: char)
    ensures
        c == printable(b as nat),
{
    if 32 <= b && b <= 126 {
        b as char
    } else {
        '?'
    }
}

/// A key as text.
#[must_use]
pub fn fourcc_to_str(fourcc: u32) -> (r: String)
    ensures
        r@ == fourcc_text(fourcc),
{
    let mut s: String = String::new();
    s.push(printable_char((fourcc / 0x100_0000) as u8));
    s.push(printable_char((fourcc / 0x1_0000 % 0x100) as u8));
    s.push(printable_char((fourcc / 0x100 % 0x100) as u8));
    s.push(printable_char((fourcc % 0x100) as u8));
    assert(s@ =~= fourcc_text(fourcc));
    s
}

fn push_key(s: &mut String, fourcc: u32)
    ensures
        final(s)@ == old(s)@ + fourcc_text(fourcc),
{
    let k: String = fourcc_to_str(fourcc);
    s.append(k.as_str());
}

fn push_session(s: &mut String, session: &SessionId)
    ensures
        final(s)@ == old(s)@ + session.text(),
{
    let k: String = session.as_str();
    s.append(k.as_str());
}

fn push_return(s: &mut String, kr: KernReturnT)
    ensures
        final(s)@ == old(s)@ + hex_upper(unsigned(kr), 1),
{
    let n: u64 = if kr < 0 {
        (kr as i64 + 0x1_0000_0000) as u64
    } else {
        kr as u64
    };
    push_hex_upper(s, n, 1);
}

fn push_bool(s: &mut String, b: bool)
    ensures
        final(s)@ == old(s)@ + bool_text(b),
{
    if b {
        s.append("true");
    } else {
        s.append("false");
    }
}

/// A truth value as text.
pub open spec fn bool_text(b: bool) -> Seq<char> {
    if b {
        "true"@
    } else {
        "false"@
    }
}

/// How many of four bytes count.
pub open spec fn shown(len: u8) -> int {
    if len < 4 {
        len as int
    } else {
        4
    }
}

/// The text of a failed open.
pub open spec fn open_failed_text(kr: KernReturnT) -> Seq<char> {
    "IOServiceOpen failed: "@ + return_name(kr) + " (0x"@ + hex_upper(unsigned(kr), 1) + (if kr
        == K_IO_RETURN_NOT_PRIVILEGED {
        ") — not root, run with sudo"@
    } else if kr == K_IO_RETURN_NOT_PERMITTED {
        ") — permission denied. Possible causes: (a) a future macOS version added an entitlement gate to AppleSMC, (b) macOS Lockdown Mode is enabled, (c) an EndpointSecurity client (EDR/MDM such as CrowdStrike Falcon, SentinelOne, Jamf Protect) denied the AUTH_IOKIT_OPEN event"@
    } else {
        ")"@
    })
}

fn open_failed_message(kr: KernReturnT) -> (s: String)
    ensures
        s@ == open_failed_text(kr),
{
    let mut s: String = String::from_str("IOServiceOpen failed: ");
    s.append(kern_return_name(kr));
    s.append(" (0x");
    push_return(&mut s, kr);
    if kr == K_IO_RETURN_NOT_PRIVILEGED {
        s.append(") — not root, run with sudo");
    } else if kr == K_IO_RETURN_NOT_PERMITTED {
        s.append(
            ") — permission denied. Possible causes: (a) a future macOS version added an entitlement gate to AppleSMC, (b) macOS Lockdown Mode is enabled, (c) an EndpointSecurity client (EDR/MDM such as CrowdStrike Falcon, SentinelOne, Jamf Protect) denied the AUTH_IOKIT_OPEN event",
        );
    } else {
        s.append(")");
    }
    s
}

/// The text of an error byte that the SMC answered with.
pub open spec fn smc_result_text(cmd: u8, result_byte: u8) -> Seq<char> {
    if result_byte == SMC_ERR_KEY_NOT_FOUND {
        "SMC cmd "@ + decimal(cmd as nat) + ": key not found (0x"@ + hex_upper(
            result_byte as nat,
            2,
        ) + ")"@
    } else if result_byte == SMC_ERR_SYSTEM_MODE_REJECTS {
        "SMC cmd "@ + decimal(cmd as nat) + ": system mode rejects write (0x"@ + hex_upper(
            result_byte as nat,
            2,
        ) + ") — Ftst unlock required"@
    } else {
        "SMC cmd "@ + decimal(cmd as nat) + ": result byte 0x"@ + hex_upper(result_byte as nat, 2)
    }
}

fn smc_result_message(cmd: u8, result_byte: u8) -> (s: String)
    ensures
        s@ == smc_result_text(cmd, result_byte),
{
    let mut s: String = String::from_str("SMC cmd ");
    push_decimal(&mut s, cmd as u64);
    if result_byte == SMC_ERR_KEY_NOT_FOUND {
        s.append(": key not found (0x");
        push_hex_upper(&mut s, result_byte as u64, 2);
        s.append(")");
    } else if result_byte == SMC_ERR_SYSTEM_MODE_REJECTS {
        s.append(": system mode rejects write (0x");
        push_hex_upper(&mut s, result_byte as u64, 2);
        s.append(") — Ftst unlock required");
    } else {
        s.append(": result byte 0x");
        push_hex_upper(&mut s, result_byte as u64, 2);
    }
    s
}

/// The text of a readback that differs.
pub open spec fn mismatch_text(
    fourcc: u32,
    expected: Seq<u8>,
    got: Seq<u8>,
    session: SessionId,
    iteration: Option<u8>,
) -> Seq<char> {
    "session "@ + session.text() + (match iteration {
        Some(n) => " iter "@ + decimal(n as nat),
        None => Seq::empty(),
    }) + ": round-trip mismatch on "@ + fourcc_text(fourcc) + ": wrote "@ + hex_list(expected, true)
        + ", read back "@ + hex_list(got, true)
}

fn mismatch_message(
    fourcc: u32,
    expected: &[u8; 4],
    expected_len: u8,
    got: &[u8; 4],
    got_len: u8,
    session: &SessionId,
    iteration: Option<u8>,
) -> (s: String)
    ensures
        s@ == mismatch_text(
            fourcc,
            expected@.take(shown(expected_len)),
            got@.take(shown(got_len)),
            *session,
            iteration,
        ),
{
    let mut s: String = String::from_str("session ");
    push_session(&mut s, session);
    let ghost head = s@;
    match iteration {
        Some(n) => {
            s.append(" iter ");
            push_decimal(&mut s, n as u64);
            assert(s@ =~= head + (" iter "@ + decimal(n as nat)));
        },
        None => {
            assert(s@ =~= head + Seq::<char>::empty());
        },
    }
    s.append(": round-trip mismatch on ");
    push_key(&mut s, fourcc);
    s.append(": wrote ");
    let el: usize = if expected_len < 4 {
        expected_len as usize
    } else {
        4
    };
    push_hex_list(&mut s, expected.as_slice(), el, true);
    s.append(", read back ");
    let gl: usize = if got_len < 4 {
        got_len as usize
    } else {
        4
    };
    push_hex_list(&mut s, got.as_slice(), gl, true);
    s
}

/// The text of a denied open.
pub open spec fn edr_text(agent: Option<Seq<char>>) -> Seq<char> {
    match agent {
        Some(name) => "IOServiceOpen denied — EndpointSecurity agent '"@ + name
            + "' appears to be blocking AUTH_IOKIT_OPEN on com.apple.AppleSMC. Contact your fleet administrator or allowlist fand"@,
        None => "IOServiceOpen denied — an EndpointSecurity agent appears to be blocking AUTH_IOKIT_OPEN on com.apple.AppleSMC (agent not identified)"@,
    }
}

impl SmcError {
    /// The text of [`SmcError::message`].
    pub open spec fn text(self) -> Seq<char> {
        match self {
            SmcError::ServiceNotFound => "AppleSMC user client not found — this tool requires Apple Silicon macOS 14+"@,
            SmcError::OpenFailed(kr) => open_failed_text(kr),
            SmcError::OpenTimeout => "SmcConnection::open() exceeded 500ms deadline"@,
            SmcError::CallFailed { selector, kr, cmd } => "IOConnectCallStructMethod(selector="@
                + decimal(selector as nat) + ", cmd="@ + decimal(cmd as nat) + ") failed: "@
                + return_name(kr) + " (0x"@ + hex_upper(unsigned(kr), 1) + ")"@,
            SmcError::SmcResult { cmd, result_byte } => smc_result_text(cmd, result_byte),
            SmcError::KeyNotFound(fourcc) => "SMC key "@ + fourcc_text(fourcc) + " not found"@,
            SmcError::TypeMismatch { fourcc, expected, got } => "SMC key "@ + fourcc_text(fourcc)
                + " type mismatch: expected "@ + fourcc_text(expected) + ", got "@ + fourcc_text(
                got,
            ),
            SmcError::DataSizeClamped { fourcc, reported } => "SMC key "@ + fourcc_text(fourcc)
                + " returned data_size="@ + decimal(reported as nat) + " (clamped to 32)"@,
            SmcError::InvalidFloat { fourcc } => "SMC key "@ + fourcc_text(fourcc)
                + " decoded as NaN or infinity"@,
            SmcError::EmptyResponse { fourcc } => "SMC key "@ + fourcc_text(fourcc)
                + " returned empty response (kern_return=0, result=0, data_size=0)"@,
            SmcError::AlreadyClosed => "SmcConnection already closed"@,
            SmcError::Busy { retried } => "SMC kIOReturnBusy (retried: "@ + bool_text(retried)
                + ")"@,
            SmcError::Timeout { retried } => "SMC kIOReturnTimeout (retried: "@ + bool_text(retried)
                + ")"@,
            SmcError::AttributeDenied { fourcc } => "SMC key "@ + fourcc_text(fourcc)
                + " attribute bits forbid read (WRITE-only or FUNCTION)"@,
            SmcError::WriteDenied(fourcc) => "SMC key "@ + fourcc_text(fourcc)
                + " not in write whitelist"@,
            SmcError::SizeMismatch { fourcc, expected, got } => "SMC key "@ + fourcc_text(fourcc)
                + " size mismatch: expected "@ + decimal(expected as nat) + " bytes, got "@
                + decimal(got as nat),
            SmcError::EndiannessUnplausible { fourcc, got } => "SMC key "@ + fourcc_text(fourcc)
                + " decoded to implausible value "@ + decimal(got as nat) + " (0x"@ + hex_upper(
                got as nat,
                8,
            ) + ") — ui32 decoder endianness is almost certainly inverted. See src/smc/types.rs::decode_ui32 and FR-042/FR-061"@,
            SmcError::UnlockMismatch { expected, got, session, timestamp_ns } => "session "@
                + session.text() + ": diagnostic unlock readback mismatch: wrote Ftst="@ + decimal(
                expected as nat,
            ) + ", read Ftst="@ + decimal(got as nat)
                + " — CRITICAL, fan may remain in manual mode indefinitely"@,
            SmcError::UnlockRejected { result_byte, session } => "session "@ + session.text()
                + ": SMC rejected Ftst=1 with result byte 0x"@ + hex_upper(result_byte as nat, 2)
                + " — diagnostic unlock failed, write path is unavailable"@,
            SmcError::WriteRefused { fourcc, result_byte, context, session, timestamp_ns } =>
                "session "@ + session.text() + ": write refused on "@ + fourcc_text(fourcc) + " ("@
                + context@ + ") with SMC result byte 0x"@ + hex_upper(result_byte as nat, 2),
            SmcError::WriteReadbackMismatch {
                fourcc,
                expected,
                expected_len,
                got,
                got_len,
                session,
                timestamp_ns,
                iteration,
            } => mismatch_text(
                fourcc,
                expected@.take(shown(expected_len)),
                got@.take(shown(got_len)),
                session,
                iteration,
            ),
            SmcError::WatchdogFired { elapsed_ms, session } => "session "@ + session.text()
                + ": userspace watchdog fired after "@ + decimal(elapsed_ms as nat)
                + " ms without a successful round-trip — fans returned to auto control"@,
            SmcError::ConflictDetected { holder_pid, lockfile_path } =>
                "another fand instance holds "@ + lockfile_path@ + " (PID "@ + signed_decimal(
                holder_pid as int,
            ) + ", untrusted — verify with ps before acting). Wait for it to finish or investigate if stuck"@,
            SmcError::EdrDenied { suspected_agent } => edr_text(
                match suspected_agent {
                    Some(name) => Some(name@),
                    None => None,
                },
            ),
            SmcError::TccDenied => "IOServiceOpen denied — TCC (Privacy & Security) appears to be gating com.apple.AppleSMC. Grant Developer Tools or Full Disk Access to fand in System Settings"@,
            SmcError::LockdownModeSuspected => "IOServiceOpen denied — macOS Lockdown Mode appears to be active and blocking com.apple.AppleSMC user client open"@,
        }
    }

    fn connection_message(&self) -> (s: String)
        requires
            self is CallFailed || self is KeyNotFound || self is TypeMismatch || self is DataSizeClamped
                || self is SizeMismatch || self is EndiannessUnplausible,
        ensures
            s@ == self.text(),
    {
        let mut s: String = String::from_str("SMC key ");
        match self {
            SmcError::CallFailed { selector, kr, cmd } => {
                s = String::from_str("IOConnectCallStructMethod(selector=");
                push_decimal(&mut s, *selector as u64);
                s.append(", cmd=");
                push_decimal(&mut s, *cmd as u64);
                s.append(") failed: ");
                s.append(kern_return_name(*kr));
                s.append(" (0x");
                push_return(&mut s, *kr);
                s.append(")");
            },
            SmcError::KeyNotFound(fourcc) => {
                push_key(&mut s, *fourcc);
                s.append(" not found");
            },
            SmcError::TypeMismatch { fourcc, expected, got } => {
                push_key(&mut s, *fourcc);
                s.append(" type mismatch: expected ");
                push_key(&mut s, *expected);
                s.append(", got ");
                push_key(&mut s, *got);
            },
            SmcError::DataSizeClamped { fourcc, reported } => {
                push_key(&mut s, *fourcc);
                s.append(" returned data_size=");
                push_decimal(&mut s, *reported as u64);
                s.append(" (clamped to 32)");
            },
            SmcError::SizeMismatch { fourcc, expected, got } => {
                push_key(&mut s, *fourcc);
                s.append(" size mismatch: expected ");
                push_decimal(&mut s, *expected as u64);
                s.append(" bytes, got ");
                push_decimal(&mut s, *got as u64);
            },
            SmcError::EndiannessUnplausible { fourcc, got } => {
                push_key(&mut s, *fourcc);
                s.append(" decoded to implausible value ");
                push_decimal(&mut s, *got as u64);
                s.append(" (0x");
                push_hex_upper(&mut s, *got as u64, 8);
                s.append(
                    ") — ui32 decoder endianness is almost certainly inverted. See src/smc/types.rs::decode_ui32 and FR-042/FR-061",
                );
            },
            _ => {},
        }
        s
    }

    fn session_message(&self) -> (s: String)
        requires
            self is UnlockMismatch || self is UnlockRejected || self is WriteRefused
                || self is WatchdogFired,
        ensures
            s@ == self.text(),
    {
        let mut s: String = String::from_str("session ");
        match self {
            SmcError::UnlockMismatch { expected, got, session, timestamp_ns: _ } => {
                push_session(&mut s, session);
                s.append(": diagnostic unlock readback mismatch: wrote Ftst=");
                push_decimal(&mut s, *expected as u64);
                s.append(", read Ftst=");
                push_decimal(&mut s, *got as u64);
                s.append(" — CRITICAL, fan may remain in manual mode indefinitely");
            },
            SmcError::UnlockRejected { result_byte, session } => {
                push_session(&mut s, session);
                s.append(": SMC rejected Ftst=1 with result byte 0x");
                push_hex_upper(&mut s, *result_byte as u64, 2);
                s.append(" — diagnostic unlock failed, write path is unavailable");
            },
            SmcError::WriteRefused { fourcc, result_byte, context, session, timestamp_ns: _ } => {
                push_session(&mut s, session);
                s.append(": write refused on ");
                push_key(&mut s, *fourcc);
                s.append(" (");
                s.append(context);
                s.append(") with SMC result byte 0x");
                push_hex_upper(&mut s, *result_byte as u64, 2);
            },
            SmcError::WatchdogFired { elapsed_ms, session } => {
                push_session(&mut s, session);
                s.append(": userspace watchdog fired after ");
                push_decimal(&mut s, *elapsed_ms);
                s.append(" ms without a successful round-trip — fans returned to auto control");
            },
            _ => {},
        }
        s
    }

    /// The error in words.
    pub fn message(&self) -> (s: String)
        ensures
            s@ == self.text(),
    {
        match self {
            SmcError::ServiceNotFound => String::from_str(
                "AppleSMC user client not found — this tool requires Apple Silicon macOS 14+",
            ),
            SmcError::OpenFailed(kr) => open_failed_message(*kr),
            SmcError::OpenTimeout => String::from_str(
                "SmcConnection::open() exceeded 500ms deadline",
            ),
            SmcError::SmcResult { cmd, result_byte } => smc_result_message(*cmd, *result_byte),
            SmcError::InvalidFloat { fourcc } => {
                let mut s: String = String::from_str("SMC key ");
                push_key(&mut s, *fourcc);
                s.append(" decoded as NaN or infinity");
                s
            },
            SmcError::EmptyResponse { fourcc } => {
                let mut s: String = String::from_str("SMC key ");
                push_key(&mut s, *fourcc);
                s.append(" returned empty response (kern_return=0, result=0, data_size=0)");
                s
            },
            SmcError::AlreadyClosed => String::from_str("SmcConnection already closed"),
            SmcError::Busy { retried } => {
                let mut s: String = String::from_str("SMC kIOReturnBusy (retried: ");
                push_bool(&mut s, *retried);
                s.append(")");
                s
            },
            SmcError::Timeout { retried } => {
                let mut s: String = String::from_str("SMC kIOReturnTimeout (retried: ");
                push_bool(&mut s, *retried);
                s.append(")");
                s
            },
            SmcError::AttributeDenied { fourcc } => {
                let mut s: String = String::from_str("SMC key ");
                push_key(&mut s, *fourcc);
                s.append(" attribute bits forbid read (WRITE-only or FUNCTION)");
                s
            },
            SmcError::WriteDenied(fourcc) => {
                let mut s: String = String::from_str("SMC key ");
                push_key(&mut s, *fourcc);
                s.append(" not in write whitelist");
                s
            },
            SmcError::UnlockMismatch { .. } => self.session_message(),
            SmcError::UnlockRejected { .. } => self.session_message(),
            SmcError::WriteRefused { .. } => self.session_message(),
            SmcError::WatchdogFired { .. } => self.session_message(),
            SmcError::WriteReadbackMismatch {
                fourcc,
                expected,
                expected_len,
                got,
                got_len,
                session,
                timestamp_ns: _,
                iteration,
            } => mismatch_message(
                *fourcc,
                expected,
                *expected_len,
                got,
                *got_len,
                session,
                *iteration,
            ),
            SmcError::ConflictDetected { holder_pid, lockfile_path } => {
                let mut s: String = String::from_str("another fand instance holds ");
                s.append(lockfile_path.as_str());
                s.append(" (PID ");
                push_signed(&mut s, *holder_pid as i64);
                s.append(
                    ", untrusted — verify with ps before acting). Wait for it to finish or investigate if stuck",
                );
                s
            },
            SmcError::EdrDenied { suspected_agent } => {
                match suspected_agent {
                    Some(name) => {
                        let mut s: String = String::from_str(
                            "IOServiceOpen denied — EndpointSecurity agent '",
                        );
                        s.append(name.as_str());
                        s.append(
                            "' appears to be blocking AUTH_IOKIT_OPEN on com.apple.AppleSMC. Contact your fleet administrator or allowlist fand",
                        );
                        s
                    },
                    None => String::from_str(
                        "IOServiceOpen denied — an EndpointSecurity agent appears to be blocking AUTH_IOKIT_OPEN on com.apple.AppleSMC (agent not identified)",
                    ),
                }
            },
            SmcError::TccDenied => String::from_str(
                "IOServiceOpen denied — TCC (Privacy & Security) appears to be gating com.apple.AppleSMC. Grant Developer Tools or Full Disk Access to fand in System Settings",
            ),
            SmcError::LockdownModeSuspected => String::from_str(
                "IOServiceOpen denied — macOS Lockdown Mode appears to be active and blocking com.apple.AppleSMC user client open",
            ),
            _ => self.connection_message(),
        }
    }

    /// The stable code of the error.
    pub open spec fn code(self) -> Seq<char> {
        match self {
            SmcError::ServiceNotFound => "SERVICE_NOT_FOUND"@,
            SmcError::OpenFailed(_) => "OPEN_FAILED"@,
            SmcError::OpenTimeout => "OPEN_TIMEOUT"@,
            SmcError::CallFailed { .. } => "CALL_FAILED"@,
            SmcError::SmcResult { .. } => "SMC_RESULT"@,
            SmcError::KeyNotFound(_) => "KEY_NOT_FOUND"@,
            SmcError::TypeMismatch { .. } => "TYPE_MISMATCH"@,
            SmcError::DataSizeClamped { .. } => "DATA_SIZE_CLAMPED"@,
            SmcError::InvalidFloat { .. } => "INVALID_FLOAT"@,
            SmcError::EmptyResponse { .. } => "EMPTY_RESPONSE"@,
            SmcError::AlreadyClosed => "ALREADY_CLOSED"@,
            SmcError::Busy { .. } => "BUSY"@,
            SmcError::Timeout { .. } => "TIMEOUT"@,
            SmcError::AttributeDenied { .. } => "ATTRIBUTE_DENIED"@,
            SmcError::WriteDenied(_) => "WRITE_DENIED"@,
            SmcError::SizeMismatch { .. } => "SIZE_MISMATCH"@,
            SmcError::EndiannessUnplausible { .. } => "ENDIANNESS_UNPLAUSIBLE"@,
            SmcError::UnlockMismatch { .. } => "UNLOCK_MISMATCH"@,
            SmcError::UnlockRejected { .. } => "UNLOCK_REJECTED"@,
            SmcError::WriteRefused { .. } => "WRITE_REFUSED"@,
            SmcError::WriteReadbackMismatch { .. } => "WRITE_READBACK_MISMATCH"@,
            SmcError::WatchdogFired { .. } => "WATCHDOG_FIRED"@,
            SmcError::ConflictDetected { .. } => "CONFLICT_DETECTED"@,
            SmcError::EdrDenied { .. } => "EDR_DENIED"@,
            SmcError::TccDenied => "TCC_DENIED"@,
            SmcError::LockdownModeSuspected => "LOCKDOWN_MODE_SUSPECTED"@,
        }
    }

    /// The stable code of the error, one for each variant. Programs branch on
    /// it, not on the text.
    #[must_use]
    pub fn error_code(&self) -> (r: &'static str)
        ensures
            r@ == self.code(),
    {
        match self {
            SmcError::ServiceNotFound => "SERVICE_NOT_FOUND",
            SmcError::OpenFailed(_) => "OPEN_FAILED",
            SmcError::OpenTimeout => "OPEN_TIMEOUT",
            SmcError::CallFailed { .. } => "CALL_FAILED",
            SmcError::SmcResult { .. } => "SMC_RESULT",
            SmcError::KeyNotFound(_) => "KEY_NOT_FOUND",
            SmcError::TypeMismatch { .. } => "TYPE_MISMATCH",
            SmcError::DataSizeClamped { .. } => "DATA_SIZE_CLAMPED",
            SmcError::InvalidFloat { .. } => "INVALID_FLOAT",
            SmcError::EmptyResponse { .. } => "EMPTY_RESPONSE",
            SmcError::AlreadyClosed => "ALREADY_CLOSED",
            SmcError::Busy { .. } => "BUSY",
            SmcError::Timeout { .. } => "TIMEOUT",
            SmcError::AttributeDenied { .. } => "ATTRIBUTE_DENIED",
            SmcError::WriteDenied(_) => "WRITE_DENIED",
            SmcError::SizeMismatch { .. } => "SIZE_MISMATCH",
            SmcError::EndiannessUnplausible { .. } => "ENDIANNESS_UNPLAUSIBLE",
            SmcError::UnlockMismatch { .. } => "UNLOCK_MISMATCH",
            SmcError::UnlockRejected { .. } => "UNLOCK_REJECTED",
            SmcError::WriteRefused { .. } => "WRITE_REFUSED",
            SmcError::WriteReadbackMismatch { .. } => "WRITE_READBACK_MISMATCH",
            SmcError::WatchdogFired { .. } => "WATCHDOG_FIRED",
            SmcError::ConflictDetected { .. } => "CONFLICT_DETECTED",
            SmcError::EdrDenied { .. } => "EDR_DENIED",
            SmcError::TccDenied => "TCC_DENIED",
            SmcError::LockdownModeSuspected => "LOCKDOWN_MODE_SUSPECTED",
        }
    }
}

/// The variant of an error, as a number.
pub open spec fn variant(e: SmcError) -> nat {
    match e {
        SmcError::ServiceNotFound => 0,
        SmcError::OpenFailed(_) => 1,
        SmcError::OpenTimeout => 2,
        SmcError::CallFailed { .. } => 3,
        SmcError::SmcResult { .. } => 4,
        SmcError::KeyNotFound(_) => 5,
        SmcError::TypeMismatch { .. } => 6,
        SmcError::DataSizeClamped { .. } => 7,
        SmcError::InvalidFloat { .. } => 8,
        SmcError::EmptyResponse { .. } => 9,
        SmcError::AlreadyClosed => 10,
        SmcError::Busy { .. } => 11,
        SmcError::Timeout { .. } => 12,
        SmcError::AttributeDenied { .. } => 13,
        SmcError::WriteDenied(_) => 14,
        SmcError::SizeMismatch { .. } => 15,
        SmcError::EndiannessUnplausible { .. } => 16,
        SmcError::UnlockMismatch { .. } => 17,
        SmcError::UnlockRejected { .. } => 18,
        SmcError::WriteRefused { .. } => 19,
        SmcError::WriteReadbackMismatch { .. } => 20,
        SmcError::WatchdogFired { .. } => 21,
        SmcError::ConflictDetected { .. } => 22,
        SmcError::EdrDenied { .. } => 23,
        SmcError::TccDenied => 24,
        SmcError::LockdownModeSuspected => 25,
    }
}

/// Length, first and last character of a code.
spec fn fingerprint(c: Seq<char>) -> (nat, char, char) {
    (c.len(), c[0], c.last())
}

/// The fingerprint of the code of a variant.
spec fn variant_fingerprint(v: nat) -> (nat, char, char) {
    if v == 0 {
        (17, 'S', 'D')
    } else if v == 1 {
        (11, 'O', 'D')
    } else if v == 2 {
        (12, 'O', 'T')
    } else if v == 3 {
        (11, 'C', 'D')
    } else if v == 4 {
        (10, 'S', 'T')
    } else if v == 5 {
        (13, 'K', 'D')
    } else if v == 6 {
        (13, 'T', 'H')
    } else if v == 7 {
        (17, 'D', 'D')
    } else if v == 8 {
        (13, 'I', 'T')
    } else if v == 9 {
        (14, 'E', 'E')
    } else if v == 10 {
        (14, 'A', 'D')
    } else if v == 11 {
        (4, 'B', 'Y')
    } else if v == 12 {
        (7, 'T', 'T')
    } else if v == 13 {
        (16, 'A', 'D')
    } else if v == 14 {
        (12, 'W', 'D')
    } else if v == 15 {
        (13, 'S', 'H')
    } else if v == 16 {
        (22, 'E', 'E')
    } else if v == 17 {
        (15, 'U', 'H')
    } else if v == 18 {
        (15, 'U', 'D')
    } else if v == 19 {
        (13, 'W', 'D')
    } else if v == 20 {
        (23, 'W', 'H')
    } else if v == 21 {
        (14, 'W', 'D')
    } else if v == 22 {
        (17, 'C', 'D')
    } else if v == 23 {
        (10, 'E', 'D')
    } else if v == 24 {
        (10, 'T', 'D')
    } else {
        (23, 'L', 'D')
    }
}

proof fn lemma_code_fingerprint(e: SmcError)
    ensures
        fingerprint(e.code()) == variant_fingerprint(variant(e)),
{
    reveal_strlit("SERVICE_NOT_FOUND");
    reveal_strlit("OPEN_FAILED");
    reveal_strlit("OPEN_TIMEOUT");
    reveal_strlit("CALL_FAILED");
    reveal_strlit("SMC_RESULT");
    reveal_strlit("KEY_NOT_FOUND");
    reveal_strlit("TYPE_MISMATCH");
    reveal_strlit("DATA_SIZE_CLAMPED");
    reveal_strlit("INVALID_FLOAT");
    reveal_strlit("EMPTY_RESPONSE");
    reveal_strlit("ALREADY_CLOSED");
    reveal_strlit("BUSY");
    reveal_strlit("TIMEOUT");
    reveal_strlit("ATTRIBUTE_DENIED");
    reveal_strlit("WRITE_DENIED");
    reveal_strlit("SIZE_MISMATCH");
    reveal_strlit("ENDIANNESS_UNPLAUSIBLE");
    reveal_strlit("UNLOCK_MISMATCH");
    reveal_strlit("UNLOCK_REJECTED");
    reveal_strlit("WRITE_REFUSED");
    reveal_strlit("WRITE_READBACK_MISMATCH");
    reveal_strlit("WATCHDOG_FIRED");
    reveal_strlit("CONFLICT_DETECTED");
    reveal_strlit("EDR_DENIED");
    reveal_strlit("TCC_DENIED");
    reveal_strlit("LOCKDOWN_MODE_SUSPECTED");
}

/// Errors of different variants have different codes.
pub proof fn law_codes_are_distinct(a: SmcError, b: SmcError)
    requires
        a.code() == b.code(),
    ensures
        variant(a) == variant(b),
{
    lemma_code_fingerprint(a);
    lemma_code_fingerprint(b);
}

/// A code is not empty, and holds capital letters and underscores only.
pub proof fn law_codes_are_capitals(e: SmcError)
    ensures
        e.code().len() > 0,
        forall|i: int|
            0 <= i < e.code().len() ==> 'A' <= #[trigger] e.code()[i] <= 'Z' || e.code()[i] == '_',
{
    reveal_strlit("SERVICE_NOT_FOUND");
    reveal_strlit("OPEN_FAILED");
    reveal_strlit("OPEN_TIMEOUT");
    reveal_strlit("CALL_FAILED");
    reveal_strlit("SMC_RESULT");
    reveal_strlit("KEY_NOT_FOUND");
    reveal_strlit("TYPE_MISMATCH");
    reveal_strlit("DATA_SIZE_CLAMPED");
    reveal_strlit("INVALID_FLOAT");
    reveal_strlit("EMPTY_RESPONSE");
    reveal_strlit("ALREADY_CLOSED");
    reveal_strlit("BUSY");
    reveal_strlit("TIMEOUT");
    reveal_strlit("ATTRIBUTE_DENIED");
    reveal_strlit("WRITE_DENIED");
    reveal_strlit("SIZE_MISMATCH");
    reveal_strlit("ENDIANNESS_UNPLAUSIBLE");
    reveal_strlit("UNLOCK_MISMATCH");
    reveal_strlit("UNLOCK_REJECTED");
    reveal_strlit("WRITE_REFUSED");
    reveal_strlit("WRITE_READBACK_MISMATCH");
    reveal_strlit("WATCHDOG_FIRED");
    reveal_strlit("CONFLICT_DETECTED");
    reveal_strlit("EDR_DENIED");
    reveal_strlit("TCC_DENIED");
    reveal_strlit("LOCKDOWN_MODE_SUSPECTED");
}

} // verus!
