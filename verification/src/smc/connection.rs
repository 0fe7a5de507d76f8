//! A connection to the SMC: opening, calling, reading, writing, closing.

use super::cache::{slot_of, KeyInfoCache};
use super::error::{
    IoConnectT, SmcError, KERN_SUCCESS, K_IO_RETURN_BUSY, K_IO_RETURN_TIMEOUT, MACH_PORT_NULL,
    SMC_ERR_KEY_NOT_FOUND, SMC_SELECTOR,
};
use super::exchange::{Action, Dialog, Exchange, Reply, Request};
use super::keys::{
    Target, WritableKey, SMC_CMD_GET_KEY_FROM_IDX, SMC_CMD_GET_KEY_INFO, SMC_CMD_READ_KEY,
    SMC_CMD_WRITE_KEY, TYPE_FLT, TYPE_UI32, TYPE_UI8,
};
use super::param::{blank, value_bytes, zeros, Frame, SMCParamStruct};
use super::round_trip::{
    one_more, padded, pushed, record_of, RoundTripOutcome, RoundTripRecord, RoundTripRing,
};
use super::types::{
    bytes_of, decode_flt, decode_ui32, decode_ui8, encode_flt, encode_ui8, law_flt_round_trip,
    little_endian, most_first, to_le, SmcValueError,
};
use super::warning::Warning;
use crate::correlation::SessionId;
use crate::flt::Flt;
use vstd::prelude::*;

verus! {

/// The port of a user client. There is no second handle to it.
pub struct IoConnect {
    port: IoConnectT,
}

impl IoConnect {
    pub closed spec fn view(&self) -> IoConnectT {
        self.port
    }

    pub(crate) fn from_raw(raw: IoConnectT) -> (r: IoConnect)
        ensures
            r@ == raw,
    {
        IoConnect { port: raw }
    }

    /// The port; the null port once the connection is closed.
    #[must_use]
    pub fn raw(&self) -> (r: IoConnectT)
        ensures
            r == self@,
    {
        self.port
    }

    /// Takes the port and leaves the null port.
    pub fn take(&mut self) -> (r: IoConnectT)
        ensures
            r == old(self)@,
            final(self)@ == MACH_PORT_NULL,
    {
        let p: IoConnectT = self.port;
        self.port = MACH_PORT_NULL;
        p
    }
}

/// Size and type of a key.
#[derive(Debug, Clone, Copy, PartialEq, Eq)]
pub struct KeyInfo {
    pub data_size: u32,
    pub data_type: u32,
}

/// The owner of a user client.
pub struct SmcConnection {
    conn: IoConnect,
    cache: KeyInfoCache,
    owners: [u32; 256],
    connection_open: bool,
    port_guard: u64,
}

/// A state of a connection to go back to. It owns nothing and cannot be called.
pub struct ConnectionMark {
    port: IoConnectT,
    open: bool,
    guard: u64,
    cache: KeyInfoCache,
    owners: [u32; 256],
}

impl ConnectionMark {
    pub closed spec fn view(&self) -> Conn {
        Conn {
            port: self.port,
            open: self.open,
            guard: self.guard,
            cache: self.cache@,
            owners: self.owners@,
        }
    }
}

/// The state of a connection. A slot of the cache belongs to the key that was
/// last stored or looked for in it.
#[verifier::ext_equal]
pub struct Conn {
    pub port: u32,
    pub open: bool,
    pub guard: u64,
    pub cache: Seq<Option<(u32, u32)>>,
    pub owners: Seq<u32>,
}

impl Conn {
    /// The cache has all its slots, and every slot an owner.
    pub open spec fn complete(self) -> bool {
        self.cache.len() == 256 && self.owners.len() == 256
    }

    /// What is remembered of a key: size and type, from an entry of that key.
    pub open spec fn remembered(self, fourcc: u32) -> Option<(u32, u32)> {
        if self.owners[slot_of(fourcc)] == fourcc {
            self.cache[slot_of(fourcc)]
        } else {
            None
        }
    }

    /// The connection with an entry of this key in the key's slot.
    pub open spec fn caching(self, fourcc: u32, entry: Option<(u32, u32)>) -> Conn {
        Conn {
            cache: self.cache.update(slot_of(fourcc), entry),
            owners: self.owners.update(slot_of(fourcc), fourcc),
            ..self
        }
    }
}

/// What is remembered of a key is what was last stored for it; storing it
/// changes what is remembered of no other key, save that a key with the same
/// slot is forgotten.
pub proof fn law_keys_are_not_mixed_up(
    c: Conn,
    fourcc: u32,
    entry: Option<(u32, u32)>,
    other: u32,
)
    requires
        c.complete(),
    ensures
        c.caching(fourcc, entry).complete(),
        c.caching(fourcc, entry).remembered(fourcc) == entry,
        other != fourcc ==> c.caching(fourcc, entry).remembered(other) == (if slot_of(other)
            == slot_of(fourcc) {
            None
        } else {
            c.remembered(other)
        }),
{
}

/// Opening must not take longer than this.
pub const OPEN_DEADLINE_NS: u64 = 500_000_000;

/// `now` is at or beyond the deadline of an open that began at `start`.
pub open spec fn too_late(start: u64, now: u64) -> bool {
    now >= start + OPEN_DEADLINE_NS
}

/// What a reply to a call means.
pub open spec fn call_outcome(cmd: u8, reply: Reply) -> Result<SMCParamStruct, SmcError> {
    if reply.kr == K_IO_RETURN_BUSY {
        Err(SmcError::Busy { retried: true })
    } else if reply.kr == K_IO_RETURN_TIMEOUT {
        Err(SmcError::Timeout { retried: true })
    } else if reply.kr != KERN_SUCCESS {
        Err(SmcError::CallFailed { selector: SMC_SELECTOR, kr: reply.kr, cmd })
    } else if reply.output.result != 0 {
        Err(SmcError::SmcResult { cmd, result_byte: reply.output.result })
    } else {
        Ok(reply.output)
    }
}

/// A call. A busy SMC is asked again once, after 10 ms, and one that timed out
/// once, after 50 ms.
pub open spec fn calling(
    port: u32,
    frame: Frame,
    d: Dialog,
    busy_before: bool,
    timeout_before: bool,
) -> (Result<SMCParamStruct, SmcError>, Dialog)
    decreases (if busy_before { 0int } else { 1int }) + (if timeout_before { 0int } else { 1int }),
{
    let reply = d.answer();
    let after = d.after(Action::Call(port, frame));
    if reply.kr == K_IO_RETURN_BUSY && !busy_before {
        calling(port, frame, after.after(Action::Sleep(10)), true, timeout_before)
    } else if reply.kr == K_IO_RETURN_TIMEOUT && !timeout_before {
        calling(port, frame, after.after(Action::Sleep(50)), busy_before, true)
    } else {
        (call_outcome(frame.data8, reply), after)
    }
}

/// A command on an open connection; a closed one refuses.
pub open spec fn commanding(c: Conn, frame: Frame, d: Dialog) -> (
    Result<SMCParamStruct, SmcError>,
    Dialog,
) {
    if !c.open || c.port == MACH_PORT_NULL {
        (Err(SmcError::AlreadyClosed), d)
    } else {
        calling(c.port, frame, d, false, false)
    }
}

/// The frame of a command on a key.
pub open spec fn key_frame(cmd: u8, key: u32, data_size: u32, data_type: u32) -> Frame {
    Frame { key, data_size, data_type, data8: cmd, ..blank() }
}

/// The SMC said that there is no such key.
pub open spec fn says_not_found<T>(r: Result<T, SmcError>) -> bool {
    r matches Err(SmcError::SmcResult { cmd, result_byte }) && result_byte == SMC_ERR_KEY_NOT_FOUND
}

/// A size, at most 32.
pub open spec fn clamped_size(n: u32) -> u32 {
    if n < 32 {
        n
    } else {
        32
    }
}

/// Reading size and type of a key: from what is remembered of this key, or from
/// the SMC, whose answer is remembered. A key that is gone is forgotten.
pub open spec fn reading_info(c: Conn, fourcc: u32, d: Dialog) -> (
    Result<KeyInfo, SmcError>,
    Conn,
    Dialog,
) {
    match c.remembered(fourcc) {
        Some((data_size, data_type)) => (Ok(KeyInfo { data_size, data_type }), c, d),
        None => asking_info(c, fourcc, d),
    }
}

/// A reported size above 32 is warned of, once.
pub open spec fn noting_size(fourcc: u32, size: u32, d: Dialog) -> Dialog {
    if size > 32 {
        d.after(Action::Warn(Warning::SizeClamped { fourcc, size }))
    } else {
        d
    }
}

/// Asking the SMC for size and type of a key. What it answers is remembered; a
/// size that is too large is warned of and cut.
pub open spec fn asking_info(c: Conn, fourcc: u32, d: Dialog) -> (
    Result<KeyInfo, SmcError>,
    Conn,
    Dialog,
) {
    let (r, after) = commanding(c, key_frame(SMC_CMD_GET_KEY_INFO, fourcc, 0, 0), d);
    match r {
        Ok(output) => {
            let data_size = clamped_size(output.key_info.data_size);
            let data_type = output.key_info.data_type;
            let noted = noting_size(fourcc, output.key_info.data_size, after);
            if data_size == 0 && data_type == 0 {
                (Err(SmcError::EmptyResponse { fourcc }), c, noted)
            } else {
                (
                    Ok(KeyInfo { data_size, data_type }),
                    c.caching(fourcc, Some((data_size, data_type))),
                    noted,
                )
            }
        },
        Err(e) => {
            if says_not_found(r) {
                (Err(SmcError::KeyNotFound(fourcc)), c.caching(fourcc, None), after)
            } else {
                (Err(e), c, after)
            }
        },
    }
}

/// Whatever is read of one key, the info of another one that is not remembered
/// comes from the SMC.
pub proof fn law_info_is_that_of_the_key(c: Conn, a: u32, b: u32, d: Dialog)
    requires
        c.complete(),
        a != b,
        c.remembered(b) is None,
    ensures
        ({
            let (_, c1, d1) = reading_info(c, a, d);
            reading_info(c1, b, d1) == asking_info(c1, b, d1)
        }),
{
}

/// Reading a key: its size and type, then its value.
pub open spec fn reading_key(c: Conn, fourcc: u32, d: Dialog) -> (
    Result<(KeyInfo, [u8; 32]), SmcError>,
    Conn,
    Dialog,
) {
    let (info, c1, d1) = reading_info(c, fourcc, d);
    match info {
        Err(e) => (Err(e), c1, d1),
        Ok(ki) => {
            let (r, d2) = commanding(
                c1,
                key_frame(SMC_CMD_READ_KEY, fourcc, ki.data_size, ki.data_type),
                d1,
            );
            match r {
                Ok(output) => (Ok((ki, output.bytes)), c1, d2),
                Err(e) => {
                    if says_not_found(r) {
                        (Err(SmcError::KeyNotFound(fourcc)), c1.caching(fourcc, None), d2)
                    } else {
                        (Err(e), c1, d2)
                    }
                },
            }
        },
    }
}

/// The key has another type than the one that was asked for.
pub open spec fn wrong_type(fourcc: u32, expected: u32, got: u32) -> SmcError {
    SmcError::TypeMismatch { fourcc, expected, got }
}

/// A value as a `ui8`.
pub open spec fn as_ui8(fourcc: u32, ki: KeyInfo, bytes: Seq<u8>) -> Result<u8, SmcError> {
    if ki.data_type != TYPE_UI8 || ki.data_size != 1 {
        Err(wrong_type(fourcc, TYPE_UI8, ki.data_type))
    } else {
        Ok(bytes[0])
    }
}

/// A value as a `ui32`.
pub open spec fn as_ui32(fourcc: u32, ki: KeyInfo, bytes: Seq<u8>) -> Result<u32, SmcError> {
    if ki.data_type != TYPE_UI32 || ki.data_size != 4 {
        Err(wrong_type(fourcc, TYPE_UI32, ki.data_type))
    } else {
        Ok(most_first(bytes))
    }
}

/// A value as a `flt`.
pub open spec fn as_flt(fourcc: u32, ki: KeyInfo, bytes: Seq<u8>) -> Result<Flt, SmcError> {
    let v = Flt { bits: little_endian(bytes) };
    if ki.data_type != TYPE_FLT || ki.data_size != 4 {
        Err(wrong_type(fourcc, TYPE_FLT, ki.data_type))
    } else if !v.finite() {
        Err(SmcError::InvalidFloat { fourcc })
    } else {
        Ok(v)
    }
}

/// Reading a `ui8` key.
pub open spec fn reading_u8(c: Conn, fourcc: u32, d: Dialog) -> (
    Result<u8, SmcError>,
    Conn,
    Dialog,
) {
    let (r, c1, d1) = reading_key(c, fourcc, d);
    match r {
        Ok((ki, bytes)) => (as_ui8(fourcc, ki, bytes@), c1, d1),
        Err(e) => (Err(e), c1, d1),
    }
}

/// Reading a `ui32` key.
pub open spec fn reading_u32(c: Conn, fourcc: u32, d: Dialog) -> (
    Result<u32, SmcError>,
    Conn,
    Dialog,
) {
    let (r, c1, d1) = reading_key(c, fourcc, d);
    match r {
        Ok((ki, bytes)) => (as_ui32(fourcc, ki, bytes@), c1, d1),
        Err(e) => (Err(e), c1, d1),
    }
}

/// Reading a `flt` key.
pub open spec fn reading_f32(c: Conn, fourcc: u32, d: Dialog) -> (
    Result<Flt, SmcError>,
    Conn,
    Dialog,
) {
    let (r, c1, d1) = reading_key(c, fourcc, d);
    match r {
        Ok((ki, bytes)) => (as_flt(fourcc, ki, bytes@), c1, d1),
        Err(e) => (Err(e), c1, d1),
    }
}

/// Reading size, type and attributes of a key from the SMC itself.
pub open spec fn reading_attributes(c: Conn, fourcc: u32, d: Dialog) -> (
    Result<(KeyInfo, u8), SmcError>,
    Dialog,
) {
    let (r, after) = commanding(c, key_frame(SMC_CMD_GET_KEY_INFO, fourcc, 0, 0), d);
    match r {
        Ok(output) => {
            let data_size = clamped_size(output.key_info.data_size);
            let data_type = output.key_info.data_type;
            if data_size == 0 && data_type == 0 {
                (Err(SmcError::EmptyResponse { fourcc }), after)
            } else {
                (Ok((KeyInfo { data_size, data_type }, output.key_info.data_attributes)), after)
            }
        },
        Err(e) => {
            if says_not_found(r) {
                (Err(SmcError::KeyNotFound(fourcc)), after)
            } else {
                (Err(e), after)
            }
        },
    }
}

/// Reading the key at an index.
pub open spec fn reading_index(c: Conn, index: u32, d: Dialog) -> (Result<u32, SmcError>, Dialog) {
    let (r, after) = commanding(
        c,
        Frame { data32: index, data8: SMC_CMD_GET_KEY_FROM_IDX, ..blank() },
        d,
    );
    match r {
        Ok(output) => (Ok(output.key), after),
        Err(e) => (Err(e), after),
    }
}

/// The frame that writes a value to a key.
pub open spec fn write_frame(key: u32, ki: KeyInfo, value: Seq<u8>) -> Frame {
    Frame {
        bytes: value_bytes(value, zeros(32)),
        ..key_frame(SMC_CMD_WRITE_KEY, key, ki.data_size, ki.data_type)
    }
}

/// Writing bytes to a key. They must have the size that the SMC reports.
pub open spec fn writing(c: Conn, fourcc: u32, value: Seq<u8>, d: Dialog) -> (
    Result<(), SmcError>,
    Conn,
    Dialog,
) {
    let (info, c1, d1) = reading_info(c, fourcc, d);
    match info {
        Err(e) => (Err(e), c1, d1),
        Ok(ki) => {
            if value.len() != ki.data_size {
                (
                    Err(
                        SmcError::SizeMismatch {
                            fourcc,
                            expected: ki.data_size,
                            got: value.len() as u32,
                        },
                    ),
                    c1,
                    d1,
                )
            } else if ki.data_size > 32 {
                (Err(SmcError::SizeMismatch { fourcc, expected: 32, got: ki.data_size }), c1, d1)
            } else {
                let (r, d2) = commanding(c1, write_frame(fourcc, ki, value), d1);
                match r {
                    Ok(_) => (Ok(()), c1, d2),
                    Err(e) => (Err(e), c1, d2),
                }
            }
        },
    }
}

/// Writing a `ui8` to a writable key.
pub open spec fn writing_u8(c: Conn, key: Target, value: u8, d: Dialog) -> (
    Result<(), SmcError>,
    Conn,
    Dialog,
) {
    if key.data_type() != TYPE_UI8 {
        (Err(wrong_type(key.fourcc(), TYPE_UI8, key.data_type())), c, d)
    } else {
        writing(c, key.fourcc(), seq![value], d)
    }
}

/// Writing a `flt` to a writable key.
pub open spec fn writing_f32(c: Conn, key: Target, value: Flt, d: Dialog) -> (
    Result<(), SmcError>,
    Conn,
    Dialog,
) {
    if key.data_type() != TYPE_FLT {
        (Err(wrong_type(key.fourcc(), TYPE_FLT, key.data_type())), c, d)
    } else if !value.finite() {
        (Err(SmcError::InvalidFloat { fourcc: key.fourcc() }), c, d)
    } else {
        writing(c, key.fourcc(), bytes_of(value.bits), d)
    }
}

/// An error of a write: an error byte of the SMC is a refusal.
pub open spec fn refusal(
    e: SmcError,
    fourcc: u32,
    context: &'static str,
    session: SessionId,
    timestamp_ns: u64,
) -> SmcError {
    match e {
        SmcError::SmcResult { cmd, result_byte } => SmcError::WriteRefused {
            fourcc,
            result_byte,
            context,
            session,
            timestamp_ns,
        },
        _ => e,
    }
}

/// A readback that differs from what was written.
pub open spec fn readback_mismatch(
    fourcc: u32,
    expected: Seq<u8>,
    got: Seq<u8>,
    session: SessionId,
    timestamp_ns: u64,
) -> SmcError {
    SmcError::WriteReadbackMismatch {
        fourcc,
        expected: padded(expected),
        expected_len: expected.len() as u8,
        got: padded(got),
        got_len: got.len() as u8,
        session,
        timestamp_ns,
        iteration: None,
    }
}

/// What a verified write yields: its result, the connection, the record for
/// the ring, and the dialogue.
pub struct Verified {
    pub result: Result<(), SmcError>,
    pub conn: Conn,
    pub record: RoundTripRecord,
    pub dialog: Dialog,
}

/// Judging a write and its readback.
pub open spec fn judging(
    fourcc: u32,
    written: Seq<u8>,
    write: Result<(), SmcError>,
    readback: Result<Seq<u8>, SmcError>,
    context: &'static str,
    session: SessionId,
    timestamp_ns: u64,
) -> (Result<(), SmcError>, RoundTripRecord) {
    match write {
        Err(e) => (
            Err(refusal(e, fourcc, context, session, timestamp_ns)),
            record_of(
                timestamp_ns,
                fourcc,
                written,
                Seq::empty(),
                RoundTripOutcome::WriteFailed,
            ),
        ),
        Ok(_) => match readback {
            Err(e) => (
                Err(e),
                record_of(
                    timestamp_ns,
                    fourcc,
                    written,
                    Seq::empty(),
                    RoundTripOutcome::ReadbackFailed,
                ),
            ),
            Ok(got) => if got != written {
                (
                    Err(readback_mismatch(fourcc, written, got, session, timestamp_ns)),
                    record_of(timestamp_ns, fourcc, written, got, RoundTripOutcome::Mismatch),
                )
            } else {
                (
                    Ok(()),
                    record_of(timestamp_ns, fourcc, written, got, RoundTripOutcome::Match),
                )
            },
        },
    }
}

/// The bytes of a `ui8` readback.
pub open spec fn u8_bytes(r: Result<u8, SmcError>) -> Result<Seq<u8>, SmcError> {
    match r {
        Ok(v) => Ok(seq![v]),
        Err(e) => Err(e),
    }
}

/// The bytes of a `flt` readback.
pub open spec fn flt_bytes(r: Result<Flt, SmcError>) -> Result<Seq<u8>, SmcError> {
    match r {
        Ok(v) => Ok(bytes_of(v.bits)),
        Err(e) => Err(e),
    }
}

/// Writing a `ui8`, reading it back and comparing. The clock is read first;
/// the readback is left out when the write fails.
pub open spec fn verifying_u8(
    c: Conn,
    key: Target,
    value: u8,
    context: &'static str,
    session: SessionId,
    d: Dialog,
) -> Verified {
    let now = d.answer().value;
    let (w, c1, d1) = writing_u8(c, key, value, d.after(Action::Clock));
    let (r, c2, d2) = reading_u8(c1, key.fourcc(), d1);
    let (result, record) = judging(
        key.fourcc(),
        seq![value],
        w,
        u8_bytes(r),
        context,
        session,
        now,
    );
    if w is Ok {
        Verified { result, conn: c2, record, dialog: d2 }
    } else {
        Verified { result, conn: c1, record, dialog: d1 }
    }
}

/// Writing a `flt`, reading it back and comparing byte for byte.
pub open spec fn verifying_f32(
    c: Conn,
    key: Target,
    value: Flt,
    context: &'static str,
    session: SessionId,
    d: Dialog,
) -> Verified {
    let now = d.answer().value;
    let (w, c1, d1) = writing_f32(c, key, value, d.after(Action::Clock));
    let (r, c2, d2) = reading_f32(c1, key.fourcc(), d1);
    let (result, record) = judging(
        key.fourcc(),
        bytes_of(value.bits),
        w,
        flt_bytes(r),
        context,
        session,
        now,
    );
    if w is Ok {
        Verified { result, conn: c2, record, dialog: d2 }
    } else {
        Verified { result, conn: c1, record, dialog: d1 }
    }
}

/// What opening yields.
pub open spec fn opening(d: Dialog) -> (Result<Conn, SmcError>, Dialog) {
    let start = d.answer().value;
    let d1 = d.after(Action::Timer);
    let service = d1.answer().value as u32;
    let d2 = d1.after(Action::FindService);
    if service == MACH_PORT_NULL {
        (Err(SmcError::ServiceNotFound), d2)
    } else {
        let now = d2.answer().value;
        let d3 = d2.after(Action::Timer);
        if too_late(start, now) {
            (Err(SmcError::OpenTimeout), d3.after(Action::ReleaseService(service)))
        } else {
            let conforms = d3.answer().value;
            let d4 = d3.after(Action::ConformsTo(service));
            if conforms == 0 {
                (Err(SmcError::ServiceNotFound), d4.after(Action::ReleaseService(service)))
            } else {
                let opened = d4.answer();
                let port = opened.value as u32;
                let d5 = d4.after(Action::OpenService(service)).after(
                    Action::ReleaseService(service),
                );
                if opened.kr != KERN_SUCCESS {
                    (Err(SmcError::OpenFailed(opened.kr)), d5)
                } else {
                    let then = d5.answer().value;
                    let d6 = d5.after(Action::Timer);
                    if too_late(start, then) {
                        (Err(SmcError::OpenTimeout), d6.after(Action::CloseService(port)))
                    } else {
                        let cookie = d6.answer().value;
                        let d7 = d6.after(Action::Entropy);
                        let guarded = d7.answer().kr == KERN_SUCCESS;
                        let d8 = d7.after(Action::GuardPort(port, cookie));
                        (
                            Ok(
                                Conn {
                                    port,
                                    open: true,
                                    guard: if guarded {
                                        cookie
                                    } else {
                                        0
                                    },
                                    cache: Seq::new(256, |i: int| None::<(u32, u32)>),
                                    owners: Seq::new(256, |i: int| 0u32),
                                },
                            ),
                            if guarded {
                                d8
                            } else {
                                d8.after(Action::Warn(Warning::Unguarded))
                            },
                        )
                    }
                }
            }
        }
    }
}

/// Closing: the first call takes the guard off and closes the port, every
/// further one does nothing.
pub open spec fn closing(c: Conn, d: Dialog) -> (Conn, Dialog) {
    if !c.open {
        (c, d)
    } else if c.port == MACH_PORT_NULL {
        (Conn { open: false, ..c }, d)
    } else {
        let d1 = if c.guard != 0 {
            d.after(Action::UnguardPort(c.port, c.guard))
        } else {
            d
        };
        (
            Conn { open: false, port: MACH_PORT_NULL, ..c },
            d1.after(Action::CloseService(c.port)),
        )
    }
}

impl SmcConnection {
    pub closed spec fn view(&self) -> Conn {
        Conn {
            port: self.conn@,
            open: self.connection_open,
            guard: self.port_guard,
            cache: self.cache@,
            owners: self.owners@,
        }
    }

    /// The cache has all its slots, and every slot an owner.
    pub open spec fn wf(&self) -> bool {
        self@.complete()
    }

    /// What is remembered of a key.
    fn recall(&self, fourcc: u32) -> (r: Option<(u32, u32)>)
        ensures
            r == self@.remembered(fourcc),
    {
        if self.owners[(fourcc % 256) as usize] == fourcc {
            self.cache.get(fourcc)
        } else {
            None
        }
    }

    fn remember(&mut self, fourcc: u32, data_size: u32, data_type: u32)
        ensures
            final(self)@ == old(self)@.caching(fourcc, Some((data_size, data_type))),
            final(self).wf(),
    {
        self.cache.put(fourcc, data_size, data_type);
        self.owners[(fourcc % 256) as usize] = fourcc;
        proof {
            self.cache.law_slots();
        }
        assert(self@ =~= old(self)@.caching(fourcc, Some((data_size, data_type))));
    }

    fn forget(&mut self, fourcc: u32)
        ensures
            final(self)@ == old(self)@.caching(fourcc, None),
            final(self).wf(),
    {
        self.cache.invalidate(fourcc);
        self.owners[(fourcc % 256) as usize] = fourcc;
        proof {
            self.cache.law_slots();
        }
        assert(self@ =~= old(self)@.caching(fourcc, None));
    }

    /// Is the connection open?
    #[must_use]
    pub fn is_open(&self) -> (r: bool)
        ensures
            r == self@.open,
    {
        self.connection_open
    }

    /// A command on an open connection. The command byte goes into the block.
    fn call_struct(&self, input: SMCParamStruct, io: &mut Exchange) -> (r: Result<
        SMCParamStruct,
        SmcError,
    >)
        ensures
            (r, final(io)@) == commanding(self@, input@, old(io)@),
    {
        if !self.connection_open {
            return Err(SmcError::AlreadyClosed);
        }
        let port: IoConnectT = self.conn.raw();
        if port == MACH_PORT_NULL {
            return Err(SmcError::AlreadyClosed);
        }
        let cmd: u8 = input.data8;
        let mut retried_busy: bool = false;
        let mut retried_timeout: bool = false;
        loop
            invariant
                calling(port, input@, io@, retried_busy, retried_timeout) == calling(
                    port,
                    input@,
                    old(io)@,
                    false,
                    false,
                ),
                cmd == input@.data8,
                commanding(self@, input@, old(io)@) == calling(
                    port,
                    input@,
                    old(io)@,
                    false,
                    false,
                ),
            decreases
                    (if retried_busy { 0int } else { 1int }) + (if retried_timeout { 0int } else { 1int }),
        {
            let reply: Reply = io.ask(Request::Call(port, input));
            if reply.kr == K_IO_RETURN_BUSY && !retried_busy {
                retried_busy = true;
                let _ = io.ask(Request::Sleep(10));
                continue;
            }
            if reply.kr == K_IO_RETURN_TIMEOUT && !retried_timeout {
                retried_timeout = true;
                let _ = io.ask(Request::Sleep(50));
                continue;
            }
            if reply.kr == K_IO_RETURN_BUSY {
                return Err(SmcError::Busy { retried: true });
            }
            if reply.kr == K_IO_RETURN_TIMEOUT {
                return Err(SmcError::Timeout { retried: true });
            }
            if reply.kr != KERN_SUCCESS {
                return Err(SmcError::CallFailed { selector: SMC_SELECTOR, kr: reply.kr, cmd });
            }
            if reply.output.result != 0 {
                return Err(SmcError::SmcResult { cmd, result_byte: reply.output.result });
            }
            return Ok(reply.output);
        }
    }

    /// Reads size and type of a key, from the cache if they are there. An entry
    /// counts only for the key that it was made for.
    pub fn read_key_info(&mut self, fourcc: u32, io: &mut Exchange) -> (r: Result<KeyInfo, SmcError>)
        requires
            old(self).wf(),
        ensures
            (r, final(self)@, final(io)@) == reading_info(old(self)@, fourcc, old(io)@),
            final(self).wf(),
    {
        if let Some((data_size, data_type)) = self.recall(fourcc) {
            return Ok(KeyInfo { data_size, data_type });
        }
        let input: SMCParamStruct = SMCParamStruct::for_key(SMC_CMD_GET_KEY_INFO, fourcc, 0, 0);
        let output: SMCParamStruct = match self.call_struct(input, io) {
            Ok(o) => o,
            Err(SmcError::SmcResult { cmd, result_byte }) => {
                if result_byte == SMC_ERR_KEY_NOT_FOUND {
                    self.forget(fourcc);
                    return Err(SmcError::KeyNotFound(fourcc));
                }
                return Err(SmcError::SmcResult { cmd, result_byte });
            },
            Err(e) => {
                return Err(e);
            },
        };
        let raw_size: u32 = output.key_info.data_size;
        let data_size: u32 = if raw_size < 32 {
            raw_size
        } else {
            32
        };
        if raw_size > 32 {
            let _ = io.ask(Request::Warn(Warning::SizeClamped { fourcc, size: raw_size }));
        }
        let data_type: u32 = output.key_info.data_type;
        if data_size == 0 && data_type == 0 {
            return Err(SmcError::EmptyResponse { fourcc });
        }
        self.remember(fourcc, data_size, data_type);
        Ok(KeyInfo { data_size, data_type })
    }

    /// Reads a key: size, type, and the value in up to 32 bytes.
    pub fn read_key(&mut self, fourcc: u32, io: &mut Exchange) -> (r: Result<
        (KeyInfo, [u8; 32]),
        SmcError,
    >)
        requires
            old(self).wf(),
        ensures
            (r, final(self)@, final(io)@) == reading_key(old(self)@, fourcc, old(io)@),
            final(self).wf(),
    {
        let key_info: KeyInfo = match self.read_key_info(fourcc, io) {
            Ok(k) => k,
            Err(e) => {
                return Err(e);
            },
        };
        let input: SMCParamStruct = SMCParamStruct::for_key(
            SMC_CMD_READ_KEY,
            fourcc,
            key_info.data_size,
            key_info.data_type,
        );
        match self.call_struct(input, io) {
            Ok(output) => Ok((key_info, output.bytes)),
            Err(SmcError::SmcResult { cmd, result_byte }) => {
                if result_byte == SMC_ERR_KEY_NOT_FOUND {
                    self.forget(fourcc);
                    return Err(SmcError::KeyNotFound(fourcc));
                }
                Err(SmcError::SmcResult { cmd, result_byte })
            },
            Err(e) => Err(e),
        }
    }

    /// Reads a `ui8` key.
    pub fn read_u8(&mut self, fourcc: u32, io: &mut Exchange) -> (r: Result<u8, SmcError>)
        requires
            old(self).wf(),
        ensures
            (r, final(self)@, final(io)@) == reading_u8(old(self)@, fourcc, old(io)@),
            final(self).wf(),
    {
        match self.read_key(fourcc, io) {
            Err(e) => Err(e),
            Ok((ki, bytes)) => {
                if ki.data_type != TYPE_UI8 {
                    return Err(
                        SmcError::TypeMismatch { fourcc, expected: TYPE_UI8, got: ki.data_type },
                    );
                }
                match decode_ui8(bytes.as_slice(), ki.data_size) {
                    Ok(v) => Ok(v),
                    Err(_) => Err(
                        SmcError::TypeMismatch { fourcc, expected: TYPE_UI8, got: ki.data_type },
                    ),
                }
            },
        }
    }

    /// Reads a `ui32` key.
    pub fn read_u32(&mut self, fourcc: u32, io: &mut Exchange) -> (r: Result<u32, SmcError>)
        requires
            old(self).wf(),
        ensures
            (r, final(self)@, final(io)@) == reading_u32(old(self)@, fourcc, old(io)@),
            final(self).wf(),
    {
        match self.read_key(fourcc, io) {
            Err(e) => Err(e),
            Ok((ki, bytes)) => {
                if ki.data_type != TYPE_UI32 {
                    return Err(
                        SmcError::TypeMismatch { fourcc, expected: TYPE_UI32, got: ki.data_type },
                    );
                }
                match decode_ui32(bytes.as_slice(), ki.data_size) {
                    Ok(v) => Ok(v),
                    Err(_) => Err(
                        SmcError::TypeMismatch { fourcc, expected: TYPE_UI32, got: ki.data_type },
                    ),
                }
            },
        }
    }

    /// Reads a `flt` key.
    pub fn read_f32(&mut self, fourcc: u32, io: &mut Exchange) -> (r: Result<Flt, SmcError>)
        requires
            old(self).wf(),
        ensures
            (r, final(self)@, final(io)@) == reading_f32(old(self)@, fourcc, old(io)@),
            final(self).wf(),
            r matches Ok(v) ==> v.finite(),
    {
        match self.read_key(fourcc, io) {
            Err(e) => Err(e),
            Ok((ki, bytes)) => {
                if ki.data_type != TYPE_FLT {
                    return Err(
                        SmcError::TypeMismatch { fourcc, expected: TYPE_FLT, got: ki.data_type },
                    );
                }
                match decode_flt(bytes.as_slice(), ki.data_size) {
                    Ok(v) => Ok(v),
                    Err(SmcValueError::InvalidFloat) => Err(SmcError::InvalidFloat { fourcc }),
                    Err(_) => Err(
                        SmcError::TypeMismatch { fourcc, expected: TYPE_FLT, got: ki.data_type },
                    ),
                }
            },
        }
    }

    /// Reads the key at an index.
    pub fn read_key_at_index(&mut self, index: u32, io: &mut Exchange) -> (r: Result<u32, SmcError>)
        ensures
            *final(self) == *old(self),
            (r, final(io)@) == reading_index(old(self)@, index, old(io)@),
    {
        let input: SMCParamStruct = SMCParamStruct::for_index(SMC_CMD_GET_KEY_FROM_IDX, index);
        match self.call_struct(input, io) {
            Ok(output) => Ok(output.key),
            Err(e) => Err(e),
        }
    }

    /// Reads size, type and attributes of a key from the SMC itself.
    pub fn read_key_info_full(&mut self, fourcc: u32, io: &mut Exchange) -> (r: Result<
        (KeyInfo, u8),
        SmcError,
    >)
        ensures
            *final(self) == *old(self),
            (r, final(io)@) == reading_attributes(old(self)@, fourcc, old(io)@),
    {
        let input: SMCParamStruct = SMCParamStruct::for_key(SMC_CMD_GET_KEY_INFO, fourcc, 0, 0);
        match self.call_struct(input, io) {
            Ok(output) => {
                let raw_size: u32 = output.key_info.data_size;
                let data_size: u32 = if raw_size < 32 {
                    raw_size
                } else {
                    32
                };
                let data_type: u32 = output.key_info.data_type;
                if data_size == 0 && data_type == 0 {
                    return Err(SmcError::EmptyResponse { fourcc });
                }
                Ok((KeyInfo { data_size, data_type }, output.key_info.data_attributes))
            },
            Err(SmcError::SmcResult { cmd, result_byte }) => {
                if result_byte == SMC_ERR_KEY_NOT_FOUND {
                    return Err(SmcError::KeyNotFound(fourcc));
                }
                Err(SmcError::SmcResult { cmd, result_byte })
            },
            Err(e) => Err(e),
        }
    }

    /// Writes bytes to any key. For research on the key space only; fan
    /// control goes through [`SmcConnection::write_key`].
    pub(crate) fn write_raw_for_research(
        &mut self,
        fourcc: u32,
        value: &[u8],
        io: &mut Exchange,
    ) -> (r: Result<(), SmcError>)
        requires
            old(self).wf(),
        ensures
            (r, final(self)@, final(io)@) == writing(old(self)@, fourcc, value@, old(io)@),
            final(self).wf(),
    {
        let key_info: KeyInfo = match self.read_key_info(fourcc, io) {
            Ok(k) => k,
            Err(e) => {
                return Err(e);
            },
        };
        let data_size: u32 = key_info.data_size;
        if value.len() != data_size as usize {
            return Err(
                SmcError::SizeMismatch { fourcc, expected: data_size, got: value.len() as u32 },
            );
        }
        if data_size > 32 {
            return Err(SmcError::SizeMismatch { fourcc, expected: 32, got: data_size });
        }
        let mut input: SMCParamStruct = SMCParamStruct::for_key(
            SMC_CMD_WRITE_KEY,
            fourcc,
            data_size,
            key_info.data_type,
        );
        input.set_value(value);
        match self.call_struct(input, io) {
            Ok(_) => Ok(()),
            Err(e) => Err(e),
        }
    }

    /// Writes bytes to a writable key.
    pub fn write_key(&mut self, key: &WritableKey, value: &[u8], io: &mut Exchange) -> (r: Result<
        (),
        SmcError,
    >)
        requires
            old(self).wf(),
        ensures
            (r, final(self)@, final(io)@) == writing(old(self)@, key@.fourcc(), value@, old(io)@),
            final(self).wf(),
    {
        self.write_raw_for_research(key.fourcc(), value, io)
    }

    /// Writes a `ui8` to a writable key.
    pub fn write_u8(&mut self, key: &WritableKey, value: u8, io: &mut Exchange) -> (r: Result<
        (),
        SmcError,
    >)
        requires
            old(self).wf(),
        ensures
            (r, final(self)@, final(io)@) == writing_u8(old(self)@, key@, value, old(io)@),
            final(self).wf(),
    {
        if key.data_type() != TYPE_UI8 {
            return Err(
                SmcError::TypeMismatch {
                    fourcc: key.fourcc(),
                    expected: TYPE_UI8,
                    got: key.data_type(),
                },
            );
        }
        let bytes: [u8; 1] = encode_ui8(value);
        self.write_key(key, bytes.as_slice(), io)
    }

    /// Writes a `flt` to a writable key.
    pub fn write_f32(&mut self, key: &WritableKey, value: Flt, io: &mut Exchange) -> (r: Result<
        (),
        SmcError,
    >)
        requires
            old(self).wf(),
        ensures
            (r, final(self)@, final(io)@) == writing_f32(old(self)@, key@, value, old(io)@),
            final(self).wf(),
    {
        if key.data_type() != TYPE_FLT {
            return Err(
                SmcError::TypeMismatch {
                    fourcc: key.fourcc(),
                    expected: TYPE_FLT,
                    got: key.data_type(),
                },
            );
        }
        match encode_flt(value) {
            Ok(bytes) => self.write_key(key, bytes.as_slice(), io),
            Err(_) => Err(SmcError::InvalidFloat { fourcc: key.fourcc() }),
        }
    }

    /// Writes 0 to `Ftst`, which changes nothing: a probe of the write path.
    pub fn probe_write_ftst_zero(&mut self, io: &mut Exchange) -> (r: Result<(), SmcError>)
        requires
            old(self).wf(),
        ensures
            (r, final(self)@, final(io)@) == writing_u8(old(self)@, Target::Unlock, 0, old(io)@),
            final(self).wf(),
    {
        let key: WritableKey = WritableKey::ftst();
        self.write_u8(&key, 0, io)
    }

    /// Leaves a fan to the firmware again, without a readback.
    pub fn force_write_auto_mode(&mut self, fan_idx: u8, io: &mut Exchange) -> (r: Result<
        (),
        SmcError,
    >)
        requires
            old(self).wf(),
        ensures
            (r, final(self)@, final(io)@) == writing_u8(
                old(self)@,
                Target::FanMode(fan_idx),
                0,
                old(io)@,
            ),
            final(self).wf(),
    {
        let key: WritableKey = WritableKey::fan_mode(fan_idx);
        self.write_u8(&key, 0, io)
    }

    /// Ends the diagnostic unlock, without a readback.
    pub fn force_write_ftst_zero(&mut self, io: &mut Exchange) -> (r: Result<(), SmcError>)
        requires
            old(self).wf(),
        ensures
            (r, final(self)@, final(io)@) == writing_u8(old(self)@, Target::Unlock, 0, old(io)@),
            final(self).wf(),
    {
        let key: WritableKey = WritableKey::ftst();
        self.write_u8(&key, 0, io)
    }

    /// Writes a `ui8`, reads it back, compares, and records the round trip.
    pub fn write_u8_verified(
        &mut self,
        key: &WritableKey,
        value: u8,
        context: &'static str,
        session: SessionId,
        ring: &mut RoundTripRing,
        io: &mut Exchange,
    ) -> (r: Result<(), SmcError>)
        requires
            old(self).wf(),
            old(ring).wf(),
        ensures
            final(self).wf(),
            final(ring).wf(),
            final(ring).session() == old(ring).session(),
            final(ring).taken() == one_more(old(ring).taken()),
            ({
                let v = verifying_u8(old(self)@, key@, value, context, session, old(io)@);
                &&& r == v.result
                &&& final(self)@ == v.conn
                &&& final(io)@ == v.dialog
                &&& final(ring)@ == pushed(old(ring)@, v.record)
            }),
    {
        let fourcc: u32 = key.fourcc();
        let timestamp_ns: u64 = io.ask(Request::Clock).value;
        let bytes: [u8; 1] = encode_ui8(value);
        let nothing: [u8; 0] = [];
        assert(nothing@ =~= Seq::<u8>::empty());
        if let Err(e) = self.write_u8(key, value, io) {
            ring.push(
                RoundTripRecord::new(
                    timestamp_ns,
                    fourcc,
                    bytes.as_slice(),
                    nothing.as_slice(),
                    RoundTripOutcome::WriteFailed,
                ),
            );
            return Err(refused(e, fourcc, context, session, timestamp_ns));
        }
        let readback: u8 = match self.read_u8(fourcc, io) {
            Ok(v) => v,
            Err(e) => {
                ring.push(
                    RoundTripRecord::new(
                        timestamp_ns,
                        fourcc,
                        bytes.as_slice(),
                        nothing.as_slice(),
                        RoundTripOutcome::ReadbackFailed,
                    ),
                );
                return Err(e);
            },
        };
        let got: [u8; 1] = encode_ui8(readback);
        if readback != value {
            ring.push(
                RoundTripRecord::new(
                    timestamp_ns,
                    fourcc,
                    bytes.as_slice(),
                    got.as_slice(),
                    RoundTripOutcome::Mismatch,
                ),
            );
            assert(seq![readback][0] != seq![value][0]);
            return Err(
                SmcError::WriteReadbackMismatch {
                    fourcc,
                    expected: [value, 0, 0, 0],
                    expected_len: 1,
                    got: [readback, 0, 0, 0],
                    got_len: 1,
                    session,
                    timestamp_ns,
                    iteration: None,
                },
            );
        }
        ring.push(
            RoundTripRecord::new_match(timestamp_ns, fourcc, bytes.as_slice(), got.as_slice()),
        );
        Ok(())
    }

    /// Writes a `flt`, reads it back, compares byte for byte, and records the
    /// round trip. A NaN or an infinity is refused before anything is sent.
    pub fn write_f32_verified(
        &mut self,
        key: &WritableKey,
        value: Flt,
        context: &'static str,
        session: SessionId,
        ring: &mut RoundTripRing,
        io: &mut Exchange,
    ) -> (r: Result<(), SmcError>)
        requires
            old(self).wf(),
            old(ring).wf(),
        ensures
            final(self).wf(),
            final(ring).wf(),
            final(ring).session() == old(ring).session(),
            !value.finite() ==> {
                &&& r == Err::<(), SmcError>(SmcError::InvalidFloat { fourcc: key@.fourcc() })
                &&& *final(self) == *old(self)
                &&& *final(ring) == *old(ring)
                &&& final(io)@ == old(io)@.after(Action::Clock)
            },
            value.finite() ==> ({
                let v = verifying_f32(old(self)@, key@, value, context, session, old(io)@);
                &&& final(ring).taken() == one_more(old(ring).taken())
                &&& r == v.result
                &&& final(self)@ == v.conn
                &&& final(io)@ == v.dialog
                &&& final(ring)@ == pushed(old(ring)@, v.record)
            }),
    {
        let fourcc: u32 = key.fourcc();
        let timestamp_ns: u64 = io.ask(Request::Clock).value;
        let bytes: [u8; 4] = match encode_flt(value) {
            Ok(b) => b,
            Err(_) => {
                return Err(SmcError::InvalidFloat { fourcc });
            },
        };
        let nothing: [u8; 0] = [];
        assert(nothing@ =~= Seq::<u8>::empty());
        if let Err(e) = self.write_f32(key, value, io) {
            ring.push(
                RoundTripRecord::new(
                    timestamp_ns,
                    fourcc,
                    bytes.as_slice(),
                    nothing.as_slice(),
                    RoundTripOutcome::WriteFailed,
                ),
            );
            return Err(refused(e, fourcc, context, session, timestamp_ns));
        }
        let readback: Flt = match self.read_f32(fourcc, io) {
            Ok(v) => v,
            Err(e) => {
                ring.push(
                    RoundTripRecord::new(
                        timestamp_ns,
                        fourcc,
                        bytes.as_slice(),
                        nothing.as_slice(),
                        RoundTripOutcome::ReadbackFailed,
                    ),
                );
                return Err(e);
            },
        };
        let got: [u8; 4] = to_le(readback.bits);
        proof {
            law_flt_round_trip(value.bits);
            law_flt_round_trip(readback.bits);
        }
        if readback.bits != value.bits {
            ring.push(
                RoundTripRecord::new(
                    timestamp_ns,
                    fourcc,
                    bytes.as_slice(),
                    got.as_slice(),
                    RoundTripOutcome::Mismatch,
                ),
            );
            proof {
                assert(bytes@ =~= padded(bytes@)@);
                assert(bytes =~= padded(bytes@));
                assert(got@ =~= padded(got@)@);
                assert(got =~= padded(got@));
            }
            return Err(
                SmcError::WriteReadbackMismatch {
                    fourcc,
                    expected: bytes,
                    expected_len: 4,
                    got,
                    got_len: 4,
                    session,
                    timestamp_ns,
                    iteration: None,
                },
            );
        }
        ring.push(
            RoundTripRecord::new_match(timestamp_ns, fourcc, bytes.as_slice(), got.as_slice()),
        );
        Ok(())
    }

    /// Opens a connection.
    pub fn open(io: &mut Exchange) -> (r: Result<SmcConnection, SmcError>)
        ensures
            final(io)@ == opening(old(io)@).1,
            match r {
                Ok(c) => c.wf() && opening(old(io)@).0 == Ok::<Conn, SmcError>(c@),
                Err(e) => opening(old(io)@).0 == Err::<Conn, SmcError>(e),
            },
    {
        let start: u64 = io.ask(Request::Timer).value;
        let service: u32 = io.ask(Request::FindService).value as u32;
        if service == MACH_PORT_NULL {
            return Err(SmcError::ServiceNotFound);
        }
        let now: u64 = io.ask(Request::Timer).value;
        if late(start, now) {
            let _ = io.ask(Request::ReleaseService(service));
            return Err(SmcError::OpenTimeout);
        }
        let conforms: u64 = io.ask(Request::ConformsTo(service)).value;
        if conforms == 0 {
            let _ = io.ask(Request::ReleaseService(service));
            return Err(SmcError::ServiceNotFound);
        }
        let opened: Reply = io.ask(Request::OpenService(service));
        let _ = io.ask(Request::ReleaseService(service));
        if opened.kr != KERN_SUCCESS {
            return Err(SmcError::OpenFailed(opened.kr));
        }
        let port: u32 = opened.value as u32;
        let then: u64 = io.ask(Request::Timer).value;
        if late(start, then) {
            let _ = io.ask(Request::CloseService(port));
            return Err(SmcError::OpenTimeout);
        }
        let cookie: u64 = io.ask(Request::Entropy).value;
        let guarded: Reply = io.ask(Request::GuardPort(port, cookie));
        let port_guard: u64 = if guarded.kr == KERN_SUCCESS {
            cookie
        } else {
            let _ = io.ask(Request::Warn(Warning::Unguarded));
            0
        };
        let owners: [u32; 256] = [0; 256];
        assert(owners@ =~= Seq::new(256, |i: int| 0u32));
        Ok(
            SmcConnection {
                conn: IoConnect::from_raw(port),
                cache: KeyInfoCache::new(),
                owners,
                connection_open: true,
                port_guard,
            },
        )
    }

    /// Closes the connection. A closed connection stays closed.
    pub fn close(&mut self, io: &mut Exchange)
        ensures
            (final(self)@, final(io)@) == closing(old(self)@, old(io)@),
    {
        if !self.connection_open {
            return;
        }
        self.connection_open = false;
        let port: IoConnectT = self.conn.take();
        if port == MACH_PORT_NULL {
            return;
        }
        if self.port_guard != 0 {
            let _ = io.ask(Request::UnguardPort(port, self.port_guard));
        }
        let _ = io.ask(Request::CloseService(port));
    }

    /// The state of the connection, to run an operation again from here.
    pub fn mark(&self) -> (r: ConnectionMark)
        ensures
            r@ == self@,
    {
        ConnectionMark {
            port: self.conn.raw(),
            open: self.connection_open,
            guard: self.port_guard,
            cache: self.cache.clone(),
            owners: self.owners,
        }
    }

    /// Goes back to an earlier state.
    pub fn restore(&mut self, mark: &ConnectionMark)
        ensures
            final(self)@ == mark@,
    {
        self.conn = IoConnect::from_raw(mark.port);
        self.connection_open = mark.open;
        self.port_guard = mark.guard;
        self.cache = mark.cache.clone();
        self.owners = mark.owners;
    }
}

fn late(start: u64, now: u64) -> (r: bool)
    ensures
        r == too_late(start, now),
{
    now >= start && now - start >= OPEN_DEADLINE_NS
}

fn refused(
    e: SmcError,
    fourcc: u32,
    context: &'static str,
    session: SessionId,
    timestamp_ns: u64,
) -> (r: SmcError)
    ensures
        r == refusal(e, fourcc, context, session, timestamp_ns),
{
    match e {
        SmcError::SmcResult { cmd: _, result_byte } => SmcError::WriteRefused {
            fourcc,
            result_byte,
            context,
            session,
            timestamp_ns,
        },
        other => other,
    }
}

} // verus!
