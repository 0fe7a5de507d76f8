use fand::correlation::SessionId;
use fand::smc::connection::{IoConnect, SmcConnection};
use fand::smc::error::{
    fourcc_to_str, kern_return_name, IoConnectT, KernReturnT, SmcError, K_IO_RETURN_NOT_PERMITTED,
    K_IO_RETURN_NOT_PRIVILEGED,
};
use fand::smc::param::{
    SMCKeyInfoData, SMCParamStruct, OFFSET_BYTES, OFFSET_DATA32, OFFSET_DATA8, OFFSET_KEY,
    OFFSET_KEY_INFO, OFFSET_P_LIMIT_DATA, OFFSET_RESULT, OFFSET_STATUS, OFFSET_VERS,
};

fn session() -> SessionId {
    SessionId::new(1_700_000_000_000, [1, 2, 3, 4, 5, 6, 7, 8, 9, 10])
}

#[test]
fn param_struct_is_80_bytes() {
    assert_eq!(std::mem::size_of::<SMCParamStruct>(), 80);
    assert_eq!(SMCParamStruct::zeroed().to_bytes().len(), 80);
}

#[test]
fn param_struct_alignment_is_4() {
    assert_eq!(std::mem::align_of::<SMCParamStruct>(), 4);
}

#[test]
fn key_info_is_12_bytes() {
    assert_eq!(std::mem::size_of::<SMCKeyInfoData>(), 12);
}

/// Where a change of a parameter block shows first on the wire.
fn first_changed(change: fn(&mut SMCParamStruct)) -> usize {
    let mut p = SMCParamStruct::zeroed();
    change(&mut p);
    p.to_bytes().iter().position(|b| *b != 0).unwrap()
}

#[test]
fn per_field_offsets_match_agoodkind() {
    assert_eq!(first_changed(|p| p.key = u32::MAX), 0);
    assert_eq!(first_changed(|p| p.vers = [255; 6]), 4);
    assert_eq!(first_changed(|p| p.p_limit_data = [255; 16]), 12);
    assert_eq!(first_changed(|p| p.key_info.data_size = u32::MAX), 28);
    assert_eq!(first_changed(|p| p.key_info.data_type = u32::MAX), 32);
    assert_eq!(first_changed(|p| p.key_info.data_attributes = 255), 36);
    assert_eq!(first_changed(|p| p.result = 255), 40);
    assert_eq!(first_changed(|p| p.status = 255), 41);
    assert_eq!(first_changed(|p| p.data8 = 255), 42);
    assert_eq!(first_changed(|p| p.data32 = u32::MAX), 44);
    assert_eq!(first_changed(|p| p.bytes = [255; 32]), 48);
    assert_eq!(
        [
            OFFSET_KEY,
            OFFSET_VERS,
            OFFSET_P_LIMIT_DATA,
            OFFSET_KEY_INFO,
            OFFSET_RESULT,
            OFFSET_STATUS,
            OFFSET_DATA8,
            OFFSET_DATA32,
            OFFSET_BYTES
        ],
        [0, 4, 12, 28, 40, 41, 42, 44, 48]
    );
}

#[test]
fn zeroable_produces_zero_bytes() {
    let param = SMCParamStruct::zeroed();
    let bytes: [u8; 80] = param.to_bytes();
    assert!(bytes.iter().all(|&b| b == 0));
}

#[test]
fn blocks_survive_the_wire() {
    let mut bytes = [0u8; 80];
    for (i, b) in bytes.iter_mut().enumerate() {
        *b = (i * 7 + 1) as u8;
    }
    let p = SMCParamStruct::from_bytes(&bytes);
    assert_eq!(p.key, u32::from_le_bytes([bytes[0], bytes[1], bytes[2], bytes[3]]));
    assert_eq!(p.data8, bytes[42]);
    assert_eq!(p.bytes[31], bytes[79]);
    assert_eq!(SMCParamStruct::from_bytes(&p.to_bytes()), p);
    let q = SMCParamStruct::for_key(5, 0x464E_756D, 1, 0x7569_3820);
    assert_eq!(SMCParamStruct::from_bytes(&q.to_bytes()), q);
    let mut r = SMCParamStruct::for_index(8, 3);
    r.set_value(&[9, 8]);
    assert_eq!((r.data32, r.data8, r.bytes[0], r.bytes[1], r.bytes[2]), (3, 8, 9, 8, 0));
}

#[test]
fn io_connect_is_repr_transparent() {
    assert_eq!(std::mem::size_of::<IoConnect>(), std::mem::size_of::<IoConnectT>());
    assert_eq!(std::mem::align_of::<IoConnect>(), std::mem::align_of::<IoConnectT>());
}

#[test]
fn empty_response_sanity_check_conditions() {
    let param = SMCParamStruct::zeroed();
    assert_eq!(param.result, 0);
    assert_eq!(param.key_info.data_size, 0);
    assert_eq!(param.key_info.data_type, 0);
}

#[test]
fn errors_and_connections_can_be_sent() {
    fn requires<E: std::fmt::Debug + Send + Sync + 'static>() {}
    requires::<SmcError>();
    fn sendable<T: Send>() {}
    sendable::<SmcConnection>();
}

#[test]
fn return_codes_have_names() {
    assert_eq!(kern_return_name(0), "kIOReturnSuccess");
    assert_eq!(kern_return_name(K_IO_RETURN_NOT_PERMITTED), "kIOReturnNotPermitted");
    assert_eq!(kern_return_name(12345), "kIOReturn<unknown>");
}

#[test]
fn unprintable_keys_are_shown_with_question_marks() {
    assert_eq!(fourcc_to_str(0x4630_0100), "F0??");
    assert_eq!(fourcc_to_str(0x7569_3820), "ui8 ");
}

#[test]
fn smc_error_display_includes_symbolic_names() {
    let err = SmcError::OpenFailed(K_IO_RETURN_NOT_PRIVILEGED);
    let msg = err.message();
    assert!(msg.contains("kIOReturnNotPrivileged"));
    assert!(msg.contains("sudo"));

    let err = SmcError::OpenFailed(K_IO_RETURN_NOT_PERMITTED);
    let msg = err.message();
    assert!(msg.contains("kIOReturnNotPermitted"));
    assert!(msg.contains("Lockdown Mode"));
    assert!(msg.contains("EndpointSecurity"));
}

#[test]
fn fourcc_to_str_roundtrip() {
    // "FNum" = 0x46 4E 75 6D
    let fourcc = 0x464E_756D_u32;
    assert_eq!(fourcc_to_str(fourcc), "FNum");

    // "#KEY" = 0x23 4B 45 59
    let fourcc = 0x234B_4559_u32;
    assert_eq!(fourcc_to_str(fourcc), "#KEY");
}

#[test]
fn every_smc_error_variant_has_stable_code() {
    let sid = session();
    let fixtures: Vec<(SmcError, &str)> = vec![
        (SmcError::ServiceNotFound, "SERVICE_NOT_FOUND"),
        (
            SmcError::OpenFailed(0xE00002C1_u32 as KernReturnT),
            "OPEN_FAILED",
        ),
        (SmcError::OpenTimeout, "OPEN_TIMEOUT"),
        (
            SmcError::CallFailed {
                selector: 2,
                kr: 0,
                cmd: 5,
            },
            "CALL_FAILED",
        ),
        (
            SmcError::SmcResult {
                cmd: 5,
                result_byte: 0x84,
            },
            "SMC_RESULT",
        ),
        (SmcError::KeyNotFound(0x4630_4D64), "KEY_NOT_FOUND"),
        (
            SmcError::TypeMismatch {
                fourcc: 0,
                expected: 0,
                got: 0,
            },
            "TYPE_MISMATCH",
        ),
        (
            SmcError::DataSizeClamped {
                fourcc: 0,
                reported: 100,
            },
            "DATA_SIZE_CLAMPED",
        ),
        (SmcError::InvalidFloat { fourcc: 0 }, "INVALID_FLOAT"),
        (SmcError::EmptyResponse { fourcc: 0 }, "EMPTY_RESPONSE"),
        (SmcError::AlreadyClosed, "ALREADY_CLOSED"),
        (SmcError::Busy { retried: true }, "BUSY"),
        (SmcError::Timeout { retried: false }, "TIMEOUT"),
        (SmcError::AttributeDenied { fourcc: 0 }, "ATTRIBUTE_DENIED"),
        (SmcError::WriteDenied(0), "WRITE_DENIED"),
        (
            SmcError::SizeMismatch {
                fourcc: 0,
                expected: 4,
                got: 2,
            },
            "SIZE_MISMATCH",
        ),
        (
            SmcError::EndiannessUnplausible {
                fourcc: 0,
                got: 0xDEAD,
            },
            "ENDIANNESS_UNPLAUSIBLE",
        ),
        (
            SmcError::UnlockMismatch {
                expected: 1,
                got: 0,
                session: sid,
                timestamp_ns: 0,
            },
            "UNLOCK_MISMATCH",
        ),
        (
            SmcError::UnlockRejected {
                result_byte: 0x86,
                session: sid,
            },
            "UNLOCK_REJECTED",
        ),
        (
            SmcError::WriteRefused {
                fourcc: 0x4630_4D64,
                result_byte: 0x85,
                context: "fan_mode",
                session: sid,
                timestamp_ns: 0,
            },
            "WRITE_REFUSED",
        ),
        (
            SmcError::WriteReadbackMismatch {
                fourcc: 0x4630_5467,
                expected: [1, 2, 3, 4],
                expected_len: 4,
                got: [1, 2, 3, 5],
                got_len: 4,
                session: sid,
                timestamp_ns: 0,
                iteration: None,
            },
            "WRITE_READBACK_MISMATCH",
        ),
        (
            SmcError::WatchdogFired {
                elapsed_ms: 4200,
                session: sid,
            },
            "WATCHDOG_FIRED",
        ),
        (
            SmcError::ConflictDetected {
                holder_pid: 12345,
                lockfile_path: "/private/var/run/fand-smc.lock".to_string(),
            },
            "CONFLICT_DETECTED",
        ),
        (
            SmcError::EdrDenied {
                suspected_agent: Some("falcon-sensor".to_string()),
            },
            "EDR_DENIED",
        ),
        (SmcError::TccDenied, "TCC_DENIED"),
        (SmcError::LockdownModeSuspected, "LOCKDOWN_MODE_SUSPECTED"),
    ];
    assert_eq!(fixtures.len(), 26, "every SmcError variant must be tested");
    for (err, expected_code) in &fixtures {
        assert_eq!(
            err.error_code(),
            *expected_code,
            "variant {err:?} → expected code '{expected_code}'"
        );
    }
}

#[test]
fn error_codes_are_all_distinct() {
    let sid = session();
    let codes: Vec<&'static str> = vec![
        SmcError::ServiceNotFound.error_code(),
        SmcError::OpenFailed(0).error_code(),
        SmcError::OpenTimeout.error_code(),
        SmcError::CallFailed {
            selector: 0,
            kr: 0,
            cmd: 0,
        }
        .error_code(),
        SmcError::SmcResult {
            cmd: 0,
            result_byte: 0,
        }
        .error_code(),
        SmcError::KeyNotFound(0).error_code(),
        SmcError::TypeMismatch {
            fourcc: 0,
            expected: 0,
            got: 0,
        }
        .error_code(),
        SmcError::DataSizeClamped {
            fourcc: 0,
            reported: 0,
        }
        .error_code(),
        SmcError::InvalidFloat { fourcc: 0 }.error_code(),
        SmcError::EmptyResponse { fourcc: 0 }.error_code(),
        SmcError::AlreadyClosed.error_code(),
        SmcError::Busy { retried: false }.error_code(),
        SmcError::Timeout { retried: false }.error_code(),
        SmcError::AttributeDenied { fourcc: 0 }.error_code(),
        SmcError::WriteDenied(0).error_code(),
        SmcError::SizeMismatch {
            fourcc: 0,
            expected: 0,
            got: 0,
        }
        .error_code(),
        SmcError::EndiannessUnplausible { fourcc: 0, got: 0 }.error_code(),
        SmcError::UnlockMismatch {
            expected: 0,
            got: 0,
            session: sid,
            timestamp_ns: 0,
        }
        .error_code(),
        SmcError::UnlockRejected {
            result_byte: 0,
            session: sid,
        }
        .error_code(),
        SmcError::WriteRefused {
            fourcc: 0,
            result_byte: 0,
            context: "x",
            session: sid,
            timestamp_ns: 0,
        }
        .error_code(),
        SmcError::WriteReadbackMismatch {
            fourcc: 0,
            expected: [0; 4],
            expected_len: 0,
            got: [0; 4],
            got_len: 0,
            session: sid,
            timestamp_ns: 0,
            iteration: None,
        }
        .error_code(),
        SmcError::WatchdogFired {
            elapsed_ms: 0,
            session: sid,
        }
        .error_code(),
        SmcError::ConflictDetected {
            holder_pid: 0,
            lockfile_path: String::new(),
        }
        .error_code(),
        SmcError::EdrDenied {
            suspected_agent: None,
        }
        .error_code(),
        SmcError::TccDenied.error_code(),
        SmcError::LockdownModeSuspected.error_code(),
    ];
    let unique: std::collections::HashSet<_> = codes.iter().copied().collect();
    assert_eq!(
        unique.len(),
        codes.len(),
        "error_code() mapping must be injective"
    );
}

#[test]
fn feature_005_display_contains_session_id() {
    let sid = session();
    let err = SmcError::WatchdogFired {
        elapsed_ms: 4200,
        session: sid,
    };
    let msg = err.message();
    assert!(msg.contains(&sid.as_str()), "Display must embed session id");
    assert!(msg.contains("4200"));
}

#[test]
fn conflict_detected_display_warns_untrusted_pid() {
    let err = SmcError::ConflictDetected {
        holder_pid: 99999,
        lockfile_path: "/var/run/fand-smc.lock".to_string(),
    };
    let msg = err.message();
    assert!(msg.contains("99999"));
    assert!(
        msg.contains("untrusted"),
        "Display MUST warn that PID is untrusted"
    );
}

#[test]
fn edr_denied_identifies_agent_when_known() {
    let err = SmcError::EdrDenied {
        suspected_agent: Some("CrowdStrike".to_string()),
    };
    let msg = err.message();
    assert!(msg.contains("CrowdStrike"));
    assert!(msg.contains("EndpointSecurity"));

    let err_none = SmcError::EdrDenied {
        suspected_agent: None,
    };
    let msg_none = err_none.message();
    assert!(msg_none.contains("agent not identified"));
}
