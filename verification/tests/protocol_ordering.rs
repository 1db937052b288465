//! Ordering tests: for each phase, a message with a recorded previous type
//! outside its legal-predecessor set is always a protocol violation, a legal
//! predecessor always passes the ordering check, terminal messages accept
//! nothing, and codes never collide.

use fdo_engine::constants::{Direction, MessageType, ProtocolPhase};
use fdo_engine::errors::{Error, ProtocolViolation, StoreError};
use fdo_engine::session::{check_encryption, check_ordering, Session, SessionStore};

const ALL_TYPES: [MessageType; 22] = [
    MessageType::DIAppStart,
    MessageType::DISetCredentials,
    MessageType::DISetHMAC,
    MessageType::DIDone,
    MessageType::DIUNConnect,
    MessageType::DIUNAccept,
    MessageType::DIUNRequestKeyParameters,
    MessageType::DIUNProvideKeyParameters,
    MessageType::DIUNProvideKey,
    MessageType::DIUNDone,
    MessageType::TO2HelloDevice,
    MessageType::TO2ProveOVHdr,
    MessageType::TO2GetOVNextEntry,
    MessageType::TO2OVNextEntry,
    MessageType::TO2ProveDevice,
    MessageType::TO2SetupDevice,
    MessageType::TO2DeviceServiceInfoReady,
    MessageType::TO2OwnerServiceInfoReady,
    MessageType::TO2DeviceServiceInfo,
    MessageType::TO2OwnerServiceInfo,
    MessageType::TO2Done,
    MessageType::TO2Done2,
];

/// The legal predecessors of each type, straight from the phase orderings.
fn legal_predecessors(t: MessageType) -> Vec<Option<MessageType>> {
    match t {
        MessageType::DIAppStart => vec![None],
        MessageType::DISetCredentials => vec![Some(MessageType::DIAppStart)],
        MessageType::DISetHMAC => vec![Some(MessageType::DISetCredentials)],
        MessageType::DIDone => vec![Some(MessageType::DISetHMAC)],
        MessageType::DIUNConnect => vec![None],
        MessageType::DIUNAccept => vec![Some(MessageType::DIUNConnect)],
        MessageType::DIUNRequestKeyParameters => vec![Some(MessageType::DIUNAccept)],
        MessageType::DIUNProvideKeyParameters => {
            vec![Some(MessageType::DIUNRequestKeyParameters)]
        },
        MessageType::DIUNProvideKey => vec![Some(MessageType::DIUNProvideKeyParameters)],
        MessageType::DIUNDone => vec![Some(MessageType::DIUNProvideKey)],
        MessageType::TO2HelloDevice => vec![None],
        MessageType::TO2ProveOVHdr => vec![Some(MessageType::TO2HelloDevice)],
        MessageType::TO2GetOVNextEntry => {
            vec![Some(MessageType::TO2ProveOVHdr), Some(MessageType::TO2OVNextEntry)]
        },
        MessageType::TO2OVNextEntry => vec![Some(MessageType::TO2GetOVNextEntry)],
        MessageType::TO2ProveDevice => {
            vec![Some(MessageType::TO2ProveOVHdr), Some(MessageType::TO2OVNextEntry)]
        },
        MessageType::TO2SetupDevice => vec![Some(MessageType::TO2ProveDevice)],
        MessageType::TO2DeviceServiceInfoReady => vec![Some(MessageType::TO2SetupDevice)],
        MessageType::TO2OwnerServiceInfoReady => {
            vec![Some(MessageType::TO2DeviceServiceInfoReady)]
        },
        MessageType::TO2DeviceServiceInfo => {
            vec![
                Some(MessageType::TO2OwnerServiceInfoReady),
                Some(MessageType::TO2OwnerServiceInfo),
            ]
        },
        MessageType::TO2OwnerServiceInfo => vec![Some(MessageType::TO2DeviceServiceInfo)],
        MessageType::TO2Done => vec![Some(MessageType::TO2OwnerServiceInfo)],
        MessageType::TO2Done2 => vec![Some(MessageType::TO2Done)],
    }
}

#[test]
fn ordering_accepts_exactly_the_legal_predecessors() {
    for t in ALL_TYPES {
        let legal = legal_predecessors(t);
        let mut candidates: Vec<Option<MessageType>> = vec![None];
        for p in ALL_TYPES {
            candidates.push(Some(p));
        }
        for prev in candidates {
            let r = check_ordering(t, prev);
            if legal.contains(&prev) {
                assert!(r.is_ok(), "{:?} after {:?} should pass", t, prev);
            } else {
                assert_eq!(
                    r,
                    Err(Error::Protocol(ProtocolViolation::OutOfOrder)),
                    "{:?} after {:?} should be a violation",
                    t,
                    prev
                );
            }
        }
    }
}

#[test]
fn terminal_messages_accept_nothing_after_them() {
    for terminal in [MessageType::DIDone, MessageType::DIUNDone, MessageType::TO2Done2] {
        for t in ALL_TYPES {
            assert!(check_ordering(t, Some(terminal)).is_err());
        }
    }
}

#[test]
fn codes_are_unique_and_match_the_wire_values() {
    assert_eq!(MessageType::DIAppStart.code(), 10);
    assert_eq!(MessageType::DISetCredentials.code(), 11);
    assert_eq!(MessageType::DISetHMAC.code(), 12);
    assert_eq!(MessageType::DIDone.code(), 13);
    assert_eq!(MessageType::DIUNConnect.code(), 210);
    assert_eq!(MessageType::DIUNAccept.code(), 211);
    assert_eq!(MessageType::DIUNRequestKeyParameters.code(), 212);
    assert_eq!(MessageType::DIUNProvideKeyParameters.code(), 213);
    assert_eq!(MessageType::DIUNProvideKey.code(), 214);
    assert_eq!(MessageType::DIUNDone.code(), 215);
    for (i, a) in ALL_TYPES.iter().enumerate() {
        assert_eq!(MessageType::from_code(a.code()), Some(*a));
        for b in &ALL_TYPES[i + 1..] {
            assert_ne!(a.code(), b.code());
        }
    }
}

#[test]
fn phases_alternate_directions() {
    for t in ALL_TYPES {
        for p in ALL_TYPES {
            if check_ordering(t, Some(p)).is_ok() {
                assert_eq!(t.phase(), p.phase());
                assert_ne!(t.sender(), p.sender());
            }
        }
    }
    assert_eq!(MessageType::DIUNConnect.sender(), Direction::ClientToServer);
    assert_eq!(MessageType::DIUNAccept.sender(), Direction::ServerToClient);
}

#[test]
fn encryption_requirements_are_enforced() {
    // The opening bootstrap messages must travel in the clear.
    assert!(check_encryption(MessageType::DIUNConnect, false, false).is_ok());
    assert_eq!(
        check_encryption(MessageType::DIUNConnect, false, true),
        Err(Error::Protocol(ProtocolViolation::UnexpectedEncryption))
    );
    // A type with no constraint must match whether keys are active.
    assert!(check_encryption(MessageType::DIUNProvideKey, true, true).is_ok());
    assert_eq!(
        check_encryption(MessageType::DIUNProvideKey, true, false),
        Err(Error::Protocol(ProtocolViolation::MissingEncryption))
    );
    assert!(check_encryption(MessageType::DIUNProvideKey, false, false).is_ok());
}

#[test]
fn session_counters_gate_the_terminal_messages() {
    // ProveDevice is refused until the expected number of entries went out.
    let mut s = Session::new(1, ProtocolPhase::TO2, 100);
    s.record_message(MessageType::TO2HelloDevice);
    s.record_message(MessageType::TO2ProveOVHdr);
    s.set_expected_entries(2);
    s.record_message(MessageType::TO2GetOVNextEntry);
    s.record_message(MessageType::TO2OVNextEntry);
    s.note_entry_sent().unwrap();
    assert_eq!(
        s.check_message(MessageType::TO2ProveDevice),
        Err(Error::Protocol(ProtocolViolation::CounterMismatch))
    );
    s.record_message(MessageType::TO2GetOVNextEntry);
    s.record_message(MessageType::TO2OVNextEntry);
    s.note_entry_sent().unwrap();
    assert!(s.check_message(MessageType::TO2ProveDevice).is_ok());
    // The device-side closing message waits for the owner's completion flag.
    s.record_message(MessageType::TO2ProveDevice);
    s.record_message(MessageType::TO2SetupDevice);
    s.record_message(MessageType::TO2DeviceServiceInfoReady);
    s.record_message(MessageType::TO2OwnerServiceInfoReady);
    s.record_message(MessageType::TO2DeviceServiceInfo);
    s.record_message(MessageType::TO2OwnerServiceInfo);
    assert_eq!(
        s.check_message(MessageType::TO2Done),
        Err(Error::Protocol(ProtocolViolation::CounterMismatch))
    );
    s.note_service_info_done();
    assert!(s.check_message(MessageType::TO2Done).is_ok());
}

#[test]
fn session_rejects_other_phases() {
    let s = Session::new(1, ProtocolPhase::DIUN, 100);
    assert!(s.check_message(MessageType::DIUNConnect).is_ok());
    assert_eq!(
        s.check_message(MessageType::DIAppStart),
        Err(Error::Protocol(ProtocolViolation::OutOfOrder))
    );
}

#[test]
fn session_store_create_lease_commit_sweep() {
    let mut store = SessionStore::new();
    let a = store.create(ProtocolPhase::DIUN, 10).unwrap();
    let b = store.create(ProtocolPhase::DI, 20).unwrap();
    assert_ne!(a, b);
    assert_eq!(store.lease(99), Err(Error::Store(StoreError::NotFound)));

    let sa = store.lease(a).unwrap();
    assert_eq!(sa.id, a);
    // A leased session is gone until committed: no second handler gets it.
    assert_eq!(store.lease(a), Err(Error::Store(StoreError::NotFound)));
    store.commit(sa).unwrap();

    // Sweep at instant 10 removes the session that expires at 10.
    let removed = store.expire_sweep(10);
    assert_eq!(removed, 1);
    assert_eq!(store.lease(a), Err(Error::Store(StoreError::NotFound)));
    let sb = store.lease(b).unwrap();
    assert_eq!(sb.id, b);
}

#[test]
fn session_store_refuses_bad_commits() {
    let mut store = SessionStore::new();
    let a = store.create(ProtocolPhase::DIUN, 10).unwrap();
    // Committing a second copy of a live identifier is refused.
    let copy = Session::new(a, ProtocolPhase::DIUN, 10);
    assert_eq!(store.commit(copy), Err(Error::Store(StoreError::Backend)));
    // Committing a session the store never issued is refused.
    let foreign = Session::new(1000, ProtocolPhase::DI, 10);
    assert_eq!(store.commit(foreign), Err(Error::Store(StoreError::Backend)));
}
