//! The closed message catalogue: every message type of the three phases,
//! with its routable wire code, its phase, the side that may produce it, its
//! encryption requirement and its legal predecessors.
//!
//! The catalogue is a closed set known at compile time, so the per-type
//! metadata lives in total functions over `MessageType` rather than in
//! virtual dispatch. The message structs in `di`, `diun` and `to2` tie their
//! own metadata methods back to these tables.

use vstd::prelude::*;

verus! {

/// Every message type of the catalogue, across all three phases.
#[derive(Clone, Copy, Debug, PartialEq, Eq, Structural)]
pub enum MessageType {
    DIAppStart,
    DISetCredentials,
    DISetHMAC,
    DIDone,
    DIUNConnect,
    DIUNAccept,
    DIUNRequestKeyParameters,
    DIUNProvideKeyParameters,
    DIUNProvideKey,
    DIUNDone,
    TO2HelloDevice,
    TO2ProveOVHdr,
    TO2GetOVNextEntry,
    TO2OVNextEntry,
    TO2ProveDevice,
    TO2SetupDevice,
    TO2DeviceServiceInfoReady,
    TO2OwnerServiceInfoReady,
    TO2DeviceServiceInfo,
    TO2OwnerServiceInfo,
    TO2Done,
    TO2Done2,
}

/// The protocol phase a message type belongs to. Every type belongs to
/// exactly one phase; `lemma_predecessor_same_phase` shows the ordering
/// table never crosses phases.
#[derive(Clone, Copy, Debug, PartialEq, Eq, Structural)]
pub enum ProtocolPhase {
    DI,
    DIUN,
    TO2,
}

/// Which side of the connection may produce a message type.
#[derive(Clone, Copy, Debug, PartialEq, Eq, Structural)]
pub enum Direction {
    ClientToServer,
    ServerToClient,
}

/// A message type's static demand on the transport envelope. A type with no
/// entry (None in the table) carries no constraint.
#[derive(Clone, Copy, Debug, PartialEq, Eq, Structural)]
pub enum EncryptionRequirement {
    MustBeEncrypted,
    MustNotBeEncrypted,
}

impl MessageType {
    /// The numeric wire code, fixed per type and never colliding
    /// (`lemma_codes_unique`).
    pub open spec fn spec_code(self) -> u8 {
        match self {
            MessageType::DIAppStart => 10,
            MessageType::DISetCredentials => 11,
            MessageType::DISetHMAC => 12,
            MessageType::DIDone => 13,
            MessageType::DIUNConnect => 210,
            MessageType::DIUNAccept => 211,
            MessageType::DIUNRequestKeyParameters => 212,
            MessageType::DIUNProvideKeyParameters => 213,
            MessageType::DIUNProvideKey => 214,
            MessageType::DIUNDone => 215,
            MessageType::TO2HelloDevice => 60,
            MessageType::TO2ProveOVHdr => 61,
            MessageType::TO2GetOVNextEntry => 62,
            MessageType::TO2OVNextEntry => 63,
            MessageType::TO2ProveDevice => 64,
            MessageType::TO2SetupDevice => 65,
            MessageType::TO2DeviceServiceInfoReady => 66,
            MessageType::TO2OwnerServiceInfoReady => 67,
            MessageType::TO2DeviceServiceInfo => 68,
            MessageType::TO2OwnerServiceInfo => 69,
            MessageType::TO2Done => 70,
            MessageType::TO2Done2 => 71,
        }
    }

    pub fn code(self) -> (r: u8)
        ensures
            r == self.spec_code(),
    {
        match self {
            MessageType::DIAppStart => 10,
            MessageType::DISetCredentials => 11,
            MessageType::DISetHMAC => 12,
            MessageType::DIDone => 13,
            MessageType::DIUNConnect => 210,
            MessageType::DIUNAccept => 211,
            MessageType::DIUNRequestKeyParameters => 212,
            MessageType::DIUNProvideKeyParameters => 213,
            MessageType::DIUNProvideKey => 214,
            MessageType::DIUNDone => 215,
            MessageType::TO2HelloDevice => 60,
            MessageType::TO2ProveOVHdr => 61,
            MessageType::TO2GetOVNextEntry => 62,
            MessageType::TO2OVNextEntry => 63,
            MessageType::TO2ProveDevice => 64,
            MessageType::TO2SetupDevice => 65,
            MessageType::TO2DeviceServiceInfoReady => 66,
            MessageType::TO2OwnerServiceInfoReady => 67,
            MessageType::TO2DeviceServiceInfo => 68,
            MessageType::TO2OwnerServiceInfo => 69,
            MessageType::TO2Done => 70,
            MessageType::TO2Done2 => 71,
        }
    }

    /// The type whose wire code is `c`, if any.
    pub open spec fn spec_from_code(c: u8) -> Option<MessageType> {
        match c {
            10 => Some(MessageType::DIAppStart),
            11 => Some(MessageType::DISetCredentials),
            12 => Some(MessageType::DISetHMAC),
            13 => Some(MessageType::DIDone),
            210 => Some(MessageType::DIUNConnect),
            211 => Some(MessageType::DIUNAccept),
            212 => Some(MessageType::DIUNRequestKeyParameters),
            213 => Some(MessageType::DIUNProvideKeyParameters),
            214 => Some(MessageType::DIUNProvideKey),
            215 => Some(MessageType::DIUNDone),
            60 => Some(MessageType::TO2HelloDevice),
            61 => Some(MessageType::TO2ProveOVHdr),
            62 => Some(MessageType::TO2GetOVNextEntry),
            63 => Some(MessageType::TO2OVNextEntry),
            64 => Some(MessageType::TO2ProveDevice),
            65 => Some(MessageType::TO2SetupDevice),
            66 => Some(MessageType::TO2DeviceServiceInfoReady),
            67 => Some(MessageType::TO2OwnerServiceInfoReady),
            68 => Some(MessageType::TO2DeviceServiceInfo),
            69 => Some(MessageType::TO2OwnerServiceInfo),
            70 => Some(MessageType::TO2Done),
            71 => Some(MessageType::TO2Done2),
            _ => None,
        }
    }

    pub fn from_code(c: u8) -> (r: Option<MessageType>)
        ensures
            r == MessageType::spec_from_code(c),
    {
        match c {
            10 => Some(MessageType::DIAppStart),
            11 => Some(MessageType::DISetCredentials),
            12 => Some(MessageType::DISetHMAC),
            13 => Some(MessageType::DIDone),
            210 => Some(MessageType::DIUNConnect),
            211 => Some(MessageType::DIUNAccept),
            212 => Some(MessageType::DIUNRequestKeyParameters),
            213 => Some(MessageType::DIUNProvideKeyParameters),
            214 => Some(MessageType::DIUNProvideKey),
            215 => Some(MessageType::DIUNDone),
            60 => Some(MessageType::TO2HelloDevice),
            61 => Some(MessageType::TO2ProveOVHdr),
            62 => Some(MessageType::TO2GetOVNextEntry),
            63 => Some(MessageType::TO2OVNextEntry),
            64 => Some(MessageType::TO2ProveDevice),
            65 => Some(MessageType::TO2SetupDevice),
            66 => Some(MessageType::TO2DeviceServiceInfoReady),
            67 => Some(MessageType::TO2OwnerServiceInfoReady),
            68 => Some(MessageType::TO2DeviceServiceInfo),
            69 => Some(MessageType::TO2OwnerServiceInfo),
            70 => Some(MessageType::TO2Done),
            71 => Some(MessageType::TO2Done2),
            _ => None,
        }
    }

    /// The phase the type belongs to.
    pub open spec fn spec_phase(self) -> ProtocolPhase {
        match self {
            MessageType::DIAppStart => ProtocolPhase::DI,
            MessageType::DISetCredentials => ProtocolPhase::DI,
            MessageType::DISetHMAC => ProtocolPhase::DI,
            MessageType::DIDone => ProtocolPhase::DI,
            MessageType::DIUNConnect => ProtocolPhase::DIUN,
            MessageType::DIUNAccept => ProtocolPhase::DIUN,
            MessageType::DIUNRequestKeyParameters => ProtocolPhase::DIUN,
            MessageType::DIUNProvideKeyParameters => ProtocolPhase::DIUN,
            MessageType::DIUNProvideKey => ProtocolPhase::DIUN,
            MessageType::DIUNDone => ProtocolPhase::DIUN,
            _ => ProtocolPhase::TO2,
        }
    }

    pub fn phase(self) -> (r: ProtocolPhase)
        ensures
            r == self.spec_phase(),
    {
        match self {
            MessageType::DIAppStart => ProtocolPhase::DI,
            MessageType::DISetCredentials => ProtocolPhase::DI,
            MessageType::DISetHMAC => ProtocolPhase::DI,
            MessageType::DIDone => ProtocolPhase::DI,
            MessageType::DIUNConnect => ProtocolPhase::DIUN,
            MessageType::DIUNAccept => ProtocolPhase::DIUN,
            MessageType::DIUNRequestKeyParameters => ProtocolPhase::DIUN,
            MessageType::DIUNProvideKeyParameters => ProtocolPhase::DIUN,
            MessageType::DIUNProvideKey => ProtocolPhase::DIUN,
            MessageType::DIUNDone => ProtocolPhase::DIUN,
            _ => ProtocolPhase::TO2,
        }
    }

    /// The side that may produce this type.
    pub open spec fn spec_sender(self) -> Direction {
        match self {
            MessageType::DIAppStart => Direction::ClientToServer,
            MessageType::DISetCredentials => Direction::ServerToClient,
            MessageType::DISetHMAC => Direction::ClientToServer,
            MessageType::DIDone => Direction::ServerToClient,
            MessageType::DIUNConnect => Direction::ClientToServer,
            MessageType::DIUNAccept => Direction::ServerToClient,
            MessageType::DIUNRequestKeyParameters => Direction::ClientToServer,
            MessageType::DIUNProvideKeyParameters => Direction::ServerToClient,
            MessageType::DIUNProvideKey => Direction::ClientToServer,
            MessageType::DIUNDone => Direction::ServerToClient,
            MessageType::TO2HelloDevice => Direction::ClientToServer,
            MessageType::TO2ProveOVHdr => Direction::ServerToClient,
            MessageType::TO2GetOVNextEntry => Direction::ClientToServer,
            MessageType::TO2OVNextEntry => Direction::ServerToClient,
            MessageType::TO2ProveDevice => Direction::ClientToServer,
            MessageType::TO2SetupDevice => Direction::ServerToClient,
            MessageType::TO2DeviceServiceInfoReady => Direction::ClientToServer,
            MessageType::TO2OwnerServiceInfoReady => Direction::ServerToClient,
            MessageType::TO2DeviceServiceInfo => Direction::ClientToServer,
            MessageType::TO2OwnerServiceInfo => Direction::ServerToClient,
            MessageType::TO2Done => Direction::ClientToServer,
            MessageType::TO2Done2 => Direction::ServerToClient,
        }
    }

    pub fn sender(self) -> (r: Direction)
        ensures
            r == self.spec_sender(),
    {
        match self {
            MessageType::DIAppStart => Direction::ClientToServer,
            MessageType::DISetCredentials => Direction::ServerToClient,
            MessageType::DISetHMAC => Direction::ClientToServer,
            MessageType::DIDone => Direction::ServerToClient,
            MessageType::DIUNConnect => Direction::ClientToServer,
            MessageType::DIUNAccept => Direction::ServerToClient,
            MessageType::DIUNRequestKeyParameters => Direction::ClientToServer,
            MessageType::DIUNProvideKeyParameters => Direction::ServerToClient,
            MessageType::DIUNProvideKey => Direction::ClientToServer,
            MessageType::DIUNDone => Direction::ServerToClient,
            MessageType::TO2HelloDevice => Direction::ClientToServer,
            MessageType::TO2ProveOVHdr => Direction::ServerToClient,
            MessageType::TO2GetOVNextEntry => Direction::ClientToServer,
            MessageType::TO2OVNextEntry => Direction::ServerToClient,
            MessageType::TO2ProveDevice => Direction::ClientToServer,
            MessageType::TO2SetupDevice => Direction::ServerToClient,
            MessageType::TO2DeviceServiceInfoReady => Direction::ClientToServer,
            MessageType::TO2OwnerServiceInfoReady => Direction::ServerToClient,
            MessageType::TO2DeviceServiceInfo => Direction::ClientToServer,
            MessageType::TO2OwnerServiceInfo => Direction::ServerToClient,
            MessageType::TO2Done => Direction::ClientToServer,
            MessageType::TO2Done2 => Direction::ServerToClient,
        }
    }

    /// The static encryption requirement; None means no constraint. The
    /// opening messages of the manufacturer-trust bootstrap must travel in
    /// the clear: key material is exchanged through them.
    pub open spec fn spec_encryption_requirement(self) -> Option<EncryptionRequirement> {
        match self {
            MessageType::DIUNConnect => Some(EncryptionRequirement::MustNotBeEncrypted),
            MessageType::DIUNAccept => Some(EncryptionRequirement::MustNotBeEncrypted),
            MessageType::DIUNRequestKeyParameters => Some(
                EncryptionRequirement::MustNotBeEncrypted,
            ),
            _ => None,
        }
    }

    pub fn encryption_requirement(self) -> (r: Option<EncryptionRequirement>)
        ensures
            r == self.spec_encryption_requirement(),
    {
        match self {
            MessageType::DIUNConnect => Some(EncryptionRequirement::MustNotBeEncrypted),
            MessageType::DIUNAccept => Some(EncryptionRequirement::MustNotBeEncrypted),
            MessageType::DIUNRequestKeyParameters => Some(
                EncryptionRequirement::MustNotBeEncrypted,
            ),
            _ => None,
        }
    }

    /// The ordering table: whether a message of this type may follow a
    /// session whose last accepted message was `prev` (None at the start of
    /// a phase). An arrival that fails this test is a hard protocol
    /// violation; the session is rejected, never repaired.
    ///
    /// The repeated voucher-entry and service-info exchanges admit their own
    /// predecessor again; the per-session repetition counters are enforced
    /// on top of this table by the session state machine.
    pub open spec fn spec_valid_previous(self, prev: Option<MessageType>) -> bool {
        match self {
            MessageType::DIAppStart => prev is None,
            MessageType::DISetCredentials => prev == Some(MessageType::DIAppStart),
            MessageType::DISetHMAC => prev == Some(MessageType::DISetCredentials),
            MessageType::DIDone => prev == Some(MessageType::DISetHMAC),
            MessageType::DIUNConnect => prev is None,
            MessageType::DIUNAccept => prev == Some(MessageType::DIUNConnect),
            MessageType::DIUNRequestKeyParameters => prev == Some(MessageType::DIUNAccept),
            MessageType::DIUNProvideKeyParameters => prev == Some(
                MessageType::DIUNRequestKeyParameters,
            ),
            MessageType::DIUNProvideKey => prev == Some(MessageType::DIUNProvideKeyParameters),
            MessageType::DIUNDone => prev == Some(MessageType::DIUNProvideKey),
            MessageType::TO2HelloDevice => prev is None,
            MessageType::TO2ProveOVHdr => prev == Some(MessageType::TO2HelloDevice),
            MessageType::TO2GetOVNextEntry => prev == Some(MessageType::TO2ProveOVHdr) || prev
                == Some(MessageType::TO2OVNextEntry),
            MessageType::TO2OVNextEntry => prev == Some(MessageType::TO2GetOVNextEntry),
            MessageType::TO2ProveDevice => prev == Some(MessageType::TO2ProveOVHdr) || prev
                == Some(MessageType::TO2OVNextEntry),
            MessageType::TO2SetupDevice => prev == Some(MessageType::TO2ProveDevice),
            MessageType::TO2DeviceServiceInfoReady => prev == Some(MessageType::TO2SetupDevice),
            MessageType::TO2OwnerServiceInfoReady => prev == Some(
                MessageType::TO2DeviceServiceInfoReady,
            ),
            MessageType::TO2DeviceServiceInfo => prev == Some(MessageType::TO2OwnerServiceInfoReady)
                || prev == Some(MessageType::TO2OwnerServiceInfo),
            MessageType::TO2OwnerServiceInfo => prev == Some(MessageType::TO2DeviceServiceInfo),
            MessageType::TO2Done => prev == Some(MessageType::TO2OwnerServiceInfo),
            MessageType::TO2Done2 => prev == Some(MessageType::TO2Done),
        }
    }

    pub fn valid_previous(self, prev: Option<MessageType>) -> (r: bool)
        ensures
            r == self.spec_valid_previous(prev),
    {
        match self {
            MessageType::DIAppStart => prev.is_none(),
            MessageType::DISetCredentials => prev == Some(MessageType::DIAppStart),
            MessageType::DISetHMAC => prev == Some(MessageType::DISetCredentials),
            MessageType::DIDone => prev == Some(MessageType::DISetHMAC),
            MessageType::DIUNConnect => prev.is_none(),
            MessageType::DIUNAccept => prev == Some(MessageType::DIUNConnect),
            MessageType::DIUNRequestKeyParameters => prev == Some(MessageType::DIUNAccept),
            MessageType::DIUNProvideKeyParameters => prev == Some(
                MessageType::DIUNRequestKeyParameters,
            ),
            MessageType::DIUNProvideKey => prev == Some(MessageType::DIUNProvideKeyParameters),
            MessageType::DIUNDone => prev == Some(MessageType::DIUNProvideKey),
            MessageType::TO2HelloDevice => prev.is_none(),
            MessageType::TO2ProveOVHdr => prev == Some(MessageType::TO2HelloDevice),
            MessageType::TO2GetOVNextEntry => prev == Some(MessageType::TO2ProveOVHdr) || prev
                == Some(MessageType::TO2OVNextEntry),
            MessageType::TO2OVNextEntry => prev == Some(MessageType::TO2GetOVNextEntry),
            MessageType::TO2ProveDevice => prev == Some(MessageType::TO2ProveOVHdr) || prev
                == Some(MessageType::TO2OVNextEntry),
            MessageType::TO2SetupDevice => prev == Some(MessageType::TO2ProveDevice),
            MessageType::TO2DeviceServiceInfoReady => prev == Some(MessageType::TO2SetupDevice),
            MessageType::TO2OwnerServiceInfoReady => prev == Some(
                MessageType::TO2DeviceServiceInfoReady,
            ),
            MessageType::TO2DeviceServiceInfo => prev == Some(MessageType::TO2OwnerServiceInfoReady)
                || prev == Some(MessageType::TO2OwnerServiceInfo),
            MessageType::TO2OwnerServiceInfo => prev == Some(MessageType::TO2DeviceServiceInfo),
            MessageType::TO2Done => prev == Some(MessageType::TO2OwnerServiceInfo),
            MessageType::TO2Done2 => prev == Some(MessageType::TO2Done),
        }
    }

    /// Whether this type ends its phase: nothing may follow it on a session.
    pub open spec fn spec_is_terminal(self) -> bool {
        self == MessageType::DIDone || self == MessageType::DIUNDone || self
            == MessageType::TO2Done2
    }
}

/// The wire code determines the type: no two message types share a code, so
/// codes routed over a shared transport never collide across phases.
pub proof fn lemma_codes_unique(t1: MessageType, t2: MessageType)
    ensures
        t1.spec_code() == t2.spec_code() ==> t1 == t2,
{
    assert(MessageType::spec_from_code(t1.spec_code()) == Some(t1));
    assert(MessageType::spec_from_code(t2.spec_code()) == Some(t2));
}

/// The ordering table never crosses phases: a legal predecessor always
/// belongs to the same phase as its successor, so each message type has its
/// position in exactly one phase's handshake.
pub proof fn lemma_predecessor_same_phase(t: MessageType, p: MessageType)
    ensures
        t.spec_valid_previous(Some(p)) ==> p.spec_phase() == t.spec_phase(),
{
}

/// Each phase strictly alternates sides: a legal predecessor was always
/// produced by the other side of the connection.
pub proof fn lemma_predecessor_alternates(t: MessageType, p: MessageType)
    ensures
        t.spec_valid_previous(Some(p)) ==> p.spec_sender() != t.spec_sender(),
{
}

/// A terminal message ends its phase: it is a legal predecessor of nothing,
/// so once it is recorded the session accepts no further message.
pub proof fn lemma_terminal_accepts_nothing(t: MessageType, p: MessageType)
    ensures
        p.spec_is_terminal() ==> !t.spec_valid_previous(Some(p)),
{
}

/// Only the first message of each phase is acceptable on a fresh session.
pub proof fn lemma_fresh_session_first_message(t: MessageType)
    ensures
        t.spec_valid_previous(None) <==> (t == MessageType::DIAppStart || t
            == MessageType::DIUNConnect || t == MessageType::TO2HelloDevice),
{
}

} // verus!
