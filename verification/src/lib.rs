//! Transport- and session-agnostic Cyphal (UAVCAN v1) frame engine.
//!
//! The crate parses inbound link-layer frames into protocol-level transfers,
//! segments outbound payloads into link-layer frames, and keeps the
//! per-transfer state that bridges the two halves. Payloads are opaque bytes;
//! DSDL serialisation, link drivers and application-level services live
//! outside this crate.

pub mod node;
pub mod transfer;
pub mod transport;
pub mod types;

pub use node::{Node, TransmissionType};
pub use transfer::TransferKind;

use vstd::prelude::*;

use crate::types::{Duration, PortId};

verus! {

/// Protocol errors possible from receiving incoming frames.
#[derive(Copy, Clone, Debug, PartialEq, Eq, Structural)]
pub enum RxError {
    /// The start-of-transfer frame must have its toggle bit set
    TransferStartMissingToggle,
    /// Anonymous transfers must only use a single frame
    AnonNotSingleFrame,
    /// Frames that are not last cannot have less than the maximum MTU
    NonLastUnderUtilization,
    /// No type of frame can contain empty data, must always have at least a tail byte
    FrameEmpty,
    /// Id field is formatted incorrectly
    InvalidCanId,
    /// Non-start frame received without session
    NewSessionNoStart,
    /// Session has expired
    Timeout,
    /// Toggle bit did not alternate between consecutive frames
    InvalidFrameOrdering,
    /// Transfer payload checksum mismatch
    CrcError,
    /// Transfer payload malformed
    InvalidPayload,
    /// Transport implementation has incorrectly assigned a remote node id to a message
    MessageWithRemoteId,
}

/// Errors that can be caused by incorrect parameters for transmission.
#[derive(Copy, Clone, Debug, PartialEq, Eq, Structural)]
pub enum TxError {
    /// A multi-frame message cannot be sent from an anonymous node
    AnonNotSingleFrame,
    /// A service transfer needs a local node identifier
    ServiceNoSourceID,
    /// A service transfer needs a destination node identifier
    ServiceNoDestinationID,
}

/// Protocol-level priorities, ordered highest (`Exceptional`) to lowest
/// (`Optional`); encoded in three bits on the wire.
#[derive(Copy, Clone, Debug, PartialEq, Eq, Structural, Hash)]
pub enum Priority {
    Exceptional,
    Immediate,
    Fast,
    High,
    Nominal,
    Low,
    Slow,
    Optional,
}

impl Priority {
    /// The three-bit wire encoding of this priority level.
    pub open spec fn bits(self) -> u8 {
        match self {
            Priority::Exceptional => 0,
            Priority::Immediate => 1,
            Priority::Fast => 2,
            Priority::High => 3,
            Priority::Nominal => 4,
            Priority::Low => 5,
            Priority::Slow => 6,
            Priority::Optional => 7,
        }
    }

    /// The priority level a three-bit wire value decodes to.
    pub open spec fn from_bits(v: u8) -> Priority {
        if v == 0 {
            Priority::Exceptional
        } else if v == 1 {
            Priority::Immediate
        } else if v == 2 {
            Priority::Fast
        } else if v == 3 {
            Priority::High
        } else if v == 4 {
            Priority::Nominal
        } else if v == 5 {
            Priority::Low
        } else if v == 6 {
            Priority::Slow
        } else {
            Priority::Optional
        }
    }

    pub fn as_u8(self) -> (r: u8)
        ensures
            r == self.bits(),
    {
        match self {
            Priority::Exceptional => 0,
            Priority::Immediate => 1,
            Priority::Fast => 2,
            Priority::High => 3,
            Priority::Nominal => 4,
            Priority::Low => 5,
            Priority::Slow => 6,
            Priority::Optional => 7,
        }
    }

    pub fn from_u8(v: u8) -> (r: Option<Priority>)
        ensures
            r is Some <==> v < 8,
            v < 8 ==> r == Some(Priority::from_bits(v)),
    {
        match v {
            0 => Some(Priority::Exceptional),
            1 => Some(Priority::Immediate),
            2 => Some(Priority::Fast),
            3 => Some(Priority::High),
            4 => Some(Priority::Nominal),
            5 => Some(Priority::Low),
            6 => Some(Priority::Slow),
            7 => Some(Priority::Optional),
            _ => None,
        }
    }

    /// Decoding inverts encoding: every priority level survives the wire.
    pub proof fn lemma_bits_round_trip(self)
        ensures
            Priority::from_bits(self.bits()) == self,
    {
    }
}

/// A subscription: the description of one port a consumer cares about.
/// The node dispatcher exposes a hook where a subscription policy can be
/// consulted before reception state is allocated; the policy itself is a
/// host concern and lives outside this crate.
#[derive(Copy, Clone, Debug)]
pub struct Subscription {
    pub transfer_kind: TransferKind,
    pub port_id: PortId,
    /// Largest payload the subscriber is prepared to accept.
    pub extent: usize,
    /// How long an in-progress transfer on this port may stay idle.
    pub timeout: Duration,
}

impl Subscription {
    pub fn new(transfer_kind: TransferKind, port_id: PortId, extent: usize, timeout: Duration) -> (
        r: Self)
        ensures
            r.transfer_kind == transfer_kind,
            r.port_id == port_id,
            r.extent == extent,
            r.timeout == timeout,
    {
        Self { transfer_kind, port_id, extent, timeout }
    }
}

/// Subscriptions compare by what they subscribe to: the kind and the port.
impl PartialEq for Subscription {
    fn eq(&self, other: &Self) -> (r: bool) {
        self.transfer_kind == other.transfer_kind && self.port_id == other.port_id
    }
}

impl vstd::std_specs::cmp::PartialEqSpecImpl for Subscription {
    open spec fn obeys_eq_spec() -> bool {
        true
    }

    open spec fn eq_spec(&self, other: &Subscription) -> bool {
        self.transfer_kind == other.transfer_kind && self.port_id == other.port_id
    }
}

} // verus!
