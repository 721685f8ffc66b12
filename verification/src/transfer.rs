//! Transfer-level data: metadata identifying a transfer, the protocol-level
//! frame handed between codec and manager, and the transfer fingerprint that
//! keys the manager's stores.

pub mod manager;
pub mod map_manager;

use vstd::prelude::*;

use crate::Priority;
use crate::types::{
    NodeId, PortId, Timestamp, TransferId, opt_node_id_valid, transfer_id_valid,
};

verus! {

/// Protocol-level transfer types. Messages are broadcast; requests and
/// responses are point-to-point.
#[derive(Copy, Clone, Debug, PartialEq, Eq, Structural, Hash)]
pub enum TransferKind {
    Message,
    Response,
    Request,
}

/// Metadata describing a transfer. This metadata is transport-agnostic.
///
/// The identity of a transfer is every field but `timestamp`: deduplication
/// and token lookup go through [`fingerprint`], which ignores the timestamp.
#[derive(Copy, Clone, Debug)]
pub struct TransferMetadata {
    pub timestamp: Timestamp,
    pub priority: Priority,
    pub transfer_kind: TransferKind,
    pub port_id: PortId,
    /// Originating node; `None` when the sender is anonymous.
    pub source_node_id: Option<NodeId>,
    /// Addressed node; always `None` for messages.
    pub destination_node_id: Option<NodeId>,
    pub transfer_id: TransferId,
}

/// Session-related errors, caused by reception errors.
#[derive(Copy, Clone, Debug, PartialEq, Eq, Structural)]
pub enum TransferError {
    OutOfSpace,
    Timeout,
    NewSessionNoStart,
    InvalidTransferId,
    BadMetadata,
}

/// One link-layer frame after tail-byte extraction: transfer metadata, up to
/// MTU-1 payload bytes, and the start/end markers from the tail byte.
#[derive(Clone, Debug)]
pub struct Frame {
    pub metadata: TransferMetadata,
    pub payload: Vec<u8>,
    pub first_frame: bool,
    pub last_frame: bool,
}

/// The fields of the metadata are in the ranges the wire can carry.
pub open spec fn metadata_wf(m: TransferMetadata) -> bool {
    &&& opt_node_id_valid(m.source_node_id)
    &&& opt_node_id_valid(m.destination_node_id)
    &&& transfer_id_valid(m.transfer_id)
    &&& match m.transfer_kind {
        TransferKind::Message => m.port_id <= 0x1FFF,
        TransferKind::Request | TransferKind::Response => m.port_id <= 0x1FF,
    }
}

/// Two metadata records name the same transfer: every field agrees except
/// possibly the timestamp.
pub open spec fn same_identity(a: TransferMetadata, b: TransferMetadata) -> bool {
    &&& a.priority == b.priority
    &&& a.transfer_kind == b.transfer_kind
    &&& a.port_id == b.port_id
    &&& a.source_node_id == b.source_node_id
    &&& a.destination_node_id == b.destination_node_id
    &&& a.transfer_id == b.transfer_id
}

/// Two-bit encoding of the transfer kind inside the fingerprint.
pub open spec fn kind_bits(k: TransferKind) -> u64 {
    match k {
        TransferKind::Message => 0,
        TransferKind::Response => 1,
        TransferKind::Request => 2,
    }
}

/// Eight-bit encoding of an optional node identifier inside the fingerprint:
/// bit 7 marks presence, so `None` and every valid `Some(_)` stay apart.
pub open spec fn opt_node_bits(o: Option<NodeId>) -> u64 {
    match o {
        None => 0u64,
        Some(n) => (128 + n as u64) as u64,
    }
}

/// The 42-bit fingerprint of a transfer's identity: priority, kind, port,
/// source, destination and transfer id packed into disjoint bit fields.
/// The timestamp is deliberately left out.
pub open spec fn fingerprint_spec(m: TransferMetadata) -> u64 {
    ((m.priority.bits() as u64) << 39) | (kind_bits(m.transfer_kind) << 37)
        | ((m.port_id as u64) << 21) | (opt_node_bits(m.source_node_id) << 13)
        | (opt_node_bits(m.destination_node_id) << 5) | (m.transfer_id as u64)
}

/// Computes the stable key under which the transfer manager stores a
/// transfer. Unlike a hash, the packing is injective on well-formed
/// metadata, so distinct transfers can never collide.
pub fn fingerprint(m: &TransferMetadata) -> (r: u64)
    ensures
        r == fingerprint_spec(*m),
{
    let pri: u64 = m.priority.as_u8() as u64;
    let kind: u64 = match m.transfer_kind {
        TransferKind::Message => 0,
        TransferKind::Response => 1,
        TransferKind::Request => 2,
    };
    let src: u64 = match m.source_node_id {
        None => 0u64,
        Some(n) => 128 + n as u64,
    };
    let dst: u64 = match m.destination_node_id {
        None => 0u64,
        Some(n) => 128 + n as u64,
    };
    (pri << 39) | (kind << 37) | ((m.port_id as u64) << 21) | (src << 13) | (dst << 5)
        | (m.transfer_id as u64)
}

/// Deduplication, first half: the fingerprint never looks at the timestamp,
/// so two metadata records that differ only there get the same key.
pub proof fn lemma_fingerprint_ignores_timestamp(a: TransferMetadata, b: TransferMetadata)
    requires
        same_identity(a, b),
    ensures
        fingerprint_spec(a) == fingerprint_spec(b),
{
}

/// Deduplication, second half: on well-formed metadata the fingerprint is
/// injective, so transfers with equal keys name the same transfer.
pub proof fn lemma_fingerprint_injective(a: TransferMetadata, b: TransferMetadata)
    requires
        metadata_wf(a),
        metadata_wf(b),
        fingerprint_spec(a) == fingerprint_spec(b),
    ensures
        same_identity(a, b),
{
    let pa = a.priority.bits() as u64;
    let ka = kind_bits(a.transfer_kind);
    let oa = a.port_id as u64;
    let sa = opt_node_bits(a.source_node_id);
    let da = opt_node_bits(a.destination_node_id);
    let ta = a.transfer_id as u64;
    let pb = b.priority.bits() as u64;
    let kb = kind_bits(b.transfer_kind);
    let ob = b.port_id as u64;
    let sb = opt_node_bits(b.source_node_id);
    let db = opt_node_bits(b.destination_node_id);
    let tb = b.transfer_id as u64;
    assert(pa < 8 && pb < 8);
    assert(ka < 4 && kb < 4);
    assert(sa < 256 && sb < 256 && da < 256 && db < 256);
    assert((pa << 39) | (ka << 37) | (oa << 21) | (sa << 13) | (da << 5) | ta == (pb << 39) | (
    kb << 37) | (ob << 21) | (sb << 13) | (db << 5) | tb ==> pa == pb && ka == kb && oa == ob && sa
        == sb && da == db && ta == tb) by (bit_vector)
        requires
            pa < 8,
            pb < 8,
            ka < 4,
            kb < 4,
            oa < 0x10000,
            ob < 0x10000,
            sa < 256,
            sb < 256,
            da < 256,
            db < 256,
            ta < 32,
            tb < 32,
    ;
    a.priority.lemma_bits_round_trip();
    b.priority.lemma_bits_round_trip();
}

} // verus!
