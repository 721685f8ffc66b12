//! Cyphal/CAN transport codec for classic CAN 2.0B.
//!
//! One link-layer frame is a 29-bit extended identifier plus at most eight
//! payload bytes, the last of which is always the tail byte. The codec is
//! stateless; all per-transfer state lives in [`RxMetadata`] / [`TxMetadata`]
//! owned by the transfer manager.

use vstd::prelude::*;

use crate::transfer::{Frame, TransferKind, TransferMetadata, metadata_wf};
use crate::types::{NodeId, Timestamp, opt_node_id_valid};
use crate::{Priority, RxError, TxError};

verus! {

/// Maximum payload bytes per link-layer frame, tail byte included.
pub const MTU_SIZE: usize = 8;

/// Bytes of transfer CRC appended to a multi-frame transfer's payload.
pub const CRC_SIZE: usize = 2;

#[verifier::external_type_specification]
#[verifier::external_body]
pub struct ExCRCu16(crc_any::CRCu16);

/// The CRC-16/CCITT-FALSE checksum of a byte sequence, the function
/// `crc_any`'s `CRCu16` accumulator computes.
pub uninterp spec fn crc16_of(data: Seq<u8>) -> u16;

/// Relies on crc_any's `CRCu16::crc16ccitt_false`, `digest` and `get_crc`:
/// together they compute one CRC-16/CCITT-FALSE checksum, a function of the
/// digested bytes alone.
#[verifier::external_body]
pub(crate) fn crc16_compute(data: &[u8]) -> (r: u16)
    ensures
        r == crc16_of(data@),
{
    let mut crc = crc_any::CRCu16::crc16ccitt_false();
    crc.digest(data);
    crc.get_crc()
}

/// Relies on `CRCu16::crc16ccitt_false` to create a fresh accumulator.
#[verifier::external_body]
fn crc16_new() -> (r: crc_any::CRCu16) {
    crc_any::CRCu16::crc16ccitt_false()
}

/// Relies on `CRCu16::digest` to absorb bytes into a rolling accumulator.
#[verifier::external_body]
fn crc16_digest(crc: &mut crc_any::CRCu16, data: &[u8]) {
    crc.digest(data);
}

#[verifier::external_type_specification]
#[verifier::external_body]
#[verifier::reject_recursive_types(T)]
pub struct ExArrayVec<T, const CAP: usize>(arrayvec::ArrayVec<T, CAP>);

/// Relies on arrayvec's derived `Clone`; nothing is assumed of the copy.
pub assume_specification<T, const CAP: usize>[ <arrayvec::ArrayVec<T, CAP> as core::clone::Clone>::clone ](
    v: &arrayvec::ArrayVec<T, CAP>,
) -> arrayvec::ArrayVec<T, CAP>
    where
        T: core::clone::Clone,
;

/// The bytes a CAN frame's fixed-capacity payload buffer holds, in order.
pub uninterp spec fn av_bytes(v: arrayvec::ArrayVec<u8, 8>) -> Seq<u8>;

/// Relies on arrayvec's `ArrayVec::try_from` for slices: it copies the bytes
/// and fails only when the slice exceeds the capacity of eight.
#[verifier::external_body]
fn av_from_slice(data: &[u8]) -> (r: arrayvec::ArrayVec<u8, 8>)
    requires
        data@.len() <= 8,
    ensures
        av_bytes(r) == data@,
{
    arrayvec::ArrayVec::try_from(data).unwrap()
}

/// Relies on arrayvec's `ArrayVec::push`: it appends one element and panics
/// only when the buffer is already full.
#[verifier::external_body]
fn av_push(v: &mut arrayvec::ArrayVec<u8, 8>, b: u8)
    requires
        av_bytes(*old(v)).len() < 8,
    ensures
        av_bytes(*final(v)) == av_bytes(*old(v)).push(b),
{
    v.push(b);
}

/// Relies on arrayvec's `ArrayVec::as_slice`: it exposes exactly the stored
/// bytes.
#[verifier::external_body]
fn av_as_slice(v: &arrayvec::ArrayVec<u8, 8>) -> (r: &[u8])
    ensures
        r@ == av_bytes(*v),
{
    v.as_slice()
}

/// Unit struct naming the classic CAN transport; the codec functions hang
/// off it.
#[derive(Copy, Clone, Debug)]
pub struct Can;

/// What a single inbound frame contributes to transport-level transfer
/// state: on CAN, only its toggle bit.
#[derive(Copy, Clone, Debug)]
pub struct FrameMetadata {
    pub toggle_bit: bool,
}

/// Per-transfer transmission state: whether the next frame is the first of
/// the transfer, and the toggle bit it must carry.
#[derive(Copy, Clone, Debug)]
pub struct TxMetadata {
    pub first_frame: bool,
    pub toggle_bit: bool,
}

impl Default for TxMetadata {
    /// A fresh transfer starts with its first frame, whose toggle must be
    /// set per the start-of-transfer invariant.
    fn default() -> (r: Self)
        ensures
            r.first_frame == true,
            r.toggle_bit == true,
    {
        Self { first_frame: true, toggle_bit: true }
    }
}

/// Per-transfer reception state: a rolling CRC-16/CCITT-FALSE accumulator
/// fed with every accepted frame's payload, and the toggle bit of the last
/// accepted frame.
pub struct RxMetadata {
    pub crc: crc_any::CRCu16,
    pub toggle_bit: bool,
}

impl Default for RxMetadata {
    /// The stored toggle starts inverted, so the first frame's mandatory
    /// `true` toggle is accepted by the alternation check.
    fn default() -> (r: Self)
        ensures
            r.toggle_bit == false,
    {
        Self { crc: crc16_new(), toggle_bit: false }
    }
}

// --- tail byte ---

/// Start-of-transfer marker: bit 7 of the tail byte.
pub open spec fn tail_start(t: u8) -> bool {
    t & 0x80 != 0
}

/// End-of-transfer marker: bit 6 of the tail byte.
pub open spec fn tail_end(t: u8) -> bool {
    t & 0x40 != 0
}

/// Toggle bit: bit 5 of the tail byte.
pub open spec fn tail_toggle(t: u8) -> bool {
    t & 0x20 != 0
}

/// Transfer id: the low five bits of the tail byte.
pub open spec fn tail_transfer_id(t: u8) -> u8 {
    t & 0x1F
}

/// The tail byte encoding the given markers, toggle and transfer id.
pub open spec fn tail_byte(sot: bool, eot: bool, toggle: bool, tid: u8) -> u8 {
    ((if sot {
        0x80u8
    } else {
        0u8
    }) | (if eot {
        0x40u8
    } else {
        0u8
    }) | (if toggle {
        0x20u8
    } else {
        0u8
    }) | (tid & 0x1F)) as u8
}

/// Builds a tail byte.
pub fn make_tail_byte(sot: bool, eot: bool, toggle: bool, tid: u8) -> (r: u8)
    ensures
        r == tail_byte(sot, eot, toggle, tid),
{
    (if sot {
        0x80u8
    } else {
        0u8
    }) | (if eot {
        0x40u8
    } else {
        0u8
    }) | (if toggle {
        0x20u8
    } else {
        0u8
    }) | (tid & 0x1F)
}

/// Tail-byte fields decode to exactly what was encoded.
pub proof fn lemma_tail_byte_fields(sot: bool, eot: bool, toggle: bool, tid: u8)
    requires
        tid < 32,
    ensures
        tail_start(tail_byte(sot, eot, toggle, tid)) == sot,
        tail_end(tail_byte(sot, eot, toggle, tid)) == eot,
        tail_toggle(tail_byte(sot, eot, toggle, tid)) == toggle,
        tail_transfer_id(tail_byte(sot, eot, toggle, tid)) == tid,
{
    let s: u8 = if sot {
        0x80u8
    } else {
        0u8
    };
    let e: u8 = if eot {
        0x40u8
    } else {
        0u8
    };
    let g: u8 = if toggle {
        0x20u8
    } else {
        0u8
    };
    assert((s == 0x80 || s == 0) && (e == 0x40 || e == 0) && (g == 0x20 || g == 0) && tid < 32
        ==> ((s | e | g | (tid & 0x1F)) & 0x80 == s) && ((s | e | g | (tid & 0x1F)) & 0x40 == e)
        && ((s | e | g | (tid & 0x1F)) & 0x20 == g) && ((s | e | g | (tid & 0x1F)) & 0x1F
        == tid)) by (bit_vector);
}

// --- 29-bit CAN identifier layout ---

/// The three priority bits, common to both address spaces.
pub open spec fn id_priority_bits(id: u32) -> u8 {
    ((id >> 26) & 0x7) as u8
}

/// Bit 25: service frame when set, message frame when clear.
pub open spec fn id_is_service(id: u32) -> bool {
    id & 0x0200_0000 != 0
}

/// Message frames, bit 24: the sender is anonymous.
pub open spec fn msg_anonymous(id: u32) -> bool {
    id & 0x0100_0000 != 0
}

/// Message frames: the 13-bit subject id.
pub open spec fn msg_subject_id(id: u32) -> u16 {
    ((id >> 8) & 0x1FFF) as u16
}

/// Message frames: the 7-bit source node id.
pub open spec fn msg_source_id(id: u32) -> u8 {
    (id & 0x7F) as u8
}

/// Message frames are valid when the reserved bits 23 and 7 are clear.
pub open spec fn msg_valid(id: u32) -> bool {
    id & 0x0080_0080 == 0
}

/// Service frames, bit 24: request when set, response when clear.
pub open spec fn svc_is_request(id: u32) -> bool {
    id & 0x0100_0000 != 0
}

/// Service frames: the 9-bit service id.
pub open spec fn svc_service_id(id: u32) -> u16 {
    ((id >> 14) & 0x1FF) as u16
}

/// Service frames: the 7-bit destination node id.
pub open spec fn svc_destination_id(id: u32) -> u8 {
    ((id >> 7) & 0x7F) as u8
}

/// Service frames: the 7-bit source node id.
pub open spec fn svc_source_id(id: u32) -> u8 {
    (id & 0x7F) as u8
}

/// Service frames are valid when the reserved bit 23 is clear.
pub open spec fn svc_valid(id: u32) -> bool {
    id & 0x0080_0000 == 0
}

/// The identifier of a message frame: priority, the anonymous flag, the
/// subject id (its two reserved upper neighbours, bits 21 and 22, are set on
/// transmission and ignored on reception) and the source node id.
pub open spec fn message_id(pri: u8, anon: bool, subject: u16, source: u8) -> u32 {
    (((pri as u32) << 26) | (if anon {
        0x0100_0000u32
    } else {
        0u32
    }) | 0x0060_0000u32 | ((subject as u32) << 8) | (source as u32)) as u32
}

/// The identifier of a service frame: priority, the request flag, service
/// id, destination and source node ids.
pub open spec fn service_id_bits(pri: u8, request: bool, service: u16, dest: u8, source: u8) -> u32 {
    (((pri as u32) << 26) | 0x0200_0000u32 | (if request {
        0x0100_0000u32
    } else {
        0u32
    }) | ((service as u32) << 14) | ((dest as u32) << 7) | (source as u32)) as u32
}

/// Builds a message-frame identifier.
pub fn make_message_id(pri: u8, anon: bool, subject: u16, source: u8) -> (r: u32)
    ensures
        r == message_id(pri, anon, subject, source),
{
    ((pri as u32) << 26) | (if anon {
        0x0100_0000u32
    } else {
        0u32
    }) | 0x0060_0000u32 | ((subject as u32) << 8) | (source as u32)
}

/// Builds a service-frame identifier.
pub fn make_service_id(pri: u8, request: bool, service: u16, dest: u8, source: u8) -> (r: u32)
    ensures
        r == service_id_bits(pri, request, service, dest, source),
{
    ((pri as u32) << 26) | 0x0200_0000u32 | (if request {
        0x0100_0000u32
    } else {
        0u32
    }) | ((service as u32) << 14) | ((dest as u32) << 7) | (source as u32)
}

/// A message identifier decodes to exactly what was encoded, is classified
/// as a valid message frame, and fits in 29 bits.
pub proof fn lemma_message_id_fields(pri: u8, anon: bool, subject: u16, source: u8)
    requires
        pri < 8,
        subject <= 0x1FFF,
        source < 128,
    ensures
        id_priority_bits(message_id(pri, anon, subject, source)) == pri,
        !id_is_service(message_id(pri, anon, subject, source)),
        msg_anonymous(message_id(pri, anon, subject, source)) == anon,
        msg_subject_id(message_id(pri, anon, subject, source)) == subject,
        msg_source_id(message_id(pri, anon, subject, source)) == source,
        msg_valid(message_id(pri, anon, subject, source)),
        message_id(pri, anon, subject, source) < 0x2000_0000,
{
    let a: u32 = if anon {
        0x0100_0000u32
    } else {
        0u32
    };
    let id = message_id(pri, anon, subject, source);
    assert((a == 0x0100_0000 || a == 0) && pri < 8 && subject <= 0x1FFF && source < 128 ==> {
        let id = ((pri as u32) << 26) | a | 0x0060_0000u32 | ((subject as u32) << 8) | (
        source as u32);
        &&& ((id >> 26) & 0x7) as u8 == pri
        &&& id & 0x0200_0000 == 0
        &&& (id & 0x0100_0000 != 0) == (a != 0)
        &&& ((id >> 8) & 0x1FFF) as u16 == subject
        &&& (id & 0x7F) as u8 == source
        &&& id & 0x0080_0080 == 0
        &&& id < 0x2000_0000
    }) by (bit_vector);
}

/// A service identifier decodes to exactly what was encoded, is classified
/// as a valid service frame, and fits in 29 bits.
pub proof fn lemma_service_id_fields(pri: u8, request: bool, service: u16, dest: u8, source: u8)
    requires
        pri < 8,
        service <= 0x1FF,
        dest < 128,
        source < 128,
    ensures
        id_priority_bits(service_id_bits(pri, request, service, dest, source)) == pri,
        id_is_service(service_id_bits(pri, request, service, dest, source)),
        svc_is_request(service_id_bits(pri, request, service, dest, source)) == request,
        svc_service_id(service_id_bits(pri, request, service, dest, source)) == service,
        svc_destination_id(service_id_bits(pri, request, service, dest, source)) == dest,
        svc_source_id(service_id_bits(pri, request, service, dest, source)) == source,
        svc_valid(service_id_bits(pri, request, service, dest, source)),
        service_id_bits(pri, request, service, dest, source) < 0x2000_0000,
{
    let q: u32 = if request {
        0x0100_0000u32
    } else {
        0u32
    };
    assert((q == 0x0100_0000 || q == 0) && pri < 8 && service <= 0x1FF && dest < 128 && source
        < 128 ==> {
        let id = ((pri as u32) << 26) | 0x0200_0000u32 | q | ((service as u32) << 14) | ((
        dest as u32) << 7) | (source as u32);
        &&& ((id >> 26) & 0x7) as u8 == pri
        &&& id & 0x0200_0000 != 0
        &&& (id & 0x0100_0000 != 0) == (q != 0)
        &&& ((id >> 14) & 0x1FF) as u16 == service
        &&& ((id >> 7) & 0x7F) as u8 == dest
        &&& (id & 0x7F) as u8 == source
        &&& id & 0x0080_0000 == 0
        &&& id < 0x2000_0000
    }) by (bit_vector);
}

// --- link-layer frame ---

/// Extended-identifier CAN frame, the only kind Cyphal/CAN uses.
#[derive(Clone, Debug)]
pub struct CanFrame {
    pub timestamp: Timestamp,
    /// 29-bit extended identifier.
    pub id: u32,
    pub payload: arrayvec::ArrayVec<u8, 8>,
}

/// The identifier fits in 29 bits and the payload in one CAN frame.
pub open spec fn can_frame_wf(f: CanFrame) -> bool {
    f.id < 0x2000_0000 && av_bytes(f.payload).len() <= 8
}

impl CanFrame {
    /// Builds a link-layer frame from a 29-bit identifier and at most eight
    /// payload bytes.
    pub fn new(timestamp: Timestamp, id: u32, data: &[u8]) -> (r: Self)
        requires
            id < 0x2000_0000,
            data@.len() <= 8,
        ensures
            r.timestamp == timestamp,
            r.id == id,
            av_bytes(r.payload) == data@,
            can_frame_wf(r),
    {
        Self { timestamp, id, payload: av_from_slice(data) }
    }

    /// The payload bytes, tail byte included.
    pub fn payload_slice(&self) -> (r: &[u8])
        ensures
            r@ == av_bytes(self.payload),
    {
        av_as_slice(&self.payload)
    }
}

// --- reception ---

/// Everything one valid inbound frame says, at the specification level:
/// the transfer identity from the identifier and tail byte, the user
/// payload with the tail stripped, and the framing markers.
pub struct RxOutcome {
    pub priority: Priority,
    pub transfer_kind: TransferKind,
    pub port_id: u16,
    pub source_node_id: Option<u8>,
    pub destination_node_id: Option<u8>,
    pub transfer_id: u8,
    pub payload: Seq<u8>,
    pub first_frame: bool,
    pub last_frame: bool,
    pub toggle: bool,
}

/// Full functional specification of inbound frame validation: which frames
/// are rejected, with which error, and what a valid frame decodes to.
/// Checks run in this order: emptiness, the tail-byte framing rules, then
/// the identifier's own address space.
pub open spec fn rx_classify(id: u32, p: Seq<u8>) -> Result<RxOutcome, RxError> {
    if p.len() == 0 {
        Err(RxError::FrameEmpty)
    } else {
        let tail = p.last();
        if tail_start(tail) && !tail_toggle(tail) {
            Err(RxError::TransferStartMissingToggle)
        } else if !tail_end(tail) && p.len() < 8 {
            Err(RxError::NonLastUnderUtilization)
        } else if id_is_service(id) {
            if !svc_valid(id) {
                Err(RxError::InvalidCanId)
            } else {
                Ok(
                    RxOutcome {
                        priority: Priority::from_bits(id_priority_bits(id)),
                        transfer_kind: if svc_is_request(id) {
                            TransferKind::Request
                        } else {
                            TransferKind::Response
                        },
                        port_id: svc_service_id(id),
                        source_node_id: Some(svc_source_id(id)),
                        destination_node_id: Some(svc_destination_id(id)),
                        transfer_id: tail_transfer_id(tail),
                        payload: p.take(p.len() - 1),
                        first_frame: tail_start(tail),
                        last_frame: tail_end(tail),
                        toggle: tail_toggle(tail),
                    },
                )
            }
        } else {
            if msg_anonymous(id) && !(tail_start(tail) && tail_end(tail)) {
                Err(RxError::AnonNotSingleFrame)
            } else if !msg_valid(id) {
                Err(RxError::InvalidCanId)
            } else {
                Ok(
                    RxOutcome {
                        priority: Priority::from_bits(id_priority_bits(id)),
                        transfer_kind: TransferKind::Message,
                        port_id: msg_subject_id(id),
                        source_node_id: if msg_anonymous(id) {
                            None
                        } else {
                            Some(msg_source_id(id))
                        },
                        destination_node_id: None,
                        transfer_id: tail_transfer_id(tail),
                        payload: p.take(p.len() - 1),
                        first_frame: tail_start(tail),
                        last_frame: tail_end(tail),
                        toggle: tail_toggle(tail),
                    },
                )
            }
        }
    }
}

/// The transfer metadata a parsed frame carries, stamped with the time the
/// link layer saw the frame.
pub open spec fn outcome_metadata(o: RxOutcome, ts: Timestamp) -> TransferMetadata {
    TransferMetadata {
        timestamp: ts,
        priority: o.priority,
        transfer_kind: o.transfer_kind,
        port_id: o.port_id,
        source_node_id: o.source_node_id,
        destination_node_id: o.destination_node_id,
        transfer_id: o.transfer_id,
    }
}

/// Whatever a frame decodes to is well-formed: every extracted field fits
/// the ranges [`metadata_wf`] demands.
pub proof fn lemma_rx_outcome_wf(id: u32, p: Seq<u8>, ts: Timestamp)
    requires
        rx_classify(id, p) is Ok,
    ensures
        metadata_wf(outcome_metadata(rx_classify(id, p)->Ok_0, ts)),
{
    let tail = p.last();
    assert(tail & 0x1F < 32) by (bit_vector);
    assert((id & 0x7F) < 128) by (bit_vector);
    assert(((id >> 7) & 0x7F) < 128) by (bit_vector);
    assert(((id >> 14) & 0x1FF) <= 0x1FF) by (bit_vector);
    assert(((id >> 8) & 0x1FFF) <= 0x1FFF) by (bit_vector);
}

/// A decoded message never carries a destination: only the dispatcher's
/// addressing filter for service transfers ever has one to compare. A
/// transport handing a message with a destination up to the dispatcher is
/// faulty, which is what [`crate::RxError::MessageWithRemoteId`] reports.
pub proof fn lemma_message_has_no_destination(id: u32, p: Seq<u8>)
    ensures
        (rx_classify(id, p) matches Ok(o) && o.transfer_kind is Message) ==> rx_classify(
            id,
            p,
        )->Ok_0.destination_node_id is None,
{
}

// --- transmission ---

/// The error, if any, that transmitting the next frame of a transfer must
/// report: anonymous nodes cannot continue multi-frame messages, and
/// service transfers need both a source and a destination.
pub open spec fn tx_error_of(m: TransferMetadata, data_len: int, local: Option<NodeId>) -> Option<
    TxError,
> {
    match m.transfer_kind {
        TransferKind::Message => if data_len > 7 && local is None {
            Some(TxError::AnonNotSingleFrame)
        } else {
            None
        },
        TransferKind::Request | TransferKind::Response => if local is None {
            Some(TxError::ServiceNoSourceID)
        } else if m.destination_node_id is None {
            Some(TxError::ServiceNoDestinationID)
        } else {
            None
        },
    }
}

/// The identifier the codec puts on a frame of this transfer, given the
/// local node id. Anonymous messages carry the anonymous flag and source
/// zero; the receiver ignores the source of anonymous frames.
pub open spec fn tx_frame_id(m: TransferMetadata, local: Option<NodeId>) -> u32 {
    match m.transfer_kind {
        TransferKind::Message => message_id(
            m.priority.bits(),
            local is None,
            m.port_id,
            match local {
                Some(n) => n,
                None => 0,
            },
        ),
        TransferKind::Request => service_id_bits(
            m.priority.bits(),
            true,
            m.port_id,
            m.destination_node_id->0,
            local->0,
        ),
        TransferKind::Response => service_id_bits(
            m.priority.bits(),
            false,
            m.port_id,
            m.destination_node_id->0,
            local->0,
        ),
    }
}

/// How many bytes of the remaining data the next frame consumes: up to
/// seven, the last payload slot being the tail byte.
pub open spec fn tx_consumed(data_len: int) -> int {
    if data_len <= 7 {
        data_len
    } else {
        7
    }
}

/// The payload bytes of the next frame: the consumed data bytes followed by
/// the tail byte.
pub open spec fn tx_frame_bytes(data: Seq<u8>, first: bool, toggle: bool, tid: u8) -> Seq<u8> {
    data.take(tx_consumed(data.len() as int)) + seq![
        tail_byte(first, data.len() <= 7, toggle, tid),
    ]
}

impl Can {
    /// Buffer size needed to carry `requested_size` user bytes plus the
    /// transfer CRC: on CAN, two more bytes and no padding.
    pub fn get_crc_padded_size(requested_size: usize) -> (r: usize)
        requires
            requested_size + 2 <= usize::MAX,
        ensures
            r == requested_size + 2,
    {
        requested_size + 2
    }

    /// Folds one accepted frame into a transfer's reception state: rejects
    /// a toggle bit equal to the stored one (the alternation rule), then
    /// records the new toggle and digests the frame's payload into the
    /// rolling CRC.
    pub fn update_rx_metadata(
        transport_metadata: &mut RxMetadata,
        frame_metadata: FrameMetadata,
        frame: &Frame,
    ) -> (r: Result<(), RxError>)
        ensures
            r is Err <==> frame_metadata.toggle_bit == old(transport_metadata).toggle_bit,
            r is Err ==> r->Err_0 == RxError::InvalidFrameOrdering
                && *final(transport_metadata) == *old(transport_metadata),
            r is Ok ==> final(transport_metadata).toggle_bit == frame_metadata.toggle_bit,
    {
        if frame_metadata.toggle_bit == transport_metadata.toggle_bit {
            return Err(RxError::InvalidFrameOrdering);
        }
        transport_metadata.toggle_bit = frame_metadata.toggle_bit;
        crc16_digest(&mut transport_metadata.crc, frame.payload.as_slice());
        Ok(())
    }

    /// Writes the transfer CRC in place and returns the on-wire length.
    /// A payload that fits a single frame is returned unchanged: on CAN the
    /// CRC of single-frame transfers is not transmitted. Otherwise the CRC
    /// of the first `data_size` bytes lands at `data_size` (low byte) and
    /// `data_size + 1` (high byte).
    pub fn process_tx_crc(buffer: &mut Vec<u8>, data_size: usize) -> (r: usize)
        requires
            data_size + 2 <= old(buffer).len(),
        ensures
            final(buffer)@.len() == old(buffer)@.len(),
            r == wire_payload(old(buffer)@.take(data_size as int)).len(),
            final(buffer)@.take(r as int) == wire_payload(old(buffer)@.take(data_size as int)),
            data_size <= 7 ==> *final(buffer) == *old(buffer) && r == data_size,
    {
        if data_size <= 7 {
            assert(final(buffer)@.take(data_size as int) =~= wire_payload(
                old(buffer)@.take(data_size as int),
            ));
            return data_size;
        }
        let crc = crc16_compute(&buffer.as_slice()[0..data_size]);
        let lo = (crc & 0xFF) as u8;
        let hi = ((crc >> 8) & 0xFF) as u8;
        buffer[data_size] = lo;
        buffer[data_size + 1] = hi;
        assert(final(buffer)@.take(data_size + 2) =~= wire_payload(
            old(buffer)@.take(data_size as int),
        ));
        data_size + 2
    }
}

impl Can {
    /// Validates one inbound link-layer frame and decodes it into a
    /// protocol-level frame plus the transport metadata (the toggle bit)
    /// the manager needs, exactly as [`rx_classify`] describes. The tail
    /// byte is stripped from the payload. Per-transfer state (CRC, toggle
    /// alternation) is untouched; that is [`Can::update_rx_metadata`]'s job.
    pub fn rx_process_frame(frame: &CanFrame) -> (r: Result<(Frame, FrameMetadata), RxError>)
        ensures
            r is Ok <==> rx_classify(frame.id, av_bytes(frame.payload)) is Ok,
            r is Err ==> Result::<RxOutcome, RxError>::Err(r->Err_0) == rx_classify(
                frame.id,
                av_bytes(frame.payload),
            ),
            r is Ok ==> ({
                let o = rx_classify(frame.id, av_bytes(frame.payload))->Ok_0;
                let (f, fm) = r->Ok_0;
                &&& f.metadata == outcome_metadata(o, frame.timestamp)
                &&& f.payload@ == o.payload
                &&& f.first_frame == o.first_frame
                &&& f.last_frame == o.last_frame
                &&& fm.toggle_bit == o.toggle
                &&& metadata_wf(f.metadata)
            }),
    {
        proof {
            if rx_classify(frame.id, av_bytes(frame.payload)) is Ok {
                lemma_rx_outcome_wf(frame.id, av_bytes(frame.payload), frame.timestamp);
            }
        }
        let payload = av_as_slice(&frame.payload);
        let n = payload.len();

        // Frames cannot be empty: they must at least have a tail byte.
        if n == 0 {
            return Err(RxError::FrameEmpty);
        }
        let tail: u8 = payload[n - 1];
        assert(tail == av_bytes(frame.payload).last());
        let sot = tail & 0x80 != 0;
        let eot = tail & 0x40 != 0;
        let toggle = tail & 0x20 != 0;
        let tid = tail & 0x1F;

        // The protocol demands the start-of-transfer frame set its toggle.
        if sot && !toggle {
            return Err(RxError::TransferStartMissingToggle);
        }
        // Non-last frames must use the MTU fully.
        if !eot && n < MTU_SIZE {
            return Err(RxError::NonLastUnderUtilization);
        }
        let id = frame.id;
        proof {
            assert(((id >> 26) & 0x7) < 8) by (bit_vector);
        }
        let priority = match Priority::from_u8(((id >> 26) & 0x7) as u8) {
            Some(p) => p,
            None => {
                return Err(RxError::InvalidCanId);
            },
        };

        let mut user: Vec<u8> = Vec::new();
        user.extend_from_slice(&payload[0..n - 1]);
        assert(user@ == av_bytes(frame.payload).take(n - 1));
        let frame_metadata = FrameMetadata { toggle_bit: toggle };

        if (id & 0x0200_0000) != 0 {
            // Service frame: reserved bit 23 must be clear.
            if (id & 0x0080_0000) != 0 {
                return Err(RxError::InvalidCanId);
            }
            let transfer_kind = if (id & 0x0100_0000) != 0 {
                TransferKind::Request
            } else {
                TransferKind::Response
            };
            Ok(
                (
                    Frame {
                        metadata: TransferMetadata {
                            timestamp: frame.timestamp,
                            priority,
                            transfer_kind,
                            port_id: ((id >> 14) & 0x1FF) as u16,
                            source_node_id: Some((id & 0x7F) as u8),
                            destination_node_id: Some(((id >> 7) & 0x7F) as u8),
                            transfer_id: tid,
                        },
                        payload: user,
                        first_frame: sot,
                        last_frame: eot,
                    },
                    frame_metadata,
                ),
            )
        } else {
            // Message frame. Anonymous senders may only use single frames.
            let anon = (id & 0x0100_0000) != 0;
            if anon && !(sot && eot) {
                return Err(RxError::AnonNotSingleFrame);
            }
            // Reserved bits 23 and 7 must be clear.
            if (id & 0x0080_0080) != 0 {
                return Err(RxError::InvalidCanId);
            }
            Ok(
                (
                    Frame {
                        metadata: TransferMetadata {
                            timestamp: frame.timestamp,
                            priority,
                            transfer_kind: TransferKind::Message,
                            port_id: ((id >> 8) & 0x1FFF) as u16,
                            source_node_id: if anon {
                                None
                            } else {
                                Some((id & 0x7F) as u8)
                            },
                            destination_node_id: None,
                            transfer_id: tid,
                        },
                        payload: user,
                        first_frame: sot,
                        last_frame: eot,
                    },
                    frame_metadata,
                ),
            )
        }
    }

    /// Builds the next link-layer frame of a transfer: consumes up to seven
    /// bytes of `data`, appends the tail byte from the stored transmission
    /// state, and encodes the identifier for the transfer's kind. On
    /// success the stored state advances (first-frame flag cleared, toggle
    /// flipped); on a [`TxError`] it is left untouched.
    pub fn transmit_frame(
        transfer_metadata: &TransferMetadata,
        transport_metadata: &mut TxMetadata,
        data: &[u8],
        node_id: Option<NodeId>,
        timestamp: Timestamp,
    ) -> (r: Result<(CanFrame, usize), TxError>)
        requires
            metadata_wf(*transfer_metadata),
            opt_node_id_valid(node_id),
        ensures
            r is Err <==> tx_error_of(*transfer_metadata, data@.len() as int, node_id) is Some,
            r is Err ==> Some(r->Err_0) == tx_error_of(
                *transfer_metadata,
                data@.len() as int,
                node_id,
            ) && *final(transport_metadata) == *old(transport_metadata),
            r is Ok ==> ({
                let (frame, consumed) = r->Ok_0;
                &&& consumed == tx_consumed(data@.len() as int)
                &&& final(transport_metadata).first_frame == false
                &&& final(transport_metadata).toggle_bit == !old(transport_metadata).toggle_bit
                &&& frame.timestamp == timestamp
                &&& frame.id == tx_frame_id(*transfer_metadata, node_id)
                &&& av_bytes(frame.payload) == tx_frame_bytes(
                    data@,
                    old(transport_metadata).first_frame,
                    old(transport_metadata).toggle_bit,
                    transfer_metadata.transfer_id,
                )
                &&& can_frame_wf(frame)
            }),
    {
        // The transfer CRC is already inside `data`, appended when the TX
        // transfer was created.
        let first_frame = transport_metadata.first_frame;
        let last_frame = data.len() <= 7;
        let toggle_bit = transport_metadata.toggle_bit;

        // Build the CAN identifier from the transfer metadata.
        let frame_id: u32 = match transfer_metadata.transfer_kind {
            TransferKind::Message => {
                let (anon, source) = match node_id {
                    Some(n) => (false, n),
                    None => {
                        if !last_frame {
                            return Err(TxError::AnonNotSingleFrame);
                        }
                        (true, 0)
                    },
                };
                proof {
                    lemma_message_id_fields(
                        transfer_metadata.priority.bits(),
                        anon,
                        transfer_metadata.port_id,
                        source,
                    );
                }
                make_message_id(
                    transfer_metadata.priority.as_u8(),
                    anon,
                    transfer_metadata.port_id,
                    source,
                )
            },
            TransferKind::Request | TransferKind::Response => {
                let source = match node_id {
                    Some(n) => n,
                    None => {
                        return Err(TxError::ServiceNoSourceID);
                    },
                };
                let destination = match transfer_metadata.destination_node_id {
                    Some(n) => n,
                    None => {
                        return Err(TxError::ServiceNoDestinationID);
                    },
                };
                let request = match transfer_metadata.transfer_kind {
                    TransferKind::Request => true,
                    _ => false,
                };
                proof {
                    lemma_service_id_fields(
                        transfer_metadata.priority.bits(),
                        request,
                        transfer_metadata.port_id,
                        destination,
                        source,
                    );
                }
                make_service_id(
                    transfer_metadata.priority.as_u8(),
                    request,
                    transfer_metadata.port_id,
                    destination,
                    source,
                )
            },
        };

        // Advance the stored transmission state, now that no error can occur.
        transport_metadata.first_frame = false;
        transport_metadata.toggle_bit = !toggle_bit;

        // Build the tail byte and the frame payload.
        let tail = make_tail_byte(first_frame, last_frame, toggle_bit, transfer_metadata.transfer_id);
        let consume_len = if data.len() < 7 {
            data.len()
        } else {
            7
        };
        let mut payload = av_from_slice(&data[0..consume_len]);
        av_push(&mut payload, tail);
        assert(av_bytes(payload) =~= tx_frame_bytes(
            data@,
            first_frame,
            toggle_bit,
            transfer_metadata.transfer_id,
        ));
        Ok((CanFrame { timestamp, id: frame_id, payload }, consume_len))
    }
}

/// The on-wire payload of a transfer: the user data alone when it fits a
/// single frame, otherwise the user data followed by its CRC-16/CCITT-FALSE
/// checksum, low byte first.
pub open spec fn wire_payload(data: Seq<u8>) -> Seq<u8> {
    if data.len() <= 7 {
        data
    } else {
        data + seq![(crc16_of(data) & 0xFF) as u8, ((crc16_of(data) >> 8) & 0xFF) as u8]
    }
}

// --- laws ---

/// Tail-byte invariants. Each framing error is drawn exactly on its own
/// condition, the checks running in order: `FrameEmpty` on an empty
/// payload; `TransferStartMissingToggle` when start-of-transfer is set but
/// the toggle is clear; `NonLastUnderUtilization` when a non-last frame
/// leaves the MTU unfilled; `AnonNotSingleFrame` when an anonymous message
/// is not both first and last.
pub proof fn lemma_tail_byte_errors(id: u32, p: Seq<u8>)
    ensures
        rx_classify(id, p) == Result::<RxOutcome, RxError>::Err(RxError::FrameEmpty) <==> p.len()
            == 0,
        rx_classify(id, p) == Result::<RxOutcome, RxError>::Err(
            RxError::TransferStartMissingToggle,
        ) <==> (p.len() > 0 && tail_start(p.last()) && !tail_toggle(p.last())),
        rx_classify(id, p) == Result::<RxOutcome, RxError>::Err(RxError::NonLastUnderUtilization)
            <==> (p.len() > 0 && !(tail_start(p.last()) && !tail_toggle(p.last())) && !tail_end(
            p.last(),
        ) && p.len() < 8),
        rx_classify(id, p) == Result::<RxOutcome, RxError>::Err(RxError::AnonNotSingleFrame) <==> (
        p.len() > 0 && !(tail_start(p.last()) && !tail_toggle(p.last())) && (tail_end(p.last())
            || p.len() >= 8) && !id_is_service(id) && msg_anonymous(id) && !(tail_start(p.last())
            && tail_end(p.last()))),
{
}

/// Round trip, frame level: a frame built by the transmit side decodes on
/// the receive side to the same transfer identity, the same data bytes and
/// the same framing markers. The hypotheses are exactly what the transfer
/// manager maintains: well-formed metadata whose source is the local node,
/// a set toggle on the first frame, and an anonymous sender only on a
/// single-frame message.
pub proof fn lemma_frame_round_trip(
    m: TransferMetadata,
    local: Option<NodeId>,
    data: Seq<u8>,
    first: bool,
    toggle: bool,
    ts: Timestamp,
)
    requires
        metadata_wf(m),
        opt_node_id_valid(local),
        tx_error_of(m, data.len() as int, local) is None,
        m.source_node_id == local,
        m.transfer_kind is Message ==> m.destination_node_id is None,
        first ==> toggle,
        m.transfer_kind is Message && local is None ==> first && data.len() <= 7,
    ensures
        ({
            let r = rx_classify(tx_frame_id(m, local), tx_frame_bytes(data, first, toggle, m.transfer_id));
            &&& r is Ok
            &&& crate::transfer::same_identity(outcome_metadata(r->Ok_0, ts), m)
            &&& r->Ok_0.payload == data.take(tx_consumed(data.len() as int))
            &&& r->Ok_0.first_frame == first
            &&& r->Ok_0.last_frame == (data.len() <= 7)
            &&& r->Ok_0.toggle == toggle
        }),
{
    let p = tx_frame_bytes(data, first, toggle, m.transfer_id);
    let tail = tail_byte(first, data.len() <= 7, toggle, m.transfer_id);
    assert(p.last() == tail);
    lemma_tail_byte_fields(first, data.len() <= 7, toggle, m.transfer_id);
    assert(p.len() == tx_consumed(data.len() as int) + 1);
    assert(p.take(p.len() - 1) =~= data.take(tx_consumed(data.len() as int)));
    m.priority.lemma_bits_round_trip();
    match m.transfer_kind {
        TransferKind::Message => {
            let source = match local {
                Some(n) => n,
                None => 0,
            };
            lemma_message_id_fields(m.priority.bits(), local is None, m.port_id, source);
        },
        TransferKind::Request => {
            lemma_service_id_fields(
                m.priority.bits(),
                true,
                m.port_id,
                m.destination_node_id->0,
                local->0,
            );
        },
        TransferKind::Response => {
            lemma_service_id_fields(
                m.priority.bits(),
                false,
                m.port_id,
                m.destination_node_id->0,
                local->0,
            );
        },
    }
}

/// Round trip, payload level. A multi-frame wire payload is two bytes
/// longer than the user data; dropping those two bytes restores the data;
/// and the two bytes are the CRC-16/CCITT-FALSE of what remains, low byte
/// first — so the receiver's completion check accepts an unaltered
/// transfer. A single-frame payload travels unchanged, with no CRC.
pub proof fn lemma_wire_payload_round_trip(data: Seq<u8>)
    ensures
        data.len() <= 7 ==> wire_payload(data) == data,
        data.len() > 7 ==> ({
            let w = wire_payload(data);
            &&& w.len() == data.len() + 2
            &&& w.take(w.len() - 2) == data
            &&& w[w.len() - 2] == crc16_of(w.take(w.len() - 2)) & 0xFF
            &&& w[w.len() - 1] == (crc16_of(w.take(w.len() - 2)) >> 8) & 0xFF
        }),
{
    if data.len() > 7 {
        let w = wire_payload(data);
        assert(w.take(w.len() - 2) =~= data);
        let c = crc16_of(data);
        assert(c & 0xFF < 256 && (c >> 8) & 0xFF < 256) by (bit_vector);
        assert(w[w.len() - 2] == (c & 0xFF) as u8);
        assert(w[w.len() - 1] == ((c >> 8) & 0xFF) as u8);
    }
}

/// Monotonic cursor, spec level: the bytes already sent plus the bytes the
/// next frame consumes form the longer prefix of the wire payload — the
/// cursor only ever walks forward over `w`.
pub proof fn lemma_chunk_advance(w: Seq<u8>, c: int)
    requires
        0 <= c <= w.len(),
    ensures
        w.take(c) + w.skip(c).take(tx_consumed(w.len() - c)) == w.take(
            c + tx_consumed(w.len() - c),
        ),
{
    assert(w.take(c) + w.skip(c).take(tx_consumed(w.len() - c)) =~= w.take(
        c + tx_consumed(w.len() - c),
    ));
}

/// The receiver's view of a transfer's frames: the data bytes of each
/// successive frame, concatenated — the sender hands out seven bytes per
/// frame until the wire payload `w` is exhausted.
pub open spec fn chunks_concat(w: Seq<u8>) -> Seq<u8>
    decreases w.len(),
{
    if w.len() <= 7 {
        w
    } else {
        w.take(7) + chunks_concat(w.skip(7))
    }
}

/// Chunking loses nothing: the concatenation of the frames' data bytes is
/// the wire payload itself.
pub proof fn lemma_chunks_concat(w: Seq<u8>)
    ensures
        chunks_concat(w) == w,
    decreases w.len(),
{
    if w.len() > 7 {
        lemma_chunks_concat(w.skip(7));
        assert(w.take(7) + w.skip(7) =~= w);
    }
}

/// Round trip, transfer level. Chopping the on-wire payload of `data`
/// into successive frames and reassembling what they carry restores
/// `data` exactly: the concatenated frame data equals the wire payload; a
/// single-frame payload is the data itself; and a multi-frame payload
/// passes the receiver's completion check — its trailing bytes are the
/// CRC of what precedes them, low byte first — and strips back to `data`.
pub proof fn lemma_transfer_round_trip(data: Seq<u8>)
    ensures
        chunks_concat(wire_payload(data)) == wire_payload(data),
        data.len() <= 7 ==> chunks_concat(wire_payload(data)) == data,
        data.len() > 7 ==> ({
            let w = chunks_concat(wire_payload(data));
            &&& w.len() == data.len() + 2
            &&& w.take(w.len() - 2) == data
            &&& w[w.len() - 2] == crc16_of(w.take(w.len() - 2)) & 0xFF
            &&& w[w.len() - 1] == (crc16_of(w.take(w.len() - 2)) >> 8) & 0xFF
        }),
{
    lemma_chunks_concat(wire_payload(data));
    lemma_wire_payload_round_trip(data);
}

/// The toggle bit the transmitter puts on the k-th frame of one transfer,
/// counting from zero: it starts set and flips on every frame.
pub open spec fn toggle_at(k: nat) -> bool
    decreases k,
{
    if k == 0 {
        true
    } else {
        !toggle_at((k - 1) as nat)
    }
}

/// Toggle alternation: the observed toggle sequence is `true, false,
/// true, …` — the k-th frame carries the toggle exactly on even k — and
/// consecutive toggles always differ, so the receiver's alternation check
/// accepts every frame of an undisturbed transfer.
pub proof fn lemma_toggle_alternation(k: nat)
    ensures
        toggle_at(k) == (k % 2 == 0),
        toggle_at(k + 1) != toggle_at(k),
    decreases k,
{
    if k > 0 {
        lemma_toggle_alternation((k - 1) as nat);
    }
}

/// Round trip of the k-th frame of a whole transfer. With the cursor at
/// `7 * k` into the on-wire payload of `data`, the transmitted frame
/// decodes back to the transfer's identity, the k-th seven-byte chunk,
/// the toggle `toggle_at(k)`, and start/end markers that hold exactly on
/// the first and on the last chunk. The hypotheses mirror what the
/// manager guarantees: the source is the local node, messages carry no
/// destination, services carry both ends, and an anonymous sender only
/// ever transmits a payload that fits one frame.
pub proof fn lemma_transfer_frame_round_trip(
    m: TransferMetadata,
    local: Option<NodeId>,
    data: Seq<u8>,
    k: int,
    ts: Timestamp,
)
    requires
        metadata_wf(m),
        opt_node_id_valid(local),
        m.source_node_id == local,
        m.transfer_kind is Message ==> m.destination_node_id is None,
        m.transfer_kind is Message && local is None ==> data.len() <= 7,
        !(m.transfer_kind is Message) ==> local is Some && m.destination_node_id is Some,
        0 <= k,
        k == 0 || 7 * k < wire_payload(data).len(),
    ensures
        ({
            let w = wire_payload(data);
            let r = rx_classify(
                tx_frame_id(m, local),
                tx_frame_bytes(w.skip(7 * k), k == 0, toggle_at(k as nat), m.transfer_id),
            );
            &&& r is Ok
            &&& crate::transfer::same_identity(outcome_metadata(r->Ok_0, ts), m)
            &&& r->Ok_0.payload == w.skip(7 * k).take(tx_consumed(w.len() - 7 * k))
            &&& r->Ok_0.first_frame == (k == 0)
            &&& r->Ok_0.last_frame == (w.len() - 7 * k <= 7)
            &&& r->Ok_0.toggle == toggle_at(k as nat)
        }),
{
    let w = wire_payload(data);
    let rem = w.skip(7 * k);
    assert(rem.len() == w.len() - 7 * k || (k == 0 && rem.len() == w.len()));
    if m.transfer_kind is Message && local is None {
        assert(w == data);
        assert(k == 0);
    }
    lemma_frame_round_trip(m, local, rem, k == 0, toggle_at(k as nat), ts);
}

} // verus!
