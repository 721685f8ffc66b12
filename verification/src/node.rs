//! Node dispatcher: owns the optional local node identifier and the transfer
//! manager, filters inbound frames by addressing before any reception state
//! is touched, and drives outbound transfers through the codec.

use vstd::prelude::*;

use crate::transfer::manager::{CreateTransferError, TokenAccessError, UpdateTransferError};
use crate::transfer::map_manager::{
    MapTransferManager, RxData, RxEntry, RxToken, TxData, TxEntry, TxToken, rx_find, tx_find,
};
use crate::transfer::{TransferKind, TransferMetadata, fingerprint_spec};
use crate::transport::can::{
    Can, CanFrame, av_bytes, can_frame_wf, outcome_metadata, rx_classify, tx_consumed,
    tx_error_of, tx_frame_bytes, tx_frame_id, wire_payload,
};
use crate::types::{
    NodeId, PortId, Timestamp, TransferId, node_id_valid, opt_node_id_valid, transfer_id_valid,
};
use crate::{Priority, RxError, TxError};

verus! {

/// Errors from driving one outbound frame.
#[derive(Copy, Clone, Debug, PartialEq, Eq, Structural)]
pub enum TransmitFrameError {
    /// The token did not grant access to a live transfer
    TokenError(TokenAccessError),
    /// The codec refused to build the frame
    TxError(TxError),
    /// The transfer manager failed to consult the codec at all
    InvalidHandling,
}

/// What kind of transmission to start, with the destination where one is
/// owed: requests and responses are point-to-point, broadcasts are
/// messages without a destination.
#[derive(Copy, Clone, Debug, PartialEq, Eq, Structural)]
pub enum TransmissionType {
    Request(NodeId),
    Response(NodeId),
    Broadcast,
}

/// The transfer metadata an outbound transfer is stamped with: the node's
/// own identifier as source, and the destination the transmission type
/// carries.
pub open spec fn tx_transfer_metadata(
    local: Option<NodeId>,
    timestamp: Timestamp,
    priority: Priority,
    port_id: PortId,
    tx_kind: TransmissionType,
    transfer_id: TransferId,
) -> TransferMetadata {
    TransferMetadata {
        timestamp,
        priority,
        transfer_kind: match tx_kind {
            TransmissionType::Response(_) => TransferKind::Response,
            TransmissionType::Request(_) => TransferKind::Request,
            TransmissionType::Broadcast => TransferKind::Message,
        },
        port_id,
        source_node_id: local,
        destination_node_id: match tx_kind {
            TransmissionType::Response(id) | TransmissionType::Request(id) => Some(id),
            TransmissionType::Broadcast => None,
        },
        transfer_id,
    }
}

/// The port bounds a transmission must respect: subject ids are 13 bits,
/// service ids 9 bits, and a point-to-point destination is a valid node id.
pub open spec fn tx_kind_wf(tx_kind: TransmissionType, port_id: PortId) -> bool {
    match tx_kind {
        TransmissionType::Broadcast => port_id <= 0x1FFF,
        TransmissionType::Request(d) | TransmissionType::Response(d) => port_id <= 0x1FF
            && node_id_valid(d),
    }
}

/// One Cyphal node on one CAN bus: an optional local identifier (absent
/// for an anonymous node) and the transfer manager it feeds.
pub struct Node {
    /// The node's own identifier; `None` while the node is anonymous.
    pub id: Option<NodeId>,
    /// Transfer manager. Public so the host can redeem tokens, cancel
    /// transfers and run the housekeeping sweep directly.
    pub transfer_manager: MapTransferManager,
}

impl Node {
    /// The node's own identifier, `None` while anonymous.
    pub open spec fn local_id(self) -> Option<NodeId> {
        self.id
    }

    /// The identifier is in range and the manager's invariant holds.
    pub open spec fn wf(self) -> bool {
        opt_node_id_valid(self.local_id()) && self.transfer_manager.wf()
    }

    pub fn new(id: Option<NodeId>, transfer_manager: MapTransferManager) -> (r: Self)
        requires
            opt_node_id_valid(id),
            transfer_manager.wf(),
        ensures
            r.wf(),
            r.local_id() == id,
            r.transfer_manager == transfer_manager,
    {
        Self { id, transfer_manager }
    }

    /// Subscription extension point, consulted before any reception state
    /// is allocated: "does anyone care about this port and kind?". The
    /// policy is the host's affair; the default accepts every transfer.
    pub fn frame_wanted(&self, transfer_kind: TransferKind, port_id: PortId) -> (r: bool)
        ensures
            r == true,
    {
        let _ = transfer_kind;
        let _ = port_id;
        true
    }

    /// Ingests one link-layer frame: decodes and validates it, drops it
    /// silently when it is addressed to some other node (or to us while we
    /// are anonymous), then appends it to its transfer — opening the
    /// transfer if this is a start frame. `Ok(Some(token))` reports a
    /// transfer completed by this frame; the payload waits in the manager
    /// until the token is redeemed.
    pub fn try_receive_frame(&mut self, frame: &CanFrame) -> (r: Result<Option<RxToken>, RxError>)
        requires
            old(self).wf(),
            can_frame_wf(*frame),
        ensures
            final(self).wf(),
            final(self).local_id() == old(self).local_id(),
            final(self).transfer_manager.tx_view() == old(self).transfer_manager.tx_view(),
            ({
                let c = rx_classify(frame.id, av_bytes(frame.payload));
                let v = old(self).transfer_manager.rx_view();
                let v2 = final(self).transfer_manager.rx_view();
                if c is Err {
                    r == Err::<Option<RxToken>, RxError>(c->Err_0) && v2 == v
                } else {
                    let o = c->Ok_0;
                    let m = outcome_metadata(o, frame.timestamp);
                    let key = fingerprint_spec(m);
                    if o.destination_node_id is Some && old(self).local_id()
                        != o.destination_node_id {
                        r == Ok::<Option<RxToken>, RxError>(None) && v2 == v
                    } else {
                        match rx_find(v, key) {
                            Some(i) => match v[i] {
                                RxEntry::TimedOut(_) => r == Err::<Option<RxToken>, RxError>(
                                    RxError::Timeout,
                                ) && v2 == v,
                                RxEntry::Active(d) => if o.toggle == d.toggle {
                                    r == Err::<Option<RxToken>, RxError>(
                                        RxError::InvalidFrameOrdering,
                                    ) && v2 == v
                                } else {
                                    let np = d.payload + o.payload;
                                    if !o.last_frame {
                                        r == Ok::<Option<RxToken>, RxError>(None) && v2 == v.update(
                                            i,
                                            RxEntry::Active(
                                                RxData {
                                                    metadata: d.metadata,
                                                    toggle: o.toggle,
                                                    payload: np,
                                                },
                                            ),
                                        )
                                    } else if np.len() >= 2 && np[np.len() - 2] == (crate::transport::can::crc16_of(
                                        np.take(np.len() - 2),
                                    ) & 0xFF) as u8 && np[np.len() - 1]
                                        == ((crate::transport::can::crc16_of(
                                        np.take(np.len() - 2),
                                    ) >> 8) & 0xFF) as u8 {
                                        &&& r matches Ok(Some(t)) && t@ == key
                                        &&& v2 == v.update(
                                            i,
                                            RxEntry::Active(
                                                RxData {
                                                    metadata: d.metadata,
                                                    toggle: o.toggle,
                                                    payload: np.take(np.len() - 2),
                                                },
                                            ),
                                        )
                                    } else {
                                        r == Err::<Option<RxToken>, RxError>(RxError::CrcError)
                                            && v2 == v.remove(i)
                                    }
                                },
                            },
                            None => if !o.first_frame {
                                r == Err::<Option<RxToken>, RxError>(RxError::NewSessionNoStart)
                                    && v2 == v
                            } else {
                                &&& v2 == v.push(
                                    RxEntry::Active(
                                        RxData { metadata: m, toggle: true, payload: o.payload },
                                    ),
                                )
                                &&& o.last_frame ==> (r matches Ok(Some(t)) && t@ == key)
                                &&& !o.last_frame ==> r == Ok::<Option<RxToken>, RxError>(None)
                            },
                        }
                    }
                }
            }),
    {
        let (pframe, fmeta) = match Can::rx_process_frame(frame) {
            Ok(x) => x,
            Err(e) => {
                return Err(e);
            },
        };

        // Addressing filter: a message must never carry a destination; a
        // service transfer for another node — or for us while we have no
        // identifier — is not ours and is dropped without touching the
        // manager.
        if let Some(dest) = pframe.metadata.destination_node_id {
            match pframe.metadata.transfer_kind {
                TransferKind::Message => {
                    return Err(RxError::MessageWithRemoteId);
                },
                TransferKind::Request | TransferKind::Response => {
                    match self.id {
                        Some(local) => {
                            if dest != local {
                                return Ok(None);
                            }
                        },
                        None => {
                            return Ok(None);
                        },
                    }
                },
            }
        }
        // Subscription hook: today every port is wanted.
        if !self.frame_wanted(pframe.metadata.transfer_kind, pframe.metadata.port_id) {
            return Ok(None);
        }
        match self.transfer_manager.append_frame(&pframe, fmeta) {
            Ok(tok) => Ok(tok),
            // Deliberate drop-on-overflow policy: backpressure is the link
            // layer's problem.
            Err(UpdateTransferError::NoSpace) => Ok(None),
            Err(UpdateTransferError::TimedOut) => Err(RxError::Timeout),
            Err(UpdateTransferError::RxError(e)) => Err(e),
            Err(UpdateTransferError::DoesNotExist) => {
                if !pframe.first_frame {
                    return Err(RxError::NewSessionNoStart);
                }
                match self.transfer_manager.new_transfer(&pframe, fmeta) {
                    Ok(tok) => Ok(tok),
                    Err(CreateTransferError::AlreadyExists) => Ok(None),
                    Err(CreateTransferError::NoSpace) => Ok(None),
                    Err(CreateTransferError::RxError(e)) => Err(e),
                }
            },
        }
    }

    /// Begins an outbound transfer carrying `data`: builds the transfer
    /// metadata for the requested kind — the node's identifier as source,
    /// the kind's destination — and hands it to the manager. The returned
    /// token drives [`Node::transmit_frame`]. An anonymous node may start
    /// a service transfer; the error surfaces at the first transmitted
    /// frame, as [`TxError::ServiceNoSourceID`].
    pub fn start_tx_transfer(
        &mut self,
        timestamp: Timestamp,
        priority: Priority,
        port_id: PortId,
        tx_kind: TransmissionType,
        transfer_id: TransferId,
        data: &[u8],
    ) -> (r: Result<TxToken, CreateTransferError>)
        requires
            old(self).wf(),
            transfer_id_valid(transfer_id),
            tx_kind_wf(tx_kind, port_id),
            data@.len() + 2 <= usize::MAX,
        ensures
            final(self).wf(),
            final(self).local_id() == old(self).local_id(),
            final(self).transfer_manager.rx_view() == old(self).transfer_manager.rx_view(),
            ({
                let m = tx_transfer_metadata(
                    old(self).local_id(),
                    timestamp,
                    priority,
                    port_id,
                    tx_kind,
                    transfer_id,
                );
                let key = fingerprint_spec(m);
                let v = old(self).transfer_manager.tx_view();
                let v2 = final(self).transfer_manager.tx_view();
                match tx_find(v, key) {
                    Some(_) => r == Err::<TxToken, CreateTransferError>(
                        CreateTransferError::AlreadyExists,
                    ) && v2 == v,
                    None => {
                        &&& r matches Ok(t) && t@ == key
                        &&& v2 == v.push(
                            TxEntry::Active(
                                TxData {
                                    metadata: m,
                                    first_frame: true,
                                    toggle: true,
                                    consumed: 0,
                                    payload: wire_payload(data@),
                                },
                            ),
                        )
                    },
                }
            }),
    {
        let metadata = TransferMetadata {
            timestamp,
            priority,
            transfer_kind: match tx_kind {
                TransmissionType::Response(_) => TransferKind::Response,
                TransmissionType::Request(_) => TransferKind::Request,
                TransmissionType::Broadcast => TransferKind::Message,
            },
            port_id,
            source_node_id: self.id,
            destination_node_id: match tx_kind {
                TransmissionType::Response(id) | TransmissionType::Request(id) => Some(id),
                TransmissionType::Broadcast => None,
            },
            transfer_id,
        };
        self.transfer_manager.create_transmission(&metadata, data)
    }

    /// Produces the next link-layer frame of an outbound transfer and the
    /// token for the following one (`None` once the payload is exhausted).
    /// When the codec refuses the frame — a service transfer without a
    /// source or destination, an anonymous multi-frame message — the
    /// transfer is cancelled and the error surfaces; nothing of it
    /// remains in the manager.
    pub fn transmit_frame(&mut self, token: TxToken, timestamp: Timestamp) -> (r: Result<
        (CanFrame, Option<TxToken>),
        TransmitFrameError,
    >)
        requires
            old(self).wf(),
        ensures
            final(self).wf(),
            final(self).local_id() == old(self).local_id(),
            final(self).transfer_manager.rx_view() == old(self).transfer_manager.rx_view(),
            ({
                let v = old(self).transfer_manager.tx_view();
                let v2 = final(self).transfer_manager.tx_view();
                match tx_find(v, token@) {
                    None => r == Err::<(CanFrame, Option<TxToken>), TransmitFrameError>(
                        TransmitFrameError::TokenError(TokenAccessError::InvalidToken),
                    ) && v2 == v,
                    Some(i) => match v[i] {
                        TxEntry::TimedOut(_) => r == Err::<
                            (CanFrame, Option<TxToken>),
                            TransmitFrameError,
                        >(TransmitFrameError::TokenError(TokenAccessError::TransferTimeout)) && v2
                            == v.remove(i),
                        TxEntry::Active(d) => {
                            let rem = d.payload.skip(d.consumed);
                            match tx_error_of(d.metadata, rem.len() as int, old(self).local_id()) {
                                Some(e) => r == Err::<
                                    (CanFrame, Option<TxToken>),
                                    TransmitFrameError,
                                >(TransmitFrameError::TxError(e)) && v2 == v.remove(i),
                                None => {
                                    let c2 = d.consumed + tx_consumed(rem.len() as int);
                                    &&& r matches Ok((frame, next)) && ({
                                        &&& frame.timestamp == timestamp
                                        &&& frame.id == tx_frame_id(
                                            d.metadata,
                                            old(self).local_id(),
                                        )
                                        &&& av_bytes(frame.payload) == tx_frame_bytes(
                                            rem,
                                            d.first_frame,
                                            d.toggle,
                                            d.metadata.transfer_id,
                                        )
                                        &&& can_frame_wf(frame)
                                        &&& (d.payload.len() > 0 ==> c2 > d.consumed)
                                        &&& if c2 == d.payload.len() {
                                            next is None && v2 == v.remove(i)
                                        } else {
                                            &&& next matches Some(t2) && t2@ == token@
                                            &&& v2 == v.update(
                                                i,
                                                TxEntry::Active(
                                                    TxData {
                                                        metadata: d.metadata,
                                                        first_frame: false,
                                                        toggle: !d.toggle,
                                                        consumed: c2,
                                                        payload: d.payload,
                                                    },
                                                ),
                                            )
                                        }
                                    })
                                },
                            }
                        },
                    },
                }
            }),
    {
        match self.transfer_manager.transmit(token, self.id, timestamp) {
            Ok(x) => Ok(x),
            Err(TransmitFrameError::TxError(e)) => {
                // The codec refused mid-transfer: tear the transfer down so
                // no half-sent payload lingers.
                let _ = self.transfer_manager.cancel_tx_transfer(token);
                Err(TransmitFrameError::TxError(e))
            },
            Err(e) => Err(e),
        }
    }
}

} // verus!
