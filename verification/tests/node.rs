use crc_any::CRCu16;
use cyphal::transfer::manager::{CreateTransferError, TokenAccessError};
use cyphal::transfer::map_manager::MapTransferManager;
use cyphal::transfer::TransferKind;
use cyphal::transport::can::CanFrame;
use cyphal::node::TransmitFrameError;
use cyphal::{Node, Priority, RxError, TransmissionType, TxError};

fn message_id(priority: u8, anon: bool, subject: u16, source: u8) -> u32 {
    ((priority as u32) << 26) | (if anon { 1 << 24 } else { 0 }) | ((subject as u32) << 8)
        | (source as u32)
}

fn service_id(priority: u8, request: bool, service: u16, dest: u8, source: u8) -> u32 {
    ((priority as u32) << 26) | (1 << 25) | (if request { 1 << 24 } else { 0 })
        | ((service as u32) << 14) | ((dest as u32) << 7) | (source as u32)
}

fn crc16(data: &[u8]) -> u16 {
    let mut crc = CRCu16::crc16ccitt_false();
    crc.digest(data);
    crc.get_crc()
}

#[test]
fn single_frame_anonymous_message_is_received() {
    let mut node = Node::new(Some(42), MapTransferManager::new());
    // Anonymous message, priority Nominal, subject 0x1234, random source;
    // two payload bytes and the tail {SOT=1, EOT=1, toggle=1, tid=0}.
    let frame = CanFrame::new(
        0,
        message_id(4, true, 0x1234, 0x5A),
        &[0xAA, 0xBB, 0x80 | 0x40 | 0x20],
    );
    let tok = node.try_receive_frame(&frame).unwrap().unwrap();
    let (m, payload) = node.transfer_manager.with_rx_transfer(tok).unwrap();
    assert_eq!(payload, vec![0xAA, 0xBB]);
    assert_eq!(m.transfer_kind, TransferKind::Message);
    assert_eq!(m.priority, Priority::Nominal);
    assert_eq!(m.port_id, 0x1234);
    assert_eq!(m.source_node_id, None);
    assert_eq!(m.transfer_id, 0);
}

#[test]
fn two_frame_message_reassembles_and_validates_its_crc() {
    let mut node = Node::new(Some(42), MapTransferManager::new());
    let id = message_id(4, false, 0x0555, 7);
    let user: Vec<u8> = vec![1, 2, 3, 4, 5, 6, 7, 8, 9];
    let crc = crc16(&user);

    // Frame A: seven user bytes, tail {SOT=1, EOT=0, toggle=1, tid=5}.
    let a = CanFrame::new(10, id, &[1, 2, 3, 4, 5, 6, 7, 0x80 | 0x20 | 5]);
    assert!(node.try_receive_frame(&a).unwrap().is_none());

    // Frame B: two user bytes, the CRC low byte first, tail {EOT=1, toggle=0, tid=5}.
    let b = CanFrame::new(
        11,
        id,
        &[8, 9, (crc & 0xFF) as u8, (crc >> 8) as u8, 0x40 | 5],
    );
    let tok = node.try_receive_frame(&b).unwrap().unwrap();
    let (m, payload) = node.transfer_manager.with_rx_transfer(tok).unwrap();
    assert_eq!(payload, user);
    assert_eq!(m.source_node_id, Some(7));
    assert_eq!(m.transfer_id, 5);
}

#[test]
fn toggle_violation_is_invalid_frame_ordering() {
    let mut node = Node::new(Some(42), MapTransferManager::new());
    let id = message_id(4, false, 0x0555, 7);
    let a = CanFrame::new(10, id, &[1, 2, 3, 4, 5, 6, 7, 0x80 | 0x20 | 5]);
    assert!(node.try_receive_frame(&a).unwrap().is_none());
    // Frame B keeps toggle=1 instead of alternating to 0.
    let b = CanFrame::new(11, id, &[8, 9, 0, 0, 0x40 | 0x20 | 5]);
    let r = node.try_receive_frame(&b);
    assert!(matches!(r, Err(RxError::InvalidFrameOrdering)));
}

#[test]
fn non_last_underutilisation_is_rejected() {
    let mut node = Node::new(Some(42), MapTransferManager::new());
    let id = message_id(4, false, 0x0555, 7);
    // SOT=1, EOT=0, five bytes in total.
    let frame = CanFrame::new(0, id, &[1, 2, 3, 4, 0x80 | 0x20 | 5]);
    let r = node.try_receive_frame(&frame);
    assert!(matches!(r, Err(RxError::NonLastUnderUtilization)));
}

#[test]
fn service_frame_for_someone_else_is_dropped_silently() {
    let mut node = Node::new(Some(42), MapTransferManager::new());
    // A request addressed to node 17, not to us.
    let frame = CanFrame::new(
        0,
        service_id(4, true, 0x100, 17, 7),
        &[0xAA, 0x80 | 0x40 | 0x20],
    );
    let r = node.try_receive_frame(&frame).unwrap();
    assert!(r.is_none());
}

#[test]
fn service_frame_while_anonymous_is_dropped_silently() {
    let mut node = Node::new(None, MapTransferManager::new());
    let frame = CanFrame::new(
        0,
        service_id(4, true, 0x100, 17, 7),
        &[0xAA, 0x80 | 0x40 | 0x20],
    );
    let r = node.try_receive_frame(&frame).unwrap();
    assert!(r.is_none());
}

#[test]
fn continuation_without_a_session_is_rejected() {
    let mut node = Node::new(Some(42), MapTransferManager::new());
    let id = message_id(4, false, 0x0555, 7);
    // EOT=1, toggle=0, but no transfer was ever opened.
    let frame = CanFrame::new(0, id, &[8, 9, 0x40 | 5]);
    let r = node.try_receive_frame(&frame);
    assert!(matches!(r, Err(RxError::NewSessionNoStart)));
}

#[test]
fn tx_service_without_source_is_cancelled_at_first_frame() {
    let mut node = Node::new(None, MapTransferManager::new());
    let tok = node
        .start_tx_transfer(0, Priority::Nominal, 0x100, TransmissionType::Request(7), 1, &[1, 2])
        .unwrap();
    let r = node.transmit_frame(tok, 1);
    assert!(matches!(r, Err(TransmitFrameError::TxError(TxError::ServiceNoSourceID))));
    // The transfer was cancelled: the token no longer grants access.
    let r2 = node.transmit_frame(tok, 2);
    assert!(matches!(
        r2,
        Err(TransmitFrameError::TokenError(TokenAccessError::InvalidToken))
    ));
}

#[test]
fn anonymous_multi_frame_broadcast_is_cancelled_at_first_frame() {
    let mut node = Node::new(None, MapTransferManager::new());
    let data = [0u8; 10];
    let tok = node
        .start_tx_transfer(0, Priority::Nominal, 0x77, TransmissionType::Broadcast, 1, &data)
        .unwrap();
    let r = node.transmit_frame(tok, 1);
    assert!(matches!(r, Err(TransmitFrameError::TxError(TxError::AnonNotSingleFrame))));
    let r2 = node.transmit_frame(tok, 2);
    assert!(matches!(
        r2,
        Err(TransmitFrameError::TokenError(TokenAccessError::InvalidToken))
    ));
}

#[test]
fn duplicate_transmission_is_deduplicated_by_identity() {
    let mut node = Node::new(Some(10), MapTransferManager::new());
    assert!(node
        .start_tx_transfer(0, Priority::Nominal, 0x77, TransmissionType::Broadcast, 1, &[1])
        .is_ok());
    // A different timestamp does not make a different transfer.
    let r = node.start_tx_transfer(55, Priority::Nominal, 0x77, TransmissionType::Broadcast, 1, &[1]);
    assert!(matches!(r, Err(CreateTransferError::AlreadyExists)));
}

fn pump_transfer(tx: &mut Node, rx: &mut Node, data: &[u8], kind: TransmissionType) -> Vec<CanFrame> {
    let mut tok = tx
        .start_tx_transfer(0, Priority::Low, 0x3A, kind, 4, data)
        .unwrap();
    let mut frames = Vec::new();
    loop {
        let (frame, next) = tx.transmit_frame(tok, 0).unwrap();
        frames.push(frame);
        match next {
            Some(t) => tok = t,
            None => break,
        }
    }
    for (k, frame) in frames.iter().enumerate() {
        let r = rx.try_receive_frame(frame).unwrap();
        if k + 1 < frames.len() {
            assert!(r.is_none());
        } else {
            let tok = r.unwrap();
            let (m, payload) = rx.transfer_manager.with_rx_transfer(tok).unwrap();
            assert_eq!(payload, data);
            assert_eq!(m.priority, Priority::Low);
            assert_eq!(m.port_id, 0x3A);
            assert_eq!(m.transfer_id, 4);
            assert_eq!(m.source_node_id, Some(10));
            match kind {
                TransmissionType::Broadcast => {
                    assert_eq!(m.transfer_kind, TransferKind::Message);
                    assert_eq!(m.destination_node_id, None);
                },
                TransmissionType::Request(d) => {
                    assert_eq!(m.transfer_kind, TransferKind::Request);
                    assert_eq!(m.destination_node_id, Some(d));
                },
                TransmissionType::Response(d) => {
                    assert_eq!(m.transfer_kind, TransferKind::Response);
                    assert_eq!(m.destination_node_id, Some(d));
                },
            }
        }
    }
    frames
}

#[test]
fn broadcast_round_trip_multi_frame() {
    let mut a = Node::new(Some(10), MapTransferManager::new());
    let mut b = Node::new(Some(11), MapTransferManager::new());
    let data: Vec<u8> = (0..20).collect();
    // 20 user bytes: 22 on the wire, so four frames (7 + 7 + 7 + 1).
    let frames = pump_transfer(&mut a, &mut b, &data, TransmissionType::Broadcast);
    assert_eq!(frames.len(), 4);
}

#[test]
fn broadcast_round_trip_single_frame_at_the_mtu() {
    let mut a = Node::new(Some(10), MapTransferManager::new());
    let mut b = Node::new(Some(11), MapTransferManager::new());
    // Exactly seven user bytes still fit one frame, with no CRC on the wire.
    let data: Vec<u8> = (0..7).collect();
    let frames = pump_transfer(&mut a, &mut b, &data, TransmissionType::Broadcast);
    assert_eq!(frames.len(), 1);
    assert_eq!(frames[0].payload_slice().len(), 8);
}

#[test]
fn broadcast_round_trip_just_over_the_mtu() {
    let mut a = Node::new(Some(10), MapTransferManager::new());
    let mut b = Node::new(Some(11), MapTransferManager::new());
    // Eight user bytes: the CRC pushes the wire payload to ten, two frames.
    let data: Vec<u8> = (0..8).collect();
    let frames = pump_transfer(&mut a, &mut b, &data, TransmissionType::Broadcast);
    assert_eq!(frames.len(), 2);
}

#[test]
fn broadcast_round_trip_empty_payload() {
    let mut a = Node::new(Some(10), MapTransferManager::new());
    let mut b = Node::new(Some(11), MapTransferManager::new());
    let frames = pump_transfer(&mut a, &mut b, &[], TransmissionType::Broadcast);
    assert_eq!(frames.len(), 1);
    // Only the tail byte travels.
    assert_eq!(frames[0].payload_slice().len(), 1);
}

#[test]
fn request_round_trip_reaches_its_destination() {
    let mut a = Node::new(Some(10), MapTransferManager::new());
    let mut b = Node::new(Some(11), MapTransferManager::new());
    let data: Vec<u8> = (100..120).collect();
    pump_transfer(&mut a, &mut b, &data, TransmissionType::Request(11));
}

#[test]
fn response_round_trip_reaches_its_destination() {
    let mut a = Node::new(Some(10), MapTransferManager::new());
    let mut b = Node::new(Some(11), MapTransferManager::new());
    pump_transfer(&mut a, &mut b, &[1, 2, 3], TransmissionType::Response(11));
}

#[test]
fn toggle_bits_alternate_starting_set() {
    let mut a = Node::new(Some(10), MapTransferManager::new());
    let mut b = Node::new(Some(11), MapTransferManager::new());
    let data: Vec<u8> = (0..20).collect();
    let frames = pump_transfer(&mut a, &mut b, &data, TransmissionType::Broadcast);
    for (k, frame) in frames.iter().enumerate() {
        let payload = frame.payload_slice();
        let tail = payload[payload.len() - 1];
        let toggle = tail & 0x20 != 0;
        assert_eq!(toggle, k % 2 == 0);
        // Start and end markers sit on the first and last frame only.
        assert_eq!(tail & 0x80 != 0, k == 0);
        assert_eq!(tail & 0x40 != 0, k == frames.len() - 1);
    }
}

#[test]
fn altered_bytes_in_transit_fail_the_transfer_crc() {
    let mut a = Node::new(Some(10), MapTransferManager::new());
    let mut b = Node::new(Some(11), MapTransferManager::new());
    let data: Vec<u8> = (0..12).collect();
    let mut tok = a
        .start_tx_transfer(0, Priority::Low, 0x3A, TransmissionType::Broadcast, 4, &data)
        .unwrap();
    let mut frames = Vec::new();
    loop {
        let (frame, next) = a.transmit_frame(tok, 0).unwrap();
        frames.push(frame);
        match next {
            Some(t) => tok = t,
            None => break,
        }
    }
    assert_eq!(frames.len(), 2);
    // Corrupt one user byte of the first frame, keeping the framing intact.
    let original = frames[0].payload_slice().to_vec();
    let mut corrupted = original.clone();
    corrupted[0] ^= 0xFF;
    let bad = CanFrame::new(0, frames[0].id, &corrupted);
    assert!(b.try_receive_frame(&bad).unwrap().is_none());
    let r = b.try_receive_frame(&frames[1]);
    assert!(matches!(r, Err(RxError::CrcError)));
}

#[test]
fn anonymous_single_frame_broadcast_round_trips() {
    let mut a = Node::new(None, MapTransferManager::new());
    let mut b = Node::new(Some(11), MapTransferManager::new());
    let tok = a
        .start_tx_transfer(0, Priority::High, 0x20, TransmissionType::Broadcast, 9, &[5, 6])
        .unwrap();
    let (frame, next) = a.transmit_frame(tok, 0).unwrap();
    assert!(next.is_none());
    // The identifier carries the anonymous flag.
    assert!(frame.id & (1 << 24) != 0);
    let tok = b.try_receive_frame(&frame).unwrap().unwrap();
    let (m, payload) = b.transfer_manager.with_rx_transfer(tok).unwrap();
    assert_eq!(payload, vec![5, 6]);
    assert_eq!(m.source_node_id, None);
}

#[test]
fn frame_for_a_timed_out_transfer_reports_timeout() {
    let mut node = Node::new(Some(42), MapTransferManager::new());
    let id = message_id(4, false, 0x0555, 7);
    let a = CanFrame::new(100, id, &[1, 2, 3, 4, 5, 6, 7, 0x80 | 0x20 | 5]);
    assert!(node.try_receive_frame(&a).unwrap().is_none());
    node.transfer_manager.update_transfers(500, 10);
    let b = CanFrame::new(501, id, &[8, 9, 0, 0, 0x40 | 5]);
    let r = node.try_receive_frame(&b);
    assert!(matches!(r, Err(RxError::Timeout)));
}

#[test]
fn subscription_hook_accepts_everything_today() {
    let node = Node::new(Some(1), MapTransferManager::new());
    assert!(node.frame_wanted(TransferKind::Message, 0x123));
    assert!(node.frame_wanted(TransferKind::Request, 0x1));
}

#[test]
fn subscriptions_compare_by_kind_and_port() {
    let a = cyphal::Subscription::new(TransferKind::Message, 0x10, 64, 1000);
    let b = cyphal::Subscription::new(TransferKind::Message, 0x10, 128, 2000);
    let c = cyphal::Subscription::new(TransferKind::Request, 0x10, 64, 1000);
    assert!(a == b);
    assert!(!(a == c));
}
