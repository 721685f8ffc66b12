use cyphal::transport::can::{Can, CanFrame, TxMetadata};
use cyphal::transfer::{TransferKind, TransferMetadata};
use cyphal::{Priority, RxError, TxError};

fn message_id(priority: u8, anon: bool, subject: u16, source: u8) -> u32 {
    ((priority as u32) << 26) | (if anon { 1 << 24 } else { 0 }) | ((subject as u32) << 8)
        | (source as u32)
}

fn service_id(priority: u8, request: bool, service: u16, dest: u8, source: u8) -> u32 {
    ((priority as u32) << 26) | (1 << 25) | (if request { 1 << 24 } else { 0 })
        | ((service as u32) << 14) | ((dest as u32) << 7) | (source as u32)
}

#[test]
fn priority_wire_values_round_trip() {
    let all = [
        (Priority::Exceptional, 0u8),
        (Priority::Immediate, 1),
        (Priority::Fast, 2),
        (Priority::High, 3),
        (Priority::Nominal, 4),
        (Priority::Low, 5),
        (Priority::Slow, 6),
        (Priority::Optional, 7),
    ];
    for (p, bits) in all {
        assert_eq!(p.as_u8(), bits);
        assert_eq!(Priority::from_u8(bits), Some(p));
    }
    assert_eq!(Priority::from_u8(8), None);
    assert_eq!(Priority::from_u8(255), None);
}

#[test]
fn empty_frame_is_rejected() {
    let frame = CanFrame::new(0, message_id(4, false, 0x123, 7), &[]);
    let r = Can::rx_process_frame(&frame);
    assert!(matches!(r, Err(RxError::FrameEmpty)));
}

#[test]
fn start_of_transfer_needs_toggle() {
    // SOT set, toggle clear, transfer id 5.
    let tail = 0x80u8 | 0x05;
    let frame = CanFrame::new(0, message_id(4, false, 0x123, 7), &[1, 2, tail]);
    let r = Can::rx_process_frame(&frame);
    assert!(matches!(r, Err(RxError::TransferStartMissingToggle)));
}

#[test]
fn non_last_frame_must_fill_the_mtu() {
    // SOT=1, EOT=0, toggle=1, five bytes in total: under-utilised.
    let tail = 0x80u8 | 0x20 | 0x05;
    let frame = CanFrame::new(0, message_id(4, false, 0x123, 7), &[1, 2, 3, 4, tail]);
    let r = Can::rx_process_frame(&frame);
    assert!(matches!(r, Err(RxError::NonLastUnderUtilization)));
}

#[test]
fn anonymous_multi_frame_is_rejected() {
    // Anonymous message, SOT=1, EOT=0, toggle=1, full MTU.
    let tail = 0x80u8 | 0x20 | 0x05;
    let frame = CanFrame::new(
        0,
        message_id(4, true, 0x123, 99),
        &[1, 2, 3, 4, 5, 6, 7, tail],
    );
    let r = Can::rx_process_frame(&frame);
    assert!(matches!(r, Err(RxError::AnonNotSingleFrame)));
}

#[test]
fn reserved_bit_23_invalidates_a_service_id() {
    let id = service_id(4, true, 0x100, 17, 42) | (1 << 23);
    let tail = 0x80u8 | 0x40 | 0x20;
    let frame = CanFrame::new(0, id, &[1, tail]);
    let r = Can::rx_process_frame(&frame);
    assert!(matches!(r, Err(RxError::InvalidCanId)));
}

#[test]
fn reserved_bit_7_invalidates_a_message_id() {
    let id = message_id(4, false, 0x123, 7) | 0x80;
    let tail = 0x80u8 | 0x40 | 0x20;
    let frame = CanFrame::new(0, id, &[1, tail]);
    let r = Can::rx_process_frame(&frame);
    assert!(matches!(r, Err(RxError::InvalidCanId)));
}

#[test]
fn message_frame_decodes_every_field() {
    let tail = 0x80u8 | 0x40 | 0x20 | 9;
    let frame = CanFrame::new(77, message_id(2, false, 0x1ABC, 55), &[0xDE, 0xAD, tail]);
    let (f, fm) = Can::rx_process_frame(&frame).unwrap();
    assert_eq!(f.metadata.timestamp, 77);
    assert_eq!(f.metadata.priority, Priority::Fast);
    assert_eq!(f.metadata.transfer_kind, TransferKind::Message);
    assert_eq!(f.metadata.port_id, 0x1ABC);
    assert_eq!(f.metadata.source_node_id, Some(55));
    assert_eq!(f.metadata.destination_node_id, None);
    assert_eq!(f.metadata.transfer_id, 9);
    assert_eq!(f.payload, vec![0xDE, 0xAD]);
    assert!(f.first_frame);
    assert!(f.last_frame);
    assert!(fm.toggle_bit);
}

#[test]
fn service_frame_decodes_every_field() {
    let tail = 0x80u8 | 0x40 | 0x20 | 30;
    let frame = CanFrame::new(5, service_id(6, true, 0x1F0, 17, 42), &[0x01, tail]);
    let (f, _) = Can::rx_process_frame(&frame).unwrap();
    assert_eq!(f.metadata.priority, Priority::Slow);
    assert_eq!(f.metadata.transfer_kind, TransferKind::Request);
    assert_eq!(f.metadata.port_id, 0x1F0);
    assert_eq!(f.metadata.source_node_id, Some(42));
    assert_eq!(f.metadata.destination_node_id, Some(17));
    assert_eq!(f.metadata.transfer_id, 30);
}

#[test]
fn anonymous_source_is_dropped_on_reception() {
    let tail = 0x80u8 | 0x40 | 0x20;
    let frame = CanFrame::new(0, message_id(4, true, 0x123, 99), &[0xAA, tail]);
    let (f, _) = Can::rx_process_frame(&frame).unwrap();
    assert_eq!(f.metadata.source_node_id, None);
}

#[test]
fn crc_padded_size_adds_two_bytes() {
    assert_eq!(Can::get_crc_padded_size(0), 2);
    assert_eq!(Can::get_crc_padded_size(9), 11);
}

#[test]
fn tx_crc_is_ccitt_false_low_byte_first() {
    // CRC-16/CCITT-FALSE of b"123456789" is the well-known check 0x29B1.
    let mut buffer = b"123456789".to_vec();
    buffer.push(0);
    buffer.push(0);
    let wire_len = Can::process_tx_crc(&mut buffer, 9);
    assert_eq!(wire_len, 11);
    assert_eq!(buffer[9], 0xB1);
    assert_eq!(buffer[10], 0x29);
}

#[test]
fn single_frame_payload_gets_no_crc() {
    let mut buffer = vec![1, 2, 3, 0, 0];
    let wire_len = Can::process_tx_crc(&mut buffer, 3);
    assert_eq!(wire_len, 3);
    assert_eq!(buffer, vec![1, 2, 3, 0, 0]);
}

fn tx_metadata(kind: TransferKind, dest: Option<u8>) -> TransferMetadata {
    TransferMetadata {
        timestamp: 0,
        priority: Priority::Nominal,
        transfer_kind: kind,
        port_id: 0x42,
        source_node_id: Some(10),
        destination_node_id: dest,
        transfer_id: 3,
    }
}

#[test]
fn transmit_frame_appends_tail_and_consumes_up_to_seven() {
    let m = tx_metadata(TransferKind::Message, None);
    let mut tm = TxMetadata::default();
    let data = [1u8, 2, 3, 4, 5, 6, 7, 8, 9];
    let (frame, consumed) = Can::transmit_frame(&m, &mut tm, &data, Some(10), 50).unwrap();
    assert_eq!(consumed, 7);
    // First frame: SOT=1, EOT=0, toggle=1, tid=3.
    assert_eq!(frame.payload_slice().to_vec(), vec![1, 2, 3, 4, 5, 6, 7, 0x80 | 0x20 | 3]);
    assert_eq!(frame.timestamp, 50);

    let rest = &data[consumed..];
    let (frame2, consumed2) = Can::transmit_frame(&m, &mut tm, rest, Some(10), 51).unwrap();
    assert_eq!(consumed2, 2);
    // Second frame: SOT=0, EOT=1, toggle flipped to 0.
    assert_eq!(frame2.payload_slice().to_vec(), vec![8, 9, 0x40 | 3]);
}

#[test]
fn transmit_frame_encodes_the_message_id() {
    let m = tx_metadata(TransferKind::Message, None);
    let mut tm = TxMetadata::default();
    let (frame, _) = Can::transmit_frame(&m, &mut tm, &[0xAA], Some(10), 0).unwrap();
    // Priority Nominal, bits 21/22 set on transmission, subject 0x42, source 10.
    assert_eq!(frame.id, (4 << 26) | (0x3 << 21) | (0x42 << 8) | 10);
}

#[test]
fn transmit_frame_encodes_the_service_id() {
    let m = tx_metadata(TransferKind::Request, Some(17));
    let mut tm = TxMetadata::default();
    let (frame, _) = Can::transmit_frame(&m, &mut tm, &[0xAA], Some(10), 0).unwrap();
    assert_eq!(frame.id, (4u32 << 26) | (1 << 25) | (1 << 24) | (0x42 << 14) | (17 << 7) | 10);
}

#[test]
fn anonymous_node_cannot_send_multi_frame_messages() {
    let mut m = tx_metadata(TransferKind::Message, None);
    m.source_node_id = None;
    let mut tm = TxMetadata::default();
    let data = [0u8; 12];
    let r = Can::transmit_frame(&m, &mut tm, &data, None, 0);
    assert!(matches!(r, Err(TxError::AnonNotSingleFrame)));
}

#[test]
fn service_transfer_needs_source_and_destination() {
    let m = tx_metadata(TransferKind::Request, Some(17));
    let mut tm = TxMetadata::default();
    let r = Can::transmit_frame(&m, &mut tm, &[1], None, 0);
    assert!(matches!(r, Err(TxError::ServiceNoSourceID)));

    let m2 = tx_metadata(TransferKind::Response, None);
    let r2 = Can::transmit_frame(&m2, &mut tm, &[1], Some(10), 0);
    assert!(matches!(r2, Err(TxError::ServiceNoDestinationID)));
}

#[test]
fn codec_round_trips_a_single_frame() {
    let m = tx_metadata(TransferKind::Message, None);
    let mut tm = TxMetadata::default();
    let (frame, consumed) = Can::transmit_frame(&m, &mut tm, &[9, 8, 7], Some(10), 123).unwrap();
    assert_eq!(consumed, 3);
    let (f, fm) = Can::rx_process_frame(&frame).unwrap();
    assert_eq!(f.payload, vec![9, 8, 7]);
    assert_eq!(f.metadata.priority, m.priority);
    assert_eq!(f.metadata.transfer_kind, m.transfer_kind);
    assert_eq!(f.metadata.port_id, m.port_id);
    assert_eq!(f.metadata.source_node_id, Some(10));
    assert_eq!(f.metadata.transfer_id, m.transfer_id);
    assert!(f.first_frame && f.last_frame);
    assert!(fm.toggle_bit);
}
