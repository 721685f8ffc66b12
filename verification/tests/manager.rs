use cyphal::transfer::manager::{
    CreateTransferError, TokenAccessError, UpdateTransferError, timestamp_expired,
};
use cyphal::transfer::map_manager::MapTransferManager;
use cyphal::transfer::{Frame, TransferKind, TransferMetadata};
use cyphal::transport::can::FrameMetadata;
use cyphal::node::TransmitFrameError;
use cyphal::{Priority, RxError, TxError};

fn metadata(timestamp: u64, transfer_id: u8) -> TransferMetadata {
    TransferMetadata {
        timestamp,
        priority: Priority::Nominal,
        transfer_kind: TransferKind::Message,
        port_id: 0x100,
        source_node_id: Some(7),
        destination_node_id: None,
        transfer_id,
    }
}

fn first_frame(timestamp: u64, transfer_id: u8, payload: &[u8], last: bool) -> Frame {
    Frame {
        metadata: metadata(timestamp, transfer_id),
        payload: payload.to_vec(),
        first_frame: true,
        last_frame: last,
    }
}

#[test]
fn timestamp_expiry_is_strict_monotonic_comparison() {
    assert!(!timestamp_expired(10, 100, None));
    assert!(!timestamp_expired(10, 100, Some(95)));
    assert!(!timestamp_expired(10, 100, Some(90)));
    assert!(timestamp_expired(10, 100, Some(89)));
    // A stamp from the future never expires.
    assert!(!timestamp_expired(10, 100, Some(200)));
}

#[test]
fn append_without_a_transfer_reports_does_not_exist() {
    let mut mgr = MapTransferManager::new();
    let f = first_frame(0, 1, &[1, 2], true);
    let r = mgr.append_frame(&f, FrameMetadata { toggle_bit: true });
    assert!(matches!(r, Err(UpdateTransferError::DoesNotExist)));
}

#[test]
fn single_frame_transfer_completes_immediately() {
    let mut mgr = MapTransferManager::new();
    let f = first_frame(3, 1, &[1, 2], true);
    let tok = mgr
        .new_transfer(&f, FrameMetadata { toggle_bit: true })
        .unwrap()
        .unwrap();
    let (m, payload) = mgr.with_rx_transfer(tok).unwrap();
    assert_eq!(payload, vec![1, 2]);
    assert_eq!(m.transfer_kind, TransferKind::Message);
    assert_eq!(m.timestamp, 3);
}

#[test]
fn duplicate_new_transfer_already_exists() {
    let mut mgr = MapTransferManager::new();
    let f = first_frame(0, 1, &[1, 2], false);
    assert!(mgr.new_transfer(&f, FrameMetadata { toggle_bit: true }).unwrap().is_none());
    // Same identity, later timestamp: still the same transfer.
    let f2 = first_frame(99, 1, &[1, 2], false);
    let r = mgr.new_transfer(&f2, FrameMetadata { toggle_bit: true });
    assert!(matches!(r, Err(CreateTransferError::AlreadyExists)));
}

#[test]
fn redeemed_token_is_gone() {
    let mut mgr = MapTransferManager::new();
    let f = first_frame(0, 4, &[9], true);
    let tok = mgr
        .new_transfer(&f, FrameMetadata { toggle_bit: true })
        .unwrap()
        .unwrap();
    assert!(mgr.with_rx_transfer(tok).is_ok());
    let r = mgr.with_rx_transfer(tok);
    assert!(matches!(r, Err(TokenAccessError::InvalidToken)));
}

#[test]
fn rx_cancellation_is_idempotent() {
    let mut mgr = MapTransferManager::new();
    let f = first_frame(0, 4, &[9], true);
    let tok = mgr
        .new_transfer(&f, FrameMetadata { toggle_bit: true })
        .unwrap()
        .unwrap();
    assert!(mgr.cancel_rx_transfer(tok).is_ok());
    let r = mgr.cancel_rx_transfer(tok);
    assert!(matches!(r, Err(TokenAccessError::InvalidToken)));
}

#[test]
fn tx_cancellation_is_idempotent() {
    let mut mgr = MapTransferManager::new();
    let tok = mgr.create_transmission(&metadata(0, 2), &[1, 2, 3]).unwrap();
    assert!(mgr.cancel_tx_transfer(tok).is_ok());
    let r = mgr.cancel_tx_transfer(tok);
    assert!(matches!(r, Err(TokenAccessError::InvalidToken)));
}

#[test]
fn duplicate_transmission_already_exists() {
    let mut mgr = MapTransferManager::new();
    assert!(mgr.create_transmission(&metadata(5, 2), &[1]).is_ok());
    // Only the timestamp differs: same fingerprint, so it is refused.
    let r = mgr.create_transmission(&metadata(77, 2), &[1]);
    assert!(matches!(r, Err(CreateTransferError::AlreadyExists)));
    // A different transfer id is a different transfer.
    assert!(mgr.create_transmission(&metadata(5, 3), &[1]).is_ok());
}

#[test]
fn transmission_walks_the_payload_in_frame_sized_steps() {
    let mut mgr = MapTransferManager::new();
    // 12 user bytes: 14 on the wire with the CRC, so 7 + 7 across two frames.
    let data: Vec<u8> = (0..12).collect();
    let mut tok = mgr.create_transmission(&metadata(0, 6), &data).unwrap();
    let mut frames = Vec::new();
    loop {
        let (frame, next) = mgr.transmit(tok, Some(7), 0).unwrap();
        frames.push(frame.payload_slice().to_vec());
        match next {
            Some(t) => tok = t,
            None => break,
        }
    }
    assert_eq!(frames.len(), 2);
    assert_eq!(frames[0].len(), 8);
    assert_eq!(frames[1].len(), 8);
    assert_eq!(&frames[0][0..7], &data[0..7]);
    assert_eq!(&frames[1][0..5], &data[7..12]);
    // The spent token no longer grants access.
    let r = mgr.transmit(tok, Some(7), 0);
    assert!(matches!(r, Err(TransmitFrameError::TokenError(TokenAccessError::InvalidToken))));
}

#[test]
fn codec_error_leaves_the_stored_transfer_alone() {
    let mut mgr = MapTransferManager::new();
    let mut m = metadata(0, 2);
    m.transfer_kind = TransferKind::Request;
    m.destination_node_id = None;
    m.port_id = 0x55;
    let tok = mgr.create_transmission(&m, &[1, 2, 3]).unwrap();
    let r = mgr.transmit(tok, Some(7), 0);
    assert!(matches!(r, Err(TransmitFrameError::TxError(TxError::ServiceNoDestinationID))));
    // The transfer is still there: the same error comes back again.
    let r2 = mgr.transmit(tok, Some(7), 0);
    assert!(matches!(r2, Err(TransmitFrameError::TxError(TxError::ServiceNoDestinationID))));
}

#[test]
fn sweep_times_out_idle_transfers_and_reaps_tombstones() {
    let mut mgr = MapTransferManager::new();
    let f = first_frame(100, 1, &[9], true);
    let tok = mgr
        .new_transfer(&f, FrameMetadata { toggle_bit: true })
        .unwrap()
        .unwrap();
    // Not yet expired: still redeemable afterwards? Sweep with plenty of slack.
    mgr.update_transfers(105, 50);
    // Expired now: the entry becomes TimedOut and the token reports it.
    mgr.update_transfers(200, 50);
    let r = mgr.with_rx_transfer(tok);
    assert!(matches!(r, Err(TokenAccessError::TransferTimeout)));
    // The timeout access reaped the entry.
    let r2 = mgr.with_rx_transfer(tok);
    assert!(matches!(r2, Err(TokenAccessError::InvalidToken)));
}

#[test]
fn second_sweep_reaps_what_the_first_marked() {
    let mut mgr = MapTransferManager::new();
    let f = first_frame(100, 1, &[9], true);
    let tok = mgr
        .new_transfer(&f, FrameMetadata { toggle_bit: true })
        .unwrap()
        .unwrap();
    mgr.update_transfers(200, 50);
    // One full cycle later the tombstone is reaped without being observed.
    mgr.update_transfers(201, 50);
    let r = mgr.with_rx_transfer(tok);
    assert!(matches!(r, Err(TokenAccessError::InvalidToken)));
}

#[test]
fn timed_out_tx_transfer_reports_and_reaps_on_access() {
    let mut mgr = MapTransferManager::new();
    let tok = mgr.create_transmission(&metadata(100, 2), &[1, 2, 3]).unwrap();
    mgr.update_transfers(500, 10);
    let r = mgr.transmit(tok, Some(7), 501);
    assert!(matches!(
        r,
        Err(TransmitFrameError::TokenError(TokenAccessError::TransferTimeout))
    ));
    let r2 = mgr.transmit(tok, Some(7), 502);
    assert!(matches!(r2, Err(TransmitFrameError::TokenError(TokenAccessError::InvalidToken))));
}

#[test]
fn corrupted_multi_frame_transfer_fails_its_crc_check() {
    let mut mgr = MapTransferManager::new();
    // Open a multi-frame transfer with seven bytes, then finish it with two
    // trailing bytes that are not the CRC of the whole payload.
    let f1 = first_frame(0, 9, &[1, 2, 3, 4, 5, 6, 7], false);
    assert!(mgr.new_transfer(&f1, FrameMetadata { toggle_bit: true }).unwrap().is_none());
    let f2 = Frame {
        metadata: metadata(1, 9),
        payload: vec![8, 9, 0x00, 0x00],
        first_frame: false,
        last_frame: true,
    };
    let r = mgr.append_frame(&f2, FrameMetadata { toggle_bit: false });
    assert!(matches!(r, Err(UpdateTransferError::RxError(RxError::CrcError))));
    // The failed transfer was dropped outright.
    let f3 = first_frame(2, 9, &[1, 2, 3, 4, 5, 6, 7], false);
    assert!(mgr.new_transfer(&f3, FrameMetadata { toggle_bit: true }).unwrap().is_none());
}

#[test]
fn new_transfer_rejects_a_start_frame_without_toggle() {
    let mut mgr = MapTransferManager::new();
    let f = first_frame(0, 1, &[1], true);
    let r = mgr.new_transfer(&f, FrameMetadata { toggle_bit: false });
    assert!(matches!(
        r,
        Err(CreateTransferError::RxError(RxError::InvalidFrameOrdering))
    ));
}

#[test]
fn append_to_a_timed_out_transfer_reports_it() {
    let mut mgr = MapTransferManager::new();
    let f1 = first_frame(100, 9, &[1, 2, 3, 4, 5, 6, 7], false);
    assert!(mgr.new_transfer(&f1, FrameMetadata { toggle_bit: true }).unwrap().is_none());
    mgr.update_transfers(500, 10);
    let f2 = Frame {
        metadata: metadata(501, 9),
        payload: vec![8],
        first_frame: false,
        last_frame: false,
    };
    let r = mgr.append_frame(&f2, FrameMetadata { toggle_bit: false });
    assert!(matches!(r, Err(UpdateTransferError::TimedOut)));
}

#[test]
fn append_rejects_a_repeated_toggle() {
    let mut mgr = MapTransferManager::new();
    let f1 = first_frame(0, 9, &[1, 2, 3, 4, 5, 6, 7], false);
    assert!(mgr.new_transfer(&f1, FrameMetadata { toggle_bit: true }).unwrap().is_none());
    let f2 = Frame {
        metadata: metadata(1, 9),
        payload: vec![8, 9],
        first_frame: false,
        last_frame: true,
    };
    let r = mgr.append_frame(&f2, FrameMetadata { toggle_bit: true });
    assert!(matches!(
        r,
        Err(UpdateTransferError::RxError(RxError::InvalidFrameOrdering))
    ));
}
