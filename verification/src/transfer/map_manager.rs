//! Heap-backed transfer manager.
//!
//! Transfers are stored in vectors keyed by the injective fingerprint of
//! their metadata, so "same fingerprint" provably means "same transfer
//! identity" and a token can never alias a foreign transfer. Lookup walks
//! the store; the well-formedness invariant keeps keys unique.

use vstd::prelude::*;

use crate::transfer::manager::{
    CreateTransferError, TokenAccessError, UpdateTransferError, timestamp_expired,
    timestamp_expired_spec,
};
use crate::transfer::{Frame, TransferMetadata, fingerprint, fingerprint_spec, metadata_wf};
use crate::transport::can::{
    Can, CanFrame, FrameMetadata, RxMetadata, TxMetadata, av_bytes, can_frame_wf, crc16_compute,
    crc16_of, tx_consumed, tx_error_of, tx_frame_bytes, tx_frame_id, wire_payload,
};
use crate::types::{Duration, NodeId, Timestamp, opt_node_id_valid};
use crate::node::TransmitFrameError;
use crate::RxError;

verus! {

/// Specification-level content of a live inbound transfer: its metadata,
/// the toggle bit of the last accepted frame, and the bytes reassembled so
/// far.
pub struct RxData {
    pub metadata: TransferMetadata,
    pub toggle: bool,
    pub payload: Seq<u8>,
}

/// Specification-level state of one stored inbound transfer. A timed-out
/// entry keeps only its key: the payload is freed at the transition.
pub enum RxEntry {
    Active(RxData),
    TimedOut(u64),
}

/// Specification-level content of a live outbound transfer: its metadata,
/// the codec's transmission state, the on-wire payload and the cursor of
/// bytes already handed to the link layer.
pub struct TxData {
    pub metadata: TransferMetadata,
    pub first_frame: bool,
    pub toggle: bool,
    pub consumed: int,
    pub payload: Seq<u8>,
}

/// Specification-level state of one stored outbound transfer.
pub enum TxEntry {
    Active(TxData),
    TimedOut(u64),
}

/// The key an inbound entry is stored under.
pub open spec fn rx_entry_key(e: RxEntry) -> u64 {
    match e {
        RxEntry::Active(d) => fingerprint_spec(d.metadata),
        RxEntry::TimedOut(k) => k,
    }
}

/// The key an outbound entry is stored under.
pub open spec fn tx_entry_key(e: TxEntry) -> u64 {
    match e {
        TxEntry::Active(d) => fingerprint_spec(d.metadata),
        TxEntry::TimedOut(k) => k,
    }
}

/// Index of the first inbound entry stored under `key`.
pub open spec fn rx_find(s: Seq<RxEntry>, key: u64) -> Option<int>
    decreases s.len(),
{
    if s.len() == 0 {
        None
    } else if rx_entry_key(s[0]) == key {
        Some(0int)
    } else {
        match rx_find(s.skip(1), key) {
            Some(i) => Some(i + 1),
            None => None,
        }
    }
}

/// Index of the first outbound entry stored under `key`.
pub open spec fn tx_find(s: Seq<TxEntry>, key: u64) -> Option<int>
    decreases s.len(),
{
    if s.len() == 0 {
        None
    } else if tx_entry_key(s[0]) == key {
        Some(0int)
    } else {
        match tx_find(s.skip(1), key) {
            Some(i) => Some(i + 1),
            None => None,
        }
    }
}

/// No two inbound entries share a key.
pub open spec fn rx_keys_distinct(s: Seq<RxEntry>) -> bool {
    forall|i: int, j: int|
        0 <= i < j < s.len() ==> rx_entry_key(#[trigger] s[i]) != rx_entry_key(#[trigger] s[j])
}

/// No two outbound entries share a key.
pub open spec fn tx_keys_distinct(s: Seq<TxEntry>) -> bool {
    forall|i: int, j: int|
        0 <= i < j < s.len() ==> tx_entry_key(#[trigger] s[i]) != tx_entry_key(#[trigger] s[j])
}

/// What `rx_find` returns is the first hit: a found index carries the key
/// and nothing before it does; `None` means no entry carries it.
pub proof fn lemma_rx_find_props(s: Seq<RxEntry>, key: u64)
    ensures
        match rx_find(s, key) {
            Some(i) => 0 <= i < s.len() && rx_entry_key(s[i]) == key && forall|j: int|
                0 <= j < i ==> rx_entry_key(#[trigger] s[j]) != key,
            None => forall|j: int| 0 <= j < s.len() ==> rx_entry_key(#[trigger] s[j]) != key,
        },
    decreases s.len(),
{
    if s.len() > 0 && rx_entry_key(s[0]) != key {
        lemma_rx_find_props(s.skip(1), key);
        assert forall|j: int| 0 <= j < s.len() && j >= 1 implies rx_entry_key(#[trigger] s[j])
            == rx_entry_key(s.skip(1)[j - 1]) by {
            assert(s.skip(1)[j - 1] == s[j]);
        }
    }
}

/// Conversely, an index that carries the key, with no hit before it, is
/// what `rx_find` returns.
pub proof fn lemma_rx_find_at(s: Seq<RxEntry>, key: u64, i: int)
    requires
        0 <= i < s.len(),
        rx_entry_key(s[i]) == key,
        forall|j: int| 0 <= j < i ==> rx_entry_key(#[trigger] s[j]) != key,
    ensures
        rx_find(s, key) == Some(i),
    decreases s.len(),
{
    if i > 0 {
        assert(forall|j: int|
            0 <= j < i - 1 ==> rx_entry_key(#[trigger] s.skip(1)[j]) == rx_entry_key(s[j + 1]));
        lemma_rx_find_at(s.skip(1), key, i - 1);
    }
}

/// See [`lemma_rx_find_props`].
pub proof fn lemma_tx_find_props(s: Seq<TxEntry>, key: u64)
    ensures
        match tx_find(s, key) {
            Some(i) => 0 <= i < s.len() && tx_entry_key(s[i]) == key && forall|j: int|
                0 <= j < i ==> tx_entry_key(#[trigger] s[j]) != key,
            None => forall|j: int| 0 <= j < s.len() ==> tx_entry_key(#[trigger] s[j]) != key,
        },
    decreases s.len(),
{
    if s.len() > 0 && tx_entry_key(s[0]) != key {
        lemma_tx_find_props(s.skip(1), key);
        assert forall|j: int| 0 <= j < s.len() && j >= 1 implies tx_entry_key(#[trigger] s[j])
            == tx_entry_key(s.skip(1)[j - 1]) by {
            assert(s.skip(1)[j - 1] == s[j]);
        }
    }
}

/// See [`lemma_rx_find_at`].
pub proof fn lemma_tx_find_at(s: Seq<TxEntry>, key: u64, i: int)
    requires
        0 <= i < s.len(),
        tx_entry_key(s[i]) == key,
        forall|j: int| 0 <= j < i ==> tx_entry_key(#[trigger] s[j]) != key,
    ensures
        tx_find(s, key) == Some(i),
    decreases s.len(),
{
    if i > 0 {
        assert(forall|j: int|
            0 <= j < i - 1 ==> tx_entry_key(#[trigger] s.skip(1)[j]) == tx_entry_key(s[j + 1]));
        lemma_tx_find_at(s.skip(1), key, i - 1);
    }
}

/// Idempotent cancellation, inbound: removing the found entry removes the
/// only entry under that key, so a second lookup — hence a second cancel,
/// by [`MapTransferManager::cancel_rx_transfer`]'s contract — finds
/// nothing.
pub proof fn lemma_cancel_idempotent_rx(s: Seq<RxEntry>, key: u64)
    requires
        rx_keys_distinct(s),
        rx_find(s, key) is Some,
    ensures
        rx_find(s.remove(rx_find(s, key)->0), key) is None,
{
    let i = rx_find(s, key)->0;
    lemma_rx_find_props(s, key);
    let s2 = s.remove(i);
    lemma_rx_find_props(s2, key);
    if rx_find(s2, key) is Some {
        let j = rx_find(s2, key)->0;
        if j < i {
            assert(s2[j] == s[j]);
        } else {
            assert(s2[j] == s[j + 1]);
        }
    }
}

/// Idempotent cancellation, outbound: as [`lemma_cancel_idempotent_rx`].
pub proof fn lemma_cancel_idempotent_tx(s: Seq<TxEntry>, key: u64)
    requires
        tx_keys_distinct(s),
        tx_find(s, key) is Some,
    ensures
        tx_find(s.remove(tx_find(s, key)->0), key) is None,
{
    let i = tx_find(s, key)->0;
    lemma_tx_find_props(s, key);
    let s2 = s.remove(i);
    lemma_tx_find_props(s2, key);
    if tx_find(s2, key) is Some {
        let j = tx_find(s2, key)->0;
        if j < i {
            assert(s2[j] == s[j]);
        } else {
            assert(s2[j] == s[j + 1]);
        }
    }
}

/// Opaque handle to a stored inbound transfer: the transfer's fingerprint.
#[derive(Copy, Clone, Debug, PartialEq, Eq, Structural, Hash)]
pub struct RxToken(u64);

impl View for RxToken {
    type V = u64;

    closed spec fn view(&self) -> u64 {
        self.0
    }
}

/// Opaque handle to a stored outbound transfer: the transfer's fingerprint.
#[derive(Copy, Clone, Debug, PartialEq, Eq, Structural, Hash)]
pub struct TxToken(u64);

impl View for TxToken {
    type V = u64;

    closed spec fn view(&self) -> u64 {
        self.0
    }
}

enum TransferStatus<D> {
    Active(D),
    TimedOut,
}

struct RxTransfer {
    transfer_metadata: TransferMetadata,
    transport_metadata: RxMetadata,
    payload: Vec<u8>,
}

struct TxTransfer {
    transfer_metadata: TransferMetadata,
    transport_metadata: TxMetadata,
    consumed: usize,
    payload: Vec<u8>,
}

struct RxSlot {
    key: u64,
    state: TransferStatus<RxTransfer>,
}

struct TxSlot {
    key: u64,
    state: TransferStatus<TxTransfer>,
}

spec fn rx_slot_view(s: RxSlot) -> RxEntry {
    match s.state {
        TransferStatus::Active(t) => RxEntry::Active(
            RxData {
                metadata: t.transfer_metadata,
                toggle: t.transport_metadata.toggle_bit,
                payload: t.payload@,
            },
        ),
        TransferStatus::TimedOut => RxEntry::TimedOut(s.key),
    }
}

spec fn tx_slot_view(s: TxSlot) -> TxEntry {
    match s.state {
        TransferStatus::Active(t) => TxEntry::Active(
            TxData {
                metadata: t.transfer_metadata,
                first_frame: t.transport_metadata.first_frame,
                toggle: t.transport_metadata.toggle_bit,
                consumed: t.consumed as int,
                payload: t.payload@,
            },
        ),
        TransferStatus::TimedOut => TxEntry::TimedOut(s.key),
    }
}

spec fn rx_slot_wf(s: RxSlot) -> bool {
    match s.state {
        TransferStatus::Active(t) => s.key == fingerprint_spec(t.transfer_metadata)
            && metadata_wf(t.transfer_metadata),
        TransferStatus::TimedOut => true,
    }
}

spec fn tx_slot_wf(s: TxSlot) -> bool {
    match s.state {
        TransferStatus::Active(t) => s.key == fingerprint_spec(t.transfer_metadata)
            && metadata_wf(t.transfer_metadata) && t.consumed <= t.payload@.len() && (t.consumed
            < t.payload@.len() || t.consumed == 0),
        TransferStatus::TimedOut => true,
    }
}

proof fn lemma_rx_slots_remove(s: Seq<RxSlot>, i: int)
    requires
        0 <= i < s.len(),
        forall|k: int| 0 <= k < s.len() ==> rx_slot_wf(#[trigger] s[k]),
        forall|k: int, l: int|
            0 <= k < l < s.len() ==> (#[trigger] s[k]).key != (#[trigger] s[l]).key,
    ensures
        forall|k: int| 0 <= k < s.remove(i).len() ==> rx_slot_wf(#[trigger] s.remove(i)[k]),
        forall|k: int, l: int|
            0 <= k < l < s.remove(i).len() ==> (#[trigger] s.remove(i)[k]).key != (
            #[trigger] s.remove(i)[l]).key,
{
    let s2 = s.remove(i);
    assert forall|k: int| 0 <= k < s2.len() implies rx_slot_wf(#[trigger] s2[k]) by {
        if k < i {
            assert(s2[k] == s[k]);
        } else {
            assert(s2[k] == s[k + 1]);
        }
    }
    assert forall|k: int, l: int| 0 <= k < l < s2.len() implies (#[trigger] s2[k]).key != (
    #[trigger] s2[l]).key by {
        if k < i {
            assert(s2[k] == s[k]);
        } else {
            assert(s2[k] == s[k + 1]);
        }
        if l < i {
            assert(s2[l] == s[l]);
        } else {
            assert(s2[l] == s[l + 1]);
        }
    }
}

proof fn lemma_tx_slots_remove(s: Seq<TxSlot>, i: int)
    requires
        0 <= i < s.len(),
        forall|k: int| 0 <= k < s.len() ==> tx_slot_wf(#[trigger] s[k]),
        forall|k: int, l: int|
            0 <= k < l < s.len() ==> (#[trigger] s[k]).key != (#[trigger] s[l]).key,
    ensures
        forall|k: int| 0 <= k < s.remove(i).len() ==> tx_slot_wf(#[trigger] s.remove(i)[k]),
        forall|k: int, l: int|
            0 <= k < l < s.remove(i).len() ==> (#[trigger] s.remove(i)[k]).key != (
            #[trigger] s.remove(i)[l]).key,
{
    let s2 = s.remove(i);
    assert forall|k: int| 0 <= k < s2.len() implies tx_slot_wf(#[trigger] s2[k]) by {
        if k < i {
            assert(s2[k] == s[k]);
        } else {
            assert(s2[k] == s[k + 1]);
        }
    }
    assert forall|k: int, l: int| 0 <= k < l < s2.len() implies (#[trigger] s2[k]).key != (
    #[trigger] s2[l]).key by {
        if k < i {
            assert(s2[k] == s[k]);
        } else {
            assert(s2[k] == s[k + 1]);
        }
        if l < i {
            assert(s2[l] == s[l]);
        } else {
            assert(s2[l] == s[l + 1]);
        }
    }
}

proof fn lemma_rx_slots_replace(s: Seq<RxSlot>, i: int, slot: RxSlot)
    requires
        0 <= i < s.len(),
        forall|k: int| 0 <= k < s.len() ==> rx_slot_wf(#[trigger] s[k]),
        forall|k: int, l: int|
            0 <= k < l < s.len() ==> (#[trigger] s[k]).key != (#[trigger] s[l]).key,
        rx_slot_wf(slot),
        slot.key == s[i].key,
    ensures
        forall|k: int| 0 <= k < s.update(i, slot).len() ==> rx_slot_wf(#[trigger] s.update(i, slot)[k]),
        forall|k: int, l: int|
            0 <= k < l < s.update(i, slot).len() ==> (#[trigger] s.update(i, slot)[k]).key != (
            #[trigger] s.update(i, slot)[l]).key,
{
}

proof fn lemma_tx_slots_replace(s: Seq<TxSlot>, i: int, slot: TxSlot)
    requires
        0 <= i < s.len(),
        forall|k: int| 0 <= k < s.len() ==> tx_slot_wf(#[trigger] s[k]),
        forall|k: int, l: int|
            0 <= k < l < s.len() ==> (#[trigger] s[k]).key != (#[trigger] s[l]).key,
        tx_slot_wf(slot),
        slot.key == s[i].key,
    ensures
        forall|k: int| 0 <= k < s.update(i, slot).len() ==> tx_slot_wf(#[trigger] s.update(i, slot)[k]),
        forall|k: int, l: int|
            0 <= k < l < s.update(i, slot).len() ==> (#[trigger] s.update(i, slot)[k]).key != (
            #[trigger] s.update(i, slot)[l]).key,
{
}

proof fn lemma_rx_slots_push(s: Seq<RxSlot>, slot: RxSlot)
    requires
        forall|k: int| 0 <= k < s.len() ==> rx_slot_wf(#[trigger] s[k]),
        forall|k: int, l: int|
            0 <= k < l < s.len() ==> (#[trigger] s[k]).key != (#[trigger] s[l]).key,
        rx_slot_wf(slot),
        forall|k: int| 0 <= k < s.len() ==> (#[trigger] s[k]).key != slot.key,
    ensures
        forall|k: int| 0 <= k < s.push(slot).len() ==> rx_slot_wf(#[trigger] s.push(slot)[k]),
        forall|k: int, l: int|
            0 <= k < l < s.push(slot).len() ==> (#[trigger] s.push(slot)[k]).key != (
            #[trigger] s.push(slot)[l]).key,
{
}

proof fn lemma_tx_slots_push(s: Seq<TxSlot>, slot: TxSlot)
    requires
        forall|k: int| 0 <= k < s.len() ==> tx_slot_wf(#[trigger] s[k]),
        forall|k: int, l: int|
            0 <= k < l < s.len() ==> (#[trigger] s[k]).key != (#[trigger] s[l]).key,
        tx_slot_wf(slot),
        forall|k: int| 0 <= k < s.len() ==> (#[trigger] s[k]).key != slot.key,
    ensures
        forall|k: int| 0 <= k < s.push(slot).len() ==> tx_slot_wf(#[trigger] s.push(slot)[k]),
        forall|k: int, l: int|
            0 <= k < l < s.push(slot).len() ==> (#[trigger] s.push(slot)[k]).key != (
            #[trigger] s.push(slot)[l]).key,
{
}

/// One entry's fate under the housekeeping sweep: an entry that was
/// already timed out is reaped — it has been observable since the sweep
/// that marked it, which bounds the store; an active entry whose stamp has
/// expired turns into a timed-out tombstone, its buffer freed; a fresh
/// entry stays as it is. `Active → TimedOut → reaped` are the only
/// transitions the sweep makes.
pub open spec fn sweep_rx_entry(e: RxEntry, now: Timestamp, timeout: Duration) -> Seq<RxEntry> {
    match e {
        RxEntry::TimedOut(_) => Seq::empty(),
        RxEntry::Active(d) => if timestamp_expired_spec(timeout, now, Some(d.metadata.timestamp)) {
            seq![RxEntry::TimedOut(fingerprint_spec(d.metadata))]
        } else {
            seq![e]
        },
    }
}

/// See [`sweep_rx_entry`].
pub open spec fn sweep_tx_entry(e: TxEntry, now: Timestamp, timeout: Duration) -> Seq<TxEntry> {
    match e {
        TxEntry::TimedOut(_) => Seq::empty(),
        TxEntry::Active(d) => if timestamp_expired_spec(timeout, now, Some(d.metadata.timestamp)) {
            seq![TxEntry::TimedOut(fingerprint_spec(d.metadata))]
        } else {
            seq![e]
        },
    }
}

/// The whole inbound store after one sweep, entry by entry, order kept.
pub open spec fn sweep_rx(s: Seq<RxEntry>, now: Timestamp, timeout: Duration) -> Seq<RxEntry>
    decreases s.len(),
{
    if s.len() == 0 {
        Seq::empty()
    } else {
        sweep_rx(s.drop_last(), now, timeout) + sweep_rx_entry(s.last(), now, timeout)
    }
}

/// The whole outbound store after one sweep, entry by entry, order kept.
pub open spec fn sweep_tx(s: Seq<TxEntry>, now: Timestamp, timeout: Duration) -> Seq<TxEntry>
    decreases s.len(),
{
    if s.len() == 0 {
        Seq::empty()
    } else {
        sweep_tx(s.drop_last(), now, timeout) + sweep_tx_entry(s.last(), now, timeout)
    }
}

spec fn rx_slots_view(s: Seq<RxSlot>) -> Seq<RxEntry> {
    Seq::new(s.len(), |k: int| rx_slot_view(s[k]))
}

spec fn tx_slots_view(s: Seq<TxSlot>) -> Seq<TxEntry> {
    Seq::new(s.len(), |k: int| tx_slot_view(s[k]))
}

/// Keyed store of in-progress transfers, one map per direction. The
/// manager exclusively owns every in-flight transfer and its payload
/// buffer.
pub struct MapTransferManager {
    rx_transfers: Vec<RxSlot>,
    tx_transfers: Vec<TxSlot>,
}

impl MapTransferManager {
    /// The stored inbound entries, in storage order.
    pub closed spec fn rx_view(self) -> Seq<RxEntry> {
        rx_slots_view(self.rx_transfers@)
    }

    /// The stored outbound entries, in storage order.
    pub closed spec fn tx_view(self) -> Seq<TxEntry> {
        tx_slots_view(self.tx_transfers@)
    }

    /// The manager's invariant: every stored entry is well-formed and the
    /// keys in each direction are unique — at most one in-flight transfer
    /// per fingerprint.
    pub closed spec fn wf(self) -> bool {
        &&& forall|i: int|
            0 <= i < self.rx_transfers@.len() ==> rx_slot_wf(#[trigger] self.rx_transfers@[i])
        &&& forall|i: int|
            0 <= i < self.tx_transfers@.len() ==> tx_slot_wf(#[trigger] self.tx_transfers@[i])
        &&& forall|i: int, j: int|
            0 <= i < j < self.rx_transfers@.len() ==> (#[trigger] self.rx_transfers@[i]).key != (
            #[trigger] self.rx_transfers@[j]).key
        &&& forall|i: int, j: int|
            0 <= i < j < self.tx_transfers@.len() ==> (#[trigger] self.tx_transfers@[i]).key != (
            #[trigger] self.tx_transfers@[j]).key
    }

    /// A well-formed manager presents distinct keys in each direction.
    pub proof fn lemma_wf_views(self)
        requires
            self.wf(),
        ensures
            rx_keys_distinct(self.rx_view()),
            tx_keys_distinct(self.tx_view()),
    {
        self.lemma_view_keys();
    }

    /// Under the invariant, the key of every viewed entry is the key its
    /// slot is stored under.
    proof fn lemma_view_keys(self)
        requires
            self.wf(),
        ensures
            forall|j: int|
                0 <= j < self.rx_transfers@.len() ==> rx_entry_key(#[trigger] self.rx_view()[j])
                    == self.rx_transfers@[j].key,
            forall|j: int|
                0 <= j < self.tx_transfers@.len() ==> tx_entry_key(#[trigger] self.tx_view()[j])
                    == self.tx_transfers@[j].key,
    {
        assert forall|j: int| 0 <= j < self.rx_transfers@.len() implies rx_entry_key(
            #[trigger] self.rx_view()[j],
        ) == self.rx_transfers@[j].key by {
            assert(rx_slot_wf(self.rx_transfers@[j]));
        }
        assert forall|j: int| 0 <= j < self.tx_transfers@.len() implies tx_entry_key(
            #[trigger] self.tx_view()[j],
        ) == self.tx_transfers@[j].key by {
            assert(tx_slot_wf(self.tx_transfers@[j]));
        }
    }

    /// When no inbound entry is stored under `key`, no slot carries it.
    proof fn lemma_rx_absent_key(self, key: u64)
        requires
            self.wf(),
            rx_find(self.rx_view(), key) is None,
        ensures
            forall|k: int|
                0 <= k < self.rx_transfers@.len() ==> (#[trigger] self.rx_transfers@[k]).key
                    != key,
    {
        self.lemma_view_keys();
        lemma_rx_find_props(self.rx_view(), key);
        assert forall|k: int| 0 <= k < self.rx_transfers@.len() implies (
        #[trigger] self.rx_transfers@[k]).key != key by {
            assert(rx_entry_key(self.rx_view()[k]) != key);
        }
    }

    /// When no outbound entry is stored under `key`, no slot carries it.
    proof fn lemma_tx_absent_key(self, key: u64)
        requires
            self.wf(),
            tx_find(self.tx_view(), key) is None,
        ensures
            forall|k: int|
                0 <= k < self.tx_transfers@.len() ==> (#[trigger] self.tx_transfers@[k]).key
                    != key,
    {
        self.lemma_view_keys();
        lemma_tx_find_props(self.tx_view(), key);
        assert forall|k: int| 0 <= k < self.tx_transfers@.len() implies (
        #[trigger] self.tx_transfers@[k]).key != key by {
            assert(tx_entry_key(self.tx_view()[k]) != key);
        }
    }

    /// Walks the inbound store for the slot keyed `key`.
    fn find_rx_index(&self, key: u64) -> (r: Option<usize>)
        requires
            self.wf(),
        ensures
            match r {
                Some(i) => rx_find(self.rx_view(), key) == Some(i as int),
                None => rx_find(self.rx_view(), key) is None,
            },
    {
        proof {
            self.lemma_view_keys();
        }
        let n = self.rx_transfers.len();
        let mut i: usize = 0;
        while i < n
            invariant
                self.wf(),
                n == self.rx_transfers@.len(),
                i <= n,
                forall|j: int| 0 <= j < i ==> (#[trigger] self.rx_transfers@[j]).key != key,
            decreases n - i,
        {
            if self.rx_transfers[i].key == key {
                proof {
                    self.lemma_view_keys();
                    lemma_rx_find_at(self.rx_view(), key, i as int);
                }
                return Some(i);
            }
            i += 1;
        }
        proof {
            self.lemma_view_keys();
            lemma_rx_find_props(self.rx_view(), key);
        }
        None
    }

    /// Walks the outbound store for the slot keyed `key`.
    fn find_tx_index(&self, key: u64) -> (r: Option<usize>)
        requires
            self.wf(),
        ensures
            match r {
                Some(i) => tx_find(self.tx_view(), key) == Some(i as int),
                None => tx_find(self.tx_view(), key) is None,
            },
    {
        proof {
            self.lemma_view_keys();
        }
        let n = self.tx_transfers.len();
        let mut i: usize = 0;
        while i < n
            invariant
                self.wf(),
                n == self.tx_transfers@.len(),
                i <= n,
                forall|j: int| 0 <= j < i ==> (#[trigger] self.tx_transfers@[j]).key != key,
            decreases n - i,
        {
            if self.tx_transfers[i].key == key {
                proof {
                    self.lemma_view_keys();
                    lemma_tx_find_at(self.tx_view(), key, i as int);
                }
                return Some(i);
            }
            i += 1;
        }
        proof {
            self.lemma_view_keys();
            lemma_tx_find_props(self.tx_view(), key);
        }
        None
    }

    /// Cancels an inbound transfer, freeing its buffer whatever its state.
    /// A token that no longer names a stored transfer is rejected, so the
    /// second of two cancellations with the same token fails with
    /// `InvalidToken`.
    pub fn cancel_rx_transfer(&mut self, token: RxToken) -> (r: Result<(), TokenAccessError>)
        requires
            old(self).wf(),
        ensures
            final(self).wf(),
            final(self).tx_view() == old(self).tx_view(),
            match rx_find(old(self).rx_view(), token@) {
                Some(i) => r == Ok::<(), TokenAccessError>(()) && final(self).rx_view()
                    == old(self).rx_view().remove(i),
                None => r == Err::<(), TokenAccessError>(TokenAccessError::InvalidToken)
                    && *final(self) == *old(self),
            },
    {
        match self.find_rx_index(token.0) {
            Some(i) => {
                proof {
                    lemma_rx_find_props(self.rx_view(), token.0);
                }
                self.rx_transfers.remove(i);
                proof {
                    assert(self.rx_view() =~= old(self).rx_view().remove(i as int));
                    lemma_rx_slots_remove(old(self).rx_transfers@, i as int);
                }
                Ok(())
            },
            None => Err(TokenAccessError::InvalidToken),
        }
    }

    /// Cancels an outbound transfer; as [`Self::cancel_rx_transfer`].
    pub fn cancel_tx_transfer(&mut self, token: TxToken) -> (r: Result<(), TokenAccessError>)
        requires
            old(self).wf(),
        ensures
            final(self).wf(),
            final(self).rx_view() == old(self).rx_view(),
            match tx_find(old(self).tx_view(), token@) {
                Some(i) => r == Ok::<(), TokenAccessError>(()) && final(self).tx_view()
                    == old(self).tx_view().remove(i),
                None => r == Err::<(), TokenAccessError>(TokenAccessError::InvalidToken)
                    && *final(self) == *old(self),
            },
    {
        match self.find_tx_index(token.0) {
            Some(i) => {
                proof {
                    lemma_tx_find_props(self.tx_view(), token.0);
                }
                self.tx_transfers.remove(i);
                proof {
                    assert(self.tx_view() =~= old(self).tx_view().remove(i as int));
                    lemma_tx_slots_remove(old(self).tx_transfers@, i as int);
                }
                Ok(())
            },
            None => Err(TokenAccessError::InvalidToken),
        }
    }

    /// Redeems a completion token: hands back the transfer's metadata and
    /// reassembled payload and frees the entry. A token for a transfer the
    /// sweep has timed out reports `TransferTimeout`, the entry being
    /// reaped by that very access; an unknown token reports
    /// `InvalidToken`.
    pub fn with_rx_transfer(&mut self, token: RxToken) -> (r: Result<
        (TransferMetadata, Vec<u8>),
        TokenAccessError,
    >)
        requires
            old(self).wf(),
        ensures
            final(self).wf(),
            final(self).tx_view() == old(self).tx_view(),
            match rx_find(old(self).rx_view(), token@) {
                Some(i) => {
                    &&& final(self).rx_view() == old(self).rx_view().remove(i)
                    &&& match old(self).rx_view()[i] {
                        RxEntry::Active(d) => r matches Ok((m, p)) && m == d.metadata && p@
                            == d.payload,
                        RxEntry::TimedOut(_) => r == Err::<(TransferMetadata, Vec<u8>), _>(
                            TokenAccessError::TransferTimeout,
                        ),
                    }
                },
                None => r == Err::<(TransferMetadata, Vec<u8>), _>(TokenAccessError::InvalidToken)
                    && *final(self) == *old(self),
            },
    {
        match self.find_rx_index(token.0) {
            Some(i) => {
                proof {
                    lemma_rx_find_props(self.rx_view(), token.0);
                }
                let slot = self.rx_transfers.remove(i);
                proof {
                    assert(self.rx_view() =~= old(self).rx_view().remove(i as int));
                    lemma_rx_slots_remove(old(self).rx_transfers@, i as int);
                }
                match slot.state {
                    TransferStatus::Active(t) => Ok((t.transfer_metadata, t.payload)),
                    TransferStatus::TimedOut => Err(TokenAccessError::TransferTimeout),
                }
            },
            None => Err(TokenAccessError::InvalidToken),
        }
    }

    /// Appends one accepted frame onto the existing transfer it belongs
    /// to. Called for every inbound frame; a frame whose transfer is not
    /// stored reports `DoesNotExist` so the caller can decide whether to
    /// open a new transfer. On an existing active transfer the toggle must
    /// alternate, the payload grows by the frame's bytes and, when this is
    /// the last frame, the transfer CRC at the payload's end is checked
    /// and stripped and a completion token is handed back. A transfer that
    /// fails its CRC check is dropped with `CrcError`.
    pub fn append_frame(&mut self, frame: &Frame, metadata: FrameMetadata) -> (r: Result<
        Option<RxToken>,
        UpdateTransferError,
    >)
        requires
            old(self).wf(),
            metadata_wf(frame.metadata),
        ensures
            final(self).wf(),
            final(self).tx_view() == old(self).tx_view(),
            ({
                let key = fingerprint_spec(frame.metadata);
                let v = old(self).rx_view();
                let v2 = final(self).rx_view();
                match rx_find(v, key) {
                    None => r == Err::<Option<RxToken>, UpdateTransferError>(
                        UpdateTransferError::DoesNotExist,
                    ) && v2 == v,
                    Some(i) => match v[i] {
                        RxEntry::TimedOut(_) => r == Err::<Option<RxToken>, UpdateTransferError>(
                            UpdateTransferError::TimedOut,
                        ) && v2 == v,
                        RxEntry::Active(d) => if metadata.toggle_bit == d.toggle {
                            r == Err::<Option<RxToken>, UpdateTransferError>(
                                UpdateTransferError::RxError(RxError::InvalidFrameOrdering),
                            ) && v2 == v
                        } else {
                            let np = d.payload + frame.payload@;
                            if !frame.last_frame {
                                r == Ok::<Option<RxToken>, UpdateTransferError>(None) && v2
                                    == v.update(
                                    i,
                                    RxEntry::Active(
                                        RxData {
                                            metadata: d.metadata,
                                            toggle: metadata.toggle_bit,
                                            payload: np,
                                        },
                                    ),
                                )
                            } else if np.len() >= 2 && np[np.len() - 2] == (crc16_of(
                                np.take(np.len() - 2),
                            ) & 0xFF) as u8 && np[np.len() - 1] == ((crc16_of(
                                np.take(np.len() - 2),
                            ) >> 8) & 0xFF) as u8 {
                                &&& r matches Ok(Some(t)) && t@ == key
                                &&& v2 == v.update(
                                    i,
                                    RxEntry::Active(
                                        RxData {
                                            metadata: d.metadata,
                                            toggle: metadata.toggle_bit,
                                            payload: np.take(np.len() - 2),
                                        },
                                    ),
                                )
                            } else {
                                r == Err::<Option<RxToken>, UpdateTransferError>(
                                    UpdateTransferError::RxError(RxError::CrcError),
                                ) && v2 == v.remove(i)
                            }
                        },
                    },
                }
            }),
    {
        let key = fingerprint(&frame.metadata);
        match self.find_rx_index(key) {
            None => Err(UpdateTransferError::DoesNotExist),
            Some(i) => {
                proof {
                    lemma_rx_find_props(self.rx_view(), key);
                    self.lemma_view_keys();
                }
                let slot = self.rx_transfers.remove(i);
                let RxSlot { key: slot_key, state } = slot;
                match state {
                    TransferStatus::TimedOut => {
                        self.rx_transfers.insert(
                            i,
                            RxSlot { key: slot_key, state: TransferStatus::TimedOut },
                        );
                        proof {
                            assert(self.rx_transfers@ =~= old(self).rx_transfers@);
                            assert(self.rx_view() =~= old(self).rx_view());
                        }
                        Err(UpdateTransferError::TimedOut)
                    },
                    TransferStatus::Active(mut t) => {
                        if let Err(e) = Can::update_rx_metadata(
                            &mut t.transport_metadata,
                            metadata,
                            frame,
                        ) {
                            self.rx_transfers.insert(
                                i,
                                RxSlot { key: slot_key, state: TransferStatus::Active(t) },
                            );
                            proof {
                                assert(self.rx_transfers@ =~= old(self).rx_transfers@);
                                assert(self.rx_view() =~= old(self).rx_view());
                            }
                            return Err(UpdateTransferError::RxError(e));
                        }
                        t.payload.extend_from_slice(frame.payload.as_slice());
                        proof {
                            let v = old(self).rx_view();
                            let oslot = old(self).rx_transfers@[i as int];
                            assert(v[i as int] == rx_slot_view(oslot));
                            let d = v[i as int]->Active_0;
                            assert(t.payload@ == d.payload + frame.payload@);
                            assert(t.transfer_metadata == d.metadata);
                            assert(t.transport_metadata.toggle_bit == metadata.toggle_bit);
                        }
                        if !frame.last_frame {
                            self.rx_transfers.insert(
                                i,
                                RxSlot { key: slot_key, state: TransferStatus::Active(t) },
                            );
                            proof {
                                let slot2 = self.rx_transfers@[i as int];
                                assert(self.rx_transfers@ =~= old(self).rx_transfers@.update(
                                    i as int,
                                    slot2,
                                ));
                                lemma_rx_slots_replace(old(self).rx_transfers@, i as int, slot2);
                                let v = old(self).rx_view();
                                let d = v[i as int]->Active_0;
                                let oslot = old(self).rx_transfers@[i as int];
                                assert(v[i as int] == rx_slot_view(oslot));
                                let t0 = oslot.state->Active_0;
                                let t2 = slot2.state->Active_0;
                                assert(t2.transfer_metadata == t0.transfer_metadata);
                                assert(t2.payload@ == t0.payload@ + frame.payload@);
                                assert(t2.transport_metadata.toggle_bit == metadata.toggle_bit);
                                assert(rx_slot_view(slot2) == RxEntry::Active(
                                    RxData {
                                        metadata: d.metadata,
                                        toggle: metadata.toggle_bit,
                                        payload: d.payload + frame.payload@,
                                    },
                                ));
                                assert(self.rx_view() =~= v.update(
                                    i as int,
                                    rx_slot_view(slot2),
                                ));
                            }
                            return Ok(None);
                        }
                        // Completion: the reassembled payload of a
                        // multi-frame transfer ends in its CRC. Verify it,
                        // then strip it.
                        let total = t.payload.len();
                        if total < 2 {
                            proof {
                                assert(self.rx_view() =~= old(self).rx_view().remove(i as int));
                                lemma_rx_slots_remove(old(self).rx_transfers@, i as int);
                            }
                            return Err(UpdateTransferError::RxError(RxError::CrcError));
                        }
                        let crc = crc16_compute(&t.payload.as_slice()[0..total - 2]);
                        let lo = (crc & 0xFF) as u8;
                        let hi = ((crc >> 8) & 0xFF) as u8;
                        proof {
                            let d = old(self).rx_view()[i as int]->Active_0;
                            let np = d.payload + frame.payload@;
                            assert(t.payload@.subrange(0, total - 2) =~= np.take(np.len() - 2));
                        }
                        if t.payload[total - 2] != lo || t.payload[total - 1] != hi {
                            proof {
                                assert(self.rx_view() =~= old(self).rx_view().remove(i as int));
                                lemma_rx_slots_remove(old(self).rx_transfers@, i as int);
                            }
                            return Err(UpdateTransferError::RxError(RxError::CrcError));
                        }
                        t.payload.truncate(total - 2);
                        self.rx_transfers.insert(
                            i,
                            RxSlot { key: slot_key, state: TransferStatus::Active(t) },
                        );
                        proof {
                            let slot2 = self.rx_transfers@[i as int];
                            assert(self.rx_transfers@ =~= old(self).rx_transfers@.update(
                                i as int,
                                slot2,
                            ));
                            lemma_rx_slots_replace(old(self).rx_transfers@, i as int, slot2);
                            let v = old(self).rx_view();
                            let d = v[i as int]->Active_0;
                            let np = d.payload + frame.payload@;
                            let t2 = slot2.state->Active_0;
                            assert(t2.payload@ =~= np.take(np.len() - 2));
                            assert(rx_slot_view(slot2) == RxEntry::Active(
                                RxData {
                                    metadata: d.metadata,
                                    toggle: metadata.toggle_bit,
                                    payload: np.take(np.len() - 2),
                                },
                            ));
                            assert(self.rx_view() =~= v.update(i as int, rx_slot_view(slot2)));
                        }
                        Ok(Some(RxToken(key)))
                    },
                }
            },
        }
    }

    /// Opens a new inbound transfer from its first frame, after the caller
    /// has established that no stored transfer matches it. The frame's
    /// toggle seeds the stored alternation state, which the protocol
    /// demands be set on a start frame. Returns a completion token right
    /// away iff the frame is also the last (a single-frame transfer, whose
    /// payload carries no CRC on the wire).
    pub fn new_transfer(&mut self, frame: &Frame, metadata: FrameMetadata) -> (r: Result<
        Option<RxToken>,
        CreateTransferError,
    >)
        requires
            old(self).wf(),
            metadata_wf(frame.metadata),
        ensures
            final(self).wf(),
            final(self).tx_view() == old(self).tx_view(),
            ({
                let key = fingerprint_spec(frame.metadata);
                let v = old(self).rx_view();
                let v2 = final(self).rx_view();
                match rx_find(v, key) {
                    Some(_) => r == Err::<Option<RxToken>, CreateTransferError>(
                        CreateTransferError::AlreadyExists,
                    ) && v2 == v,
                    None => if !metadata.toggle_bit {
                        r == Err::<Option<RxToken>, CreateTransferError>(
                            CreateTransferError::RxError(RxError::InvalidFrameOrdering),
                        ) && v2 == v
                    } else {
                        &&& v2 == v.push(
                            RxEntry::Active(
                                RxData {
                                    metadata: frame.metadata,
                                    toggle: true,
                                    payload: frame.payload@,
                                },
                            ),
                        )
                        &&& frame.last_frame ==> (r matches Ok(Some(t)) && t@ == key)
                        &&& !frame.last_frame ==> r == Ok::<Option<RxToken>, CreateTransferError>(
                            None,
                        )
                    },
                }
            }),
    {
        let key = fingerprint(&frame.metadata);
        if let Some(_) = self.find_rx_index(key) {
            return Err(CreateTransferError::AlreadyExists);
        }
        let mut transport_metadata = RxMetadata::default();
        if let Err(e) = Can::update_rx_metadata(&mut transport_metadata, metadata, frame) {
            return Err(CreateTransferError::RxError(e));
        }
        let mut payload: Vec<u8> = Vec::new();
        payload.extend_from_slice(frame.payload.as_slice());
        proof {
            self.lemma_rx_absent_key(key);
        }
        self.rx_transfers.push(
            RxSlot {
                key,
                state: TransferStatus::Active(
                    RxTransfer {
                        transfer_metadata: frame.metadata,
                        transport_metadata,
                        payload,
                    },
                ),
            },
        );
        proof {
            let slot2 = self.rx_transfers@[self.rx_transfers@.len() - 1];
            lemma_rx_slots_push(old(self).rx_transfers@, slot2);
            let t2 = slot2.state->Active_0;
            assert(slot2.state is Active);
            assert(t2.transfer_metadata == frame.metadata);
            assert(t2.payload@ == frame.payload@);
            assert(t2.transport_metadata.toggle_bit == true);
            assert(rx_slot_view(slot2) == RxEntry::Active(
                RxData { metadata: frame.metadata, toggle: true, payload: frame.payload@ },
            ));
            assert(self.rx_view() =~= old(self).rx_view().push(rx_slot_view(slot2)));
        }
        if frame.last_frame {
            Ok(Some(RxToken(key)))
        } else {
            Ok(None)
        }
    }

    /// Creates an outbound transfer carrying `data`: allocates the on-wire
    /// buffer, appends the transfer CRC when the payload spans more than
    /// one frame, and stores the transfer with its cursor at zero. A
    /// transfer with the same fingerprint already in flight is refused
    /// with `AlreadyExists` — deduplication by transfer identity.
    pub fn create_transmission(&mut self, metadata: &TransferMetadata, data: &[u8]) -> (r: Result<
        TxToken,
        CreateTransferError,
    >)
        requires
            old(self).wf(),
            metadata_wf(*metadata),
            data@.len() + 2 <= usize::MAX,
        ensures
            final(self).wf(),
            final(self).rx_view() == old(self).rx_view(),
            ({
                let key = fingerprint_spec(*metadata);
                let v = old(self).tx_view();
                let v2 = final(self).tx_view();
                match tx_find(v, key) {
                    Some(_) => r == Err::<TxToken, CreateTransferError>(
                        CreateTransferError::AlreadyExists,
                    ) && v2 == v,
                    None => {
                        &&& r matches Ok(t) && t@ == key
                        &&& v2 == v.push(
                            TxEntry::Active(
                                TxData {
                                    metadata: *metadata,
                                    first_frame: true,
                                    toggle: true,
                                    consumed: 0,
                                    payload: wire_payload(data@),
                                },
                            ),
                        )
                    },
                }
            }),
    {
        let key = fingerprint(metadata);
        if let Some(_) = self.find_tx_index(key) {
            return Err(CreateTransferError::AlreadyExists);
        }
        // Build the on-wire payload: user data, then room for the CRC.
        let mut buf: Vec<u8> = Vec::new();
        buf.extend_from_slice(data);
        buf.push(0);
        buf.push(0);
        assert(buf@.take(data@.len() as int) =~= data@);
        let wire_len = Can::process_tx_crc(&mut buf, data.len());
        buf.truncate(wire_len);
        assert(buf@ =~= wire_payload(data@));
        proof {
            self.lemma_tx_absent_key(key);
        }
        self.tx_transfers.push(
            TxSlot {
                key,
                state: TransferStatus::Active(
                    TxTransfer {
                        transfer_metadata: *metadata,
                        transport_metadata: TxMetadata::default(),
                        consumed: 0,
                        payload: buf,
                    },
                ),
            },
        );
        proof {
            lemma_tx_slots_push(
                old(self).tx_transfers@,
                self.tx_transfers@[self.tx_transfers@.len() - 1],
            );
            assert(self.tx_view() =~= old(self).tx_view().push(
                tx_slot_view(self.tx_transfers@[self.tx_transfers@.len() - 1]),
            ));
        }
        Ok(TxToken(key))
    }

    /// Hands out the next frame of an outbound transfer: consults the
    /// codec on the payload bytes past the cursor, advances the cursor by
    /// what the codec consumed, and frees the entry once the payload is
    /// exhausted — `None` then comes back in place of the next token. On a
    /// codec error the stored transfer is left exactly as it was, cursor
    /// included, and the caller decides its fate. Access through a token
    /// whose transfer timed out reports that and reaps the entry.
    pub fn transmit(
        &mut self,
        token: TxToken,
        local_node_id: Option<NodeId>,
        timestamp: Timestamp,
    ) -> (r: Result<(CanFrame, Option<TxToken>), TransmitFrameError>)
        requires
            old(self).wf(),
            opt_node_id_valid(local_node_id),
        ensures
            final(self).wf(),
            final(self).rx_view() == old(self).rx_view(),
            ({
                let v = old(self).tx_view();
                let v2 = final(self).tx_view();
                match tx_find(v, token@) {
                    None => r == Err::<(CanFrame, Option<TxToken>), TransmitFrameError>(
                        TransmitFrameError::TokenError(TokenAccessError::InvalidToken),
                    ) && v2 == v,
                    Some(i) => match v[i] {
                        TxEntry::TimedOut(_) => r == Err::<
                            (CanFrame, Option<TxToken>),
                            TransmitFrameError,
                        >(TransmitFrameError::TokenError(TokenAccessError::TransferTimeout)) && v2
                            == v.remove(i),
                        TxEntry::Active(d) => {
                            let rem = d.payload.skip(d.consumed);
                            match tx_error_of(d.metadata, rem.len() as int, local_node_id) {
                                Some(e) => r == Err::<
                                    (CanFrame, Option<TxToken>),
                                    TransmitFrameError,
                                >(TransmitFrameError::TxError(e)) && v2 == v,
                                None => {
                                    let c2 = d.consumed + tx_consumed(rem.len() as int);
                                    &&& r matches Ok((frame, next)) && ({
                                        &&& frame.timestamp == timestamp
                                        &&& frame.id == tx_frame_id(d.metadata, local_node_id)
                                        &&& av_bytes(frame.payload) == tx_frame_bytes(
                                            rem,
                                            d.first_frame,
                                            d.toggle,
                                            d.metadata.transfer_id,
                                        )
                                        &&& can_frame_wf(frame)
                                        &&& (d.payload.len() > 0 ==> c2 > d.consumed)
                                        &&& if c2 == d.payload.len() {
                                            next is None && v2 == v.remove(i)
                                        } else {
                                            &&& next matches Some(t2) && t2@ == token@
                                            &&& v2 == v.update(
                                                i,
                                                TxEntry::Active(
                                                    TxData {
                                                        metadata: d.metadata,
                                                        first_frame: false,
                                                        toggle: !d.toggle,
                                                        consumed: c2,
                                                        payload: d.payload,
                                                    },
                                                ),
                                            )
                                        }
                                    })
                                },
                            }
                        },
                    },
                }
            }),
    {
        let key = token.0;
        match self.find_tx_index(key) {
            None => Err(TransmitFrameError::TokenError(TokenAccessError::InvalidToken)),
            Some(i) => {
                proof {
                    lemma_tx_find_props(self.tx_view(), key);
                    self.lemma_view_keys();
                }
                let slot = self.tx_transfers.remove(i);
                let TxSlot { key: slot_key, state } = slot;
                match state {
                    TransferStatus::TimedOut => {
                        proof {
                            assert(self.tx_view() =~= old(self).tx_view().remove(i as int));
                            lemma_tx_slots_remove(old(self).tx_transfers@, i as int);
                        }
                        Err(TransmitFrameError::TokenError(TokenAccessError::TransferTimeout))
                    },
                    TransferStatus::Active(mut t) => {
                        proof {
                            let v = old(self).tx_view();
                            let oslot = old(self).tx_transfers@[i as int];
                            assert(v[i as int] == tx_slot_view(oslot));
                        }
                        let (_, rem) = t.payload.as_slice().split_at(t.consumed);
                        assert(rem@ == old(self).tx_view()[i as int]->Active_0.payload.skip(
                            old(self).tx_view()[i as int]->Active_0.consumed,
                        ));
                        let res = Can::transmit_frame(
                            &t.transfer_metadata,
                            &mut t.transport_metadata,
                            rem,
                            local_node_id,
                            timestamp,
                        );
                        match res {
                            Err(e) => {
                                self.tx_transfers.insert(
                                    i,
                                    TxSlot { key: slot_key, state: TransferStatus::Active(t) },
                                );
                                proof {
                                    assert(self.tx_transfers@ =~= old(self).tx_transfers@);
                                    assert(self.tx_view() =~= old(self).tx_view());
                                }
                                Err(TransmitFrameError::TxError(e))
                            },
                            Ok((frame, consumed)) => {
                                let total = t.payload.len();
                                proof {
                                    assert(consumed <= rem@.len());
                                    assert(t.consumed + consumed <= total);
                                }
                                t.consumed = t.consumed + consumed;
                                if t.consumed >= t.payload.len() {
                                    proof {
                                        assert(self.tx_view() =~= old(self).tx_view().remove(
                                            i as int,
                                        ));
                                        lemma_tx_slots_remove(old(self).tx_transfers@, i as int);
                                    }
                                    Ok((frame, None))
                                } else {
                                    self.tx_transfers.insert(
                                        i,
                                        TxSlot { key: slot_key, state: TransferStatus::Active(t) },
                                    );
                                    proof {
                                        let slot2 = self.tx_transfers@[i as int];
                                        assert(self.tx_transfers@
                                            =~= old(self).tx_transfers@.update(i as int, slot2));
                                        lemma_tx_slots_replace(
                                            old(self).tx_transfers@,
                                            i as int,
                                            slot2,
                                        );
                                        let v = old(self).tx_view();
                                        let d = v[i as int]->Active_0;
                                        let t2 = slot2.state->Active_0;
                                        assert(tx_slot_view(slot2) == TxEntry::Active(
                                            TxData {
                                                metadata: d.metadata,
                                                first_frame: false,
                                                toggle: !d.toggle,
                                                consumed: d.consumed + tx_consumed(
                                                    d.payload.skip(d.consumed).len() as int,
                                                ),
                                                payload: d.payload,
                                            },
                                        ));
                                        assert(self.tx_view() =~= v.update(
                                            i as int,
                                            tx_slot_view(slot2),
                                        ));
                                    }
                                    Ok((frame, Some(token)))
                                }
                            },
                        }
                    },
                }
            },
        }
    }

    /// Housekeeping sweep over both stores: reaps the entries an earlier
    /// sweep already marked `TimedOut` (the host has had a full cycle to
    /// observe their fate through a token), then marks every active entry
    /// whose stored timestamp is older than `now - timeout`. No other
    /// transition is made: in particular nothing ever returns from
    /// `TimedOut` to active.
    pub fn update_transfers(&mut self, timestamp: Timestamp, timeout: Duration)
        requires
            old(self).wf(),
        ensures
            final(self).wf(),
            final(self).rx_view() == sweep_rx(old(self).rx_view(), timestamp, timeout),
            final(self).tx_view() == sweep_tx(old(self).tx_view(), timestamp, timeout),
    {
        let ghost orig_rx = old(self).rx_transfers@;
        let ghost vorig_rx = old(self).rx_view();
        let mut i: usize = 0;
        let ghost mut j: int = 0;
        while i < self.rx_transfers.len()
            invariant
                self.tx_transfers@ == old(self).tx_transfers@,
                0 <= j <= vorig_rx.len(),
                i <= self.rx_transfers@.len(),
                vorig_rx == rx_slots_view(orig_rx),
                vorig_rx.len() == orig_rx.len(),
                i as int == self.rx_transfers@.len() - (orig_rx.len() - j),
                rx_slots_view(self.rx_transfers@.take(i as int)) == sweep_rx(
                    vorig_rx.take(j),
                    timestamp,
                    timeout,
                ),
                self.rx_transfers@.skip(i as int) == orig_rx.skip(j),
                forall|k: int|
                    0 <= k < self.rx_transfers@.len() ==> rx_slot_wf(
                        #[trigger] self.rx_transfers@[k],
                    ),
                forall|k: int, l: int|
                    0 <= k < l < self.rx_transfers@.len() ==> (#[trigger] self.rx_transfers@[k]).key
                        != (#[trigger] self.rx_transfers@[l]).key,
            decreases orig_rx.len() - j,
        {
            proof {
                assert(self.rx_transfers@.skip(i as int)[0] == orig_rx.skip(j)[0]);
                assert(self.rx_transfers@[i as int] == orig_rx[j]);
                assert(vorig_rx[j] == rx_slot_view(orig_rx[j]));
                assert(vorig_rx.take(j + 1).drop_last() =~= vorig_rx.take(j));
                assert(vorig_rx.take(j + 1).last() == vorig_rx[j]);
                assert(sweep_rx(vorig_rx.take(j + 1), timestamp, timeout) == sweep_rx(
                    vorig_rx.take(j),
                    timestamp,
                    timeout,
                ) + sweep_rx_entry(vorig_rx[j], timestamp, timeout));
            }
            let action: u8 = match &self.rx_transfers[i].state {
                TransferStatus::TimedOut => 0,
                TransferStatus::Active(tr) => {
                    if timestamp_expired(timeout, timestamp, Some(tr.transfer_metadata.timestamp)) {
                        1
                    } else {
                        2
                    }
                },
            };
            if action == 0 {
                // Reap a tombstone from an earlier sweep.
                let ghost pre = self.rx_transfers@;
                self.rx_transfers.remove(i);
                proof {
                    lemma_rx_slots_remove(pre, i as int);
                    assert(self.rx_transfers@.take(i as int) =~= pre.take(i as int));
                    assert(pre.remove(i as int).skip(i as int) =~= pre.skip(i as int).skip(1));
                    assert(orig_rx.skip(j).skip(1) =~= orig_rx.skip(j + 1));
                    assert(self.rx_transfers@.skip(i as int) =~= orig_rx.skip(j + 1));
                    assert(sweep_rx_entry(vorig_rx[j], timestamp, timeout) == Seq::<
                        RxEntry,
                    >::empty());
                    assert(rx_slots_view(self.rx_transfers@.take(i as int)) =~= sweep_rx(
                        vorig_rx.take(j + 1),
                        timestamp,
                        timeout,
                    ));
                    j = j + 1;
                }
            } else if action == 1 {
                // Mark a newly expired transfer, freeing its buffer.
                let k = self.rx_transfers[i].key;
                let ghost pre = self.rx_transfers@;
                self.rx_transfers.remove(i);
                self.rx_transfers.insert(i, RxSlot { key: k, state: TransferStatus::TimedOut });
                proof {
                    let slot2 = self.rx_transfers@[i as int];
                    assert(self.rx_transfers@ =~= pre.update(i as int, slot2));
                    lemma_rx_slots_replace(pre, i as int, slot2);
                    assert(rx_slot_wf(pre[i as int]));
                    assert(sweep_rx_entry(vorig_rx[j], timestamp, timeout) == seq![
                        RxEntry::TimedOut(k),
                    ]);
                    assert(self.rx_transfers@.skip(i as int + 1) =~= pre.skip(i as int + 1));
                    assert(pre.skip(i as int + 1) =~= pre.skip(i as int).skip(1));
                    assert(orig_rx.skip(j).skip(1) =~= orig_rx.skip(j + 1));
                    assert(self.rx_transfers@.skip(i as int + 1) =~= orig_rx.skip(j + 1));
                    assert(rx_slots_view(self.rx_transfers@.take(i as int + 1)) =~= sweep_rx(
                        vorig_rx.take(j + 1),
                        timestamp,
                        timeout,
                    ));
                    j = j + 1;
                }
                i = i + 1;
            } else {
                // Fresh entry: keep it.
                proof {
                    assert(sweep_rx_entry(vorig_rx[j], timestamp, timeout) == seq![vorig_rx[j]]);
                    assert(self.rx_transfers@.skip(i as int + 1) =~= self.rx_transfers@.skip(
                        i as int,
                    ).skip(1));
                    assert(orig_rx.skip(j).skip(1) =~= orig_rx.skip(j + 1));
                    assert(self.rx_transfers@.skip(i as int + 1) =~= orig_rx.skip(j + 1));
                    assert(rx_slots_view(self.rx_transfers@.take(i as int + 1)) =~= sweep_rx(
                        vorig_rx.take(j + 1),
                        timestamp,
                        timeout,
                    ));
                    j = j + 1;
                }
                i = i + 1;
            }
        }
        proof {
            assert(orig_rx.skip(j).len() == 0);
            assert(j == vorig_rx.len());
            assert(vorig_rx.take(j) =~= vorig_rx);
            assert(self.rx_transfers@.take(i as int) =~= self.rx_transfers@);
        }
        let ghost rx_done = self.rx_transfers@;
        let ghost orig_tx = old(self).tx_transfers@;
        let ghost vorig_tx = old(self).tx_view();
        let mut i2: usize = 0;
        let ghost mut j2: int = 0;
        while i2 < self.tx_transfers.len()
            invariant
                self.rx_transfers@ == rx_done,
                rx_slots_view(rx_done) == sweep_rx(vorig_rx, timestamp, timeout),
                vorig_rx == rx_slots_view(orig_rx),
                forall|k: int|
                    0 <= k < self.rx_transfers@.len() ==> rx_slot_wf(
                        #[trigger] self.rx_transfers@[k],
                    ),
                forall|k: int, l: int|
                    0 <= k < l < self.rx_transfers@.len() ==> (#[trigger] self.rx_transfers@[k]).key
                        != (#[trigger] self.rx_transfers@[l]).key,
                0 <= j2 <= vorig_tx.len(),
                i2 <= self.tx_transfers@.len(),
                vorig_tx == tx_slots_view(orig_tx),
                vorig_tx.len() == orig_tx.len(),
                i2 as int == self.tx_transfers@.len() - (orig_tx.len() - j2),
                tx_slots_view(self.tx_transfers@.take(i2 as int)) == sweep_tx(
                    vorig_tx.take(j2),
                    timestamp,
                    timeout,
                ),
                self.tx_transfers@.skip(i2 as int) == orig_tx.skip(j2),
                forall|k: int|
                    0 <= k < self.tx_transfers@.len() ==> tx_slot_wf(
                        #[trigger] self.tx_transfers@[k],
                    ),
                forall|k: int, l: int|
                    0 <= k < l < self.tx_transfers@.len() ==> (#[trigger] self.tx_transfers@[k]).key
                        != (#[trigger] self.tx_transfers@[l]).key,
            decreases orig_tx.len() - j2,
        {
            proof {
                assert(self.tx_transfers@.skip(i2 as int)[0] == orig_tx.skip(j2)[0]);
                assert(self.tx_transfers@[i2 as int] == orig_tx[j2]);
                assert(vorig_tx[j2] == tx_slot_view(orig_tx[j2]));
                assert(vorig_tx.take(j2 + 1).drop_last() =~= vorig_tx.take(j2));
                assert(vorig_tx.take(j2 + 1).last() == vorig_tx[j2]);
                assert(sweep_tx(vorig_tx.take(j2 + 1), timestamp, timeout) == sweep_tx(
                    vorig_tx.take(j2),
                    timestamp,
                    timeout,
                ) + sweep_tx_entry(vorig_tx[j2], timestamp, timeout));
            }
            let action: u8 = match &self.tx_transfers[i2].state {
                TransferStatus::TimedOut => 0,
                TransferStatus::Active(tr) => {
                    if timestamp_expired(timeout, timestamp, Some(tr.transfer_metadata.timestamp)) {
                        1
                    } else {
                        2
                    }
                },
            };
            if action == 0 {
                let ghost pre = self.tx_transfers@;
                self.tx_transfers.remove(i2);
                proof {
                    lemma_tx_slots_remove(pre, i2 as int);
                    assert(self.tx_transfers@.take(i2 as int) =~= pre.take(i2 as int));
                    assert(pre.remove(i2 as int).skip(i2 as int) =~= pre.skip(i2 as int).skip(1));
                    assert(orig_tx.skip(j2).skip(1) =~= orig_tx.skip(j2 + 1));
                    assert(self.tx_transfers@.skip(i2 as int) =~= orig_tx.skip(j2 + 1));
                    assert(sweep_tx_entry(vorig_tx[j2], timestamp, timeout) == Seq::<
                        TxEntry,
                    >::empty());
                    assert(tx_slots_view(self.tx_transfers@.take(i2 as int)) =~= sweep_tx(
                        vorig_tx.take(j2 + 1),
                        timestamp,
                        timeout,
                    ));
                    j2 = j2 + 1;
                }
            } else if action == 1 {
                let k = self.tx_transfers[i2].key;
                let ghost pre = self.tx_transfers@;
                self.tx_transfers.remove(i2);
                self.tx_transfers.insert(i2, TxSlot { key: k, state: TransferStatus::TimedOut });
                proof {
                    let slot2 = self.tx_transfers@[i2 as int];
                    assert(self.tx_transfers@ =~= pre.update(i2 as int, slot2));
                    lemma_tx_slots_replace(pre, i2 as int, slot2);
                    assert(tx_slot_wf(pre[i2 as int]));
                    assert(sweep_tx_entry(vorig_tx[j2], timestamp, timeout) == seq![
                        TxEntry::TimedOut(k),
                    ]);
                    assert(self.tx_transfers@.skip(i2 as int + 1) =~= pre.skip(i2 as int + 1));
                    assert(pre.skip(i2 as int + 1) =~= pre.skip(i2 as int).skip(1));
                    assert(orig_tx.skip(j2).skip(1) =~= orig_tx.skip(j2 + 1));
                    assert(self.tx_transfers@.skip(i2 as int + 1) =~= orig_tx.skip(j2 + 1));
                    assert(tx_slots_view(self.tx_transfers@.take(i2 as int + 1)) =~= sweep_tx(
                        vorig_tx.take(j2 + 1),
                        timestamp,
                        timeout,
                    ));
                    j2 = j2 + 1;
                }
                i2 = i2 + 1;
            } else {
                proof {
                    assert(sweep_tx_entry(vorig_tx[j2], timestamp, timeout) == seq![vorig_tx[j2]]);
                    assert(self.tx_transfers@.skip(i2 as int + 1) =~= self.tx_transfers@.skip(
                        i2 as int,
                    ).skip(1));
                    assert(orig_tx.skip(j2).skip(1) =~= orig_tx.skip(j2 + 1));
                    assert(self.tx_transfers@.skip(i2 as int + 1) =~= orig_tx.skip(j2 + 1));
                    assert(tx_slots_view(self.tx_transfers@.take(i2 as int + 1)) =~= sweep_tx(
                        vorig_tx.take(j2 + 1),
                        timestamp,
                        timeout,
                    ));
                    j2 = j2 + 1;
                }
                i2 = i2 + 1;
            }
        }
        proof {
            assert(orig_tx.skip(j2).len() == 0);
            assert(j2 == vorig_tx.len());
            assert(vorig_tx.take(j2) =~= vorig_tx);
            assert(self.tx_transfers@.take(i2 as int) =~= self.tx_transfers@);
        }
    }

    /// A fresh manager with no transfers in flight.
    pub fn new() -> (r: Self)
        ensures
            r.wf(),
            r.rx_view() == Seq::<RxEntry>::empty(),
            r.tx_view() == Seq::<TxEntry>::empty(),
    {
        let r = Self { rx_transfers: Vec::new(), tx_transfers: Vec::new() };
        assert(r.rx_view() =~= Seq::<RxEntry>::empty());
        assert(r.tx_view() =~= Seq::<TxEntry>::empty());
        r
    }
}

} // verus!
