//! Plain protocol-level value types shared by every transport.

use vstd::prelude::*;

verus! {

/// Node identifier: 7 bits on CAN, so valid values are `0..=127`.
/// A node without an identifier is "anonymous" and is represented as
/// `Option::<NodeId>::None` throughout the crate.
pub type NodeId = u8;

/// Port identifier: the subject id of a message, or the service id of a
/// request/response. Validity bounds are transport-specific.
pub type PortId = u16;

/// Modular transfer counter: 5 bits on CAN, so valid values are `0..=31`.
pub type TransferId = u8;

/// A monotonic instant, counted in ticks of the host's clock.
pub type Timestamp = u64;

/// A span of time, counted in the same ticks as [`Timestamp`].
pub type Duration = u64;

/// A node identifier fits in the 7 bits the wire offers.
pub open spec fn node_id_valid(id: NodeId) -> bool {
    id < 128
}

/// An optional node identifier is absent or in range.
pub open spec fn opt_node_id_valid(id: Option<NodeId>) -> bool {
    match id {
        Some(n) => node_id_valid(n),
        None => true,
    }
}

/// A transfer identifier fits in the 5 bits of the tail byte.
pub open spec fn transfer_id_valid(id: TransferId) -> bool {
    id < 32
}

} // verus!
