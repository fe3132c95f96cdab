//! Acknowledgements.

use vstd::prelude::*;

use crate::ident::{is_random_id, new_v4, Id};
use crate::routing::model::{Bundle, BundleKind, BundleKindView, BundleView, MsgStatus};
use crate::time::{is_clock_reading, utc_now, Timestamp};

verus! {

/// The acknowledgement of a bundle: it goes the opposite way, lives as long as
/// the bundle did, and names it.
pub open spec fn ack_of(delivered: BundleView, id: Id, timestamp: Timestamp) -> BundleView {
    BundleView {
        id,
        source: delivered.destination,
        destination: delivered.source,
        timestamp,
        ttl: delivered.ttl,
        kind: BundleKindView::Ack { ack_bundle_id: delivered.id },
        shipment_status: MsgStatus::Pending,
    }
}

impl Bundle {
    /// The acknowledgement of a delivered bundle, with a random identifier and
    /// the present time.
    pub fn new_ack(delivered_bundle: &Bundle) -> (ack: Self)
        ensures
            ack@ == ack_of(delivered_bundle@, ack.id, ack.timestamp),
            is_random_id(ack.id),
            is_clock_reading(ack.timestamp),
            ack.is_detached(),
    {
        let id: Id = new_v4();
        Self::assemble_ack(delivered_bundle, id, utc_now())
    }

    /// The acknowledgement of a delivered bundle, with the given identifier and
    /// time.
    pub fn assemble_ack(delivered_bundle: &Bundle, id: Id, timestamp: Timestamp) -> (ack: Self)
        ensures
            ack@ == ack_of(delivered_bundle@, id, timestamp),
            ack.is_detached(),
    {
        Bundle {
            id,
            source: delivered_bundle.destination.detached(),
            destination: delivered_bundle.source.detached(),
            timestamp,
            ttl: delivered_bundle.ttl,
            kind: BundleKind::Ack { ack_bundle_id: delivered_bundle.id },
            shipment_status: MsgStatus::Pending,
        }
    }
}

} // verus!
