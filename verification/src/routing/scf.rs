//! Store, carry and forward: what a node keeps while it waits for a contact.

use vstd::prelude::*;

use crate::ident::Id;
use crate::routing::bundle_manager::BundleManager;
use crate::routing::model::{Bundle, BundleView, MsgStatus};
use crate::routing::storage::saved;
use crate::sequences::{filter_all, filter_of_filter, filters_agree, push_members};
use crate::time::{elapsed_seconds, is_clock_reading, utc_now, Timestamp};

verus! {

/// Whether a bundle that is held is to be dropped: it is older, in whole seconds,
/// than its time to live.
pub open spec fn overdue_at(bundle: BundleView, now: Timestamp) -> bool {
    elapsed_seconds(now, bundle.timestamp) > bundle.ttl
}

/// What is held once the overdue bundles were dropped.
pub open spec fn without_overdue(held: Seq<BundleView>, now: Timestamp) -> Seq<BundleView> {
    held.filter(|bundle: BundleView| !overdue_at(bundle, now))
}

/// Whether an identifier is that of an overdue bundle.
spec fn names_overdue(held: Seq<BundleView>, now: Timestamp, id: Id) -> bool {
    exists|j: int| 0 <= j < held.len() && overdue_at(held[j], now) && (#[trigger] held[j]).id == id
}

/// Keeps a bundle for which there is no next hop: it is pending again and, unless
/// one with its identifier is held, is stored.
pub fn store(bundle: &mut Bundle, bundle_manager: &mut BundleManager)
    requires
        old(bundle_manager).wf(),
    ensures
        final(bundle_manager).wf(),
        final(bundle_manager).same_node(old(bundle_manager)),
        final(bundle).differs_in_status(old(bundle)),
        final(bundle).shipment_status == MsgStatus::Pending,
        final(bundle_manager)@ == saved(
            old(bundle_manager)@,
            old(bundle)@.with_status(MsgStatus::Pending),
        ),
{
    bundle.shipment_status = MsgStatus::Pending;
    let _ = bundle_manager.storage.save_bundle(bundle);
}

/// Drops the bundles that are overdue now.
pub fn drop_expired_bundles(bundle_manager: &mut BundleManager)
    requires
        old(bundle_manager).wf(),
    ensures
        final(bundle_manager).wf(),
        final(bundle_manager).same_node(old(bundle_manager)),
        exists|now: Timestamp|
            is_clock_reading(now) && final(bundle_manager)@ == #[trigger] without_overdue(
                old(bundle_manager)@,
                now,
            ),
{
    let now = utc_now();
    drop_expired_bundles_at(bundle_manager, now);
}

/// Drops the bundles that are overdue at a given moment.
pub fn drop_expired_bundles_at(bundle_manager: &mut BundleManager, now: Timestamp)
    requires
        old(bundle_manager).wf(),
    ensures
        final(bundle_manager).wf(),
        final(bundle_manager).same_node(old(bundle_manager)),
        final(bundle_manager)@ == without_overdue(old(bundle_manager)@, now),
{
    let ghost held = bundle_manager@;
    let mut expired: Vec<Id> = Vec::new();
    let bundles = bundle_manager.storage.all();
    let mut i: usize = 0;
    while i < bundles.len()
        invariant
            i <= bundles@.len(),
            bundles@.len() == held.len(),
            forall|j: int| 0 <= j < held.len() ==> #[trigger] held[j] == bundles@[j]@,
            forall|j: int| 0 <= j < i && overdue_at(held[j], now) ==> expired@.contains(
                (#[trigger] held[j]).id,
            ),
            forall|k: int|
                0 <= k < expired@.len() ==> names_overdue(
                    held.take(i as int),
                    now,
                    #[trigger] expired@[k],
                ),
        decreases bundles@.len() - i,
    {
        let ghost before = expired@;
        assert(held[i as int] == bundles@[i as int]@);
        assert forall|id: Id| names_overdue(held.take(i as int), now, id) implies names_overdue(
            held.take(i + 1),
            now,
            id,
        ) by {
            let seen = held.take(i as int);
            let j = choose|j: int|
                0 <= j < seen.len() && overdue_at(seen[j], now) && (#[trigger] seen[j]).id == id;
            assert(held.take(i + 1)[j] == seen[j]);
        }
        if bundles[i].is_expired_at(now) {
            expired.push(bundles[i].id);
            assert(held.take(i + 1)[i as int] == held[i as int]);
            assert forall|j: int| 0 <= j < i + 1 && overdue_at(held[j], now) implies expired@.contains(
                (#[trigger] held[j]).id,
            ) by {
                push_members(before, held[i as int].id, held[j].id);
            }
        }
        i += 1;
    }

    let ghost ids = expired@;
    assert(held == bundle_manager@);
    let ghost initial = *bundle_manager;
    let mut k: usize = 0;
    proof {
        filter_all(held, |bundle: BundleView| !ids.take(0).contains(bundle.id));
    }
    while k < expired.len()
        invariant
            k <= expired@.len(),
            ids == expired@,
            bundle_manager.wf(),
            bundle_manager.same_node(&initial),
            bundle_manager@ == held.filter(
                |bundle: BundleView| !ids.take(k as int).contains(bundle.id),
            ),
        decreases expired@.len() - k,
    {
        let id: Id = expired[k];
        let _ = bundle_manager.delete_bundle(id);
        proof {
            let first = |bundle: BundleView| !ids.take(k as int).contains(bundle.id);
            let second = |bundle: BundleView| bundle.id != id;
            let both = |bundle: BundleView| !ids.take(k + 1).contains(bundle.id);
            assert forall|j: int| 0 <= j < held.len() implies #[trigger] both(held[j]) == (first(
                held[j],
            ) && second(held[j])) by {
                assert(ids.take(k + 1) =~= ids.take(k as int).push(id));
                push_members(ids.take(k as int), id, held[j].id);
            }
            filter_of_filter(held, first, second, both);
        }
        k += 1;
    }
    proof {
        assert(ids.take(k as int) =~= ids);
        let kept = |bundle: BundleView| !ids.contains(bundle.id);
        let wanted = |bundle: BundleView| !overdue_at(bundle, now);
        assert forall|j: int| 0 <= j < held.len() implies kept(#[trigger] held[j]) == wanted(
            held[j],
        ) by {
            if ids.contains(held[j].id) {
                let m = choose|m: int| 0 <= m < ids.len() && ids[m] == held[j].id;
                assert(held.take(i as int) =~= held);
                assert(names_overdue(held, now, ids[m]));
            }
        }
        filters_agree(held, kept, wanted);
    }
}

} // verus!
