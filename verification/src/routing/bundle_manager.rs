//! What a node does with the bundles it holds.

use vstd::prelude::*;

use crate::ident::Id;
use crate::routing::model::{bundle_views, Bundle, BundleKind, BundleKindView, BundleView, MsgStatus};
use crate::routing::storage::{deleted, holds_id, put, saved, updated, Storage};

verus! {

/// The bundles of one node.
#[derive(Debug)]
pub struct BundleManager {
    pub node_id: Id,
    pub name: String,
    pub storage: Storage,
}

/// An acknowledgement as it stands after a node received it: delivered at the
/// node that it is for, unchanged elsewhere.
pub open spec fn received_ack(ack: BundleView, node_id: Id) -> BundleView {
    if ack.kind is Ack && ack.destination.id == node_id {
        ack.with_status(MsgStatus::Delivered)
    } else {
        ack
    }
}

/// What a node holds after it received an acknowledgement: the bundle that it
/// names is gone, and the acknowledgement, if held, is held as received.
pub open spec fn after_ack(held: Seq<BundleView>, ack: BundleView, node_id: Id) -> Seq<BundleView> {
    match ack.kind {
        BundleKindView::Ack { ack_bundle_id } => {
            if ack.destination.id == node_id {
                updated(deleted(held, ack_bundle_id), received_ack(ack, node_id))
            } else {
                deleted(held, ack_bundle_id)
            }
        },
        _ => held,
    }
}

impl View for BundleManager {
    type V = Seq<BundleView>;

    open spec fn view(&self) -> Seq<BundleView> {
        self.storage@
    }
}

impl BundleManager {
    /// The storage is as it should be.
    pub open spec fn wf(&self) -> bool {
        self.storage.wf()
    }

    /// The same node, whatever it holds.
    pub open spec fn same_node(&self, other: &BundleManager) -> bool {
        self.node_id == other.node_id && self.name == other.name
    }

    /// The manager of a node that holds nothing yet.
    pub fn new(node_id: Id, name: String) -> (manager: BundleManager)
        ensures
            manager.wf(),
            manager.node_id == node_id,
            manager.name == name,
            manager@ == Seq::<BundleView>::empty(),
    {
        BundleManager { node_id, name, storage: Storage::new() }
    }

    /// The bundles held.
    pub fn all(&self) -> (bundles: &Vec<Bundle>)
        requires
            self.wf(),
        ensures
            bundle_views(bundles@) == self@,
            forall|i: int| 0 <= i < bundles@.len() ==> (#[trigger] bundles@[i]).is_detached(),
    {
        self.storage.all()
    }

    /// Copies of the bundles held.
    pub fn get_bundles_from_node(&self) -> (bundles: Vec<Bundle>)
        requires
            self.wf(),
        ensures
            bundle_views(bundles@) == self@,
            forall|i: int| 0 <= i < bundles@.len() ==> (#[trigger] bundles@[i]).is_detached(),
    {
        let held = self.storage.all();
        let mut bundles: Vec<Bundle> = Vec::new();
        let mut i: usize = 0;
        while i < held.len()
            invariant
                i <= held@.len(),
                bundle_views(held@) == self@,
                bundles@.len() == i,
                forall|j: int| 0 <= j < i ==> (#[trigger] bundles@[j])@ == held@[j]@,
                forall|j: int| 0 <= j < i ==> (#[trigger] bundles@[j]).is_detached(),
            decreases held@.len() - i,
        {
            bundles.push(held[i].detached());
            i += 1;
        }
        assert(bundle_views(bundles@) =~= bundle_views(held@));
        bundles
    }

    /// Saves a bundle, if it is new, and says whether it was.
    pub fn save_bundle(&mut self, bundle: &Bundle) -> (new: bool)
        requires
            old(self).wf(),
        ensures
            final(self).wf(),
            final(self).same_node(old(self)),
            final(self)@ == saved(old(self)@, bundle@),
            new == !holds_id(old(self)@, bundle.id),
    {
        self.storage.save_bundle(bundle)
    }

    /// Replaces the bundle with the identifier of this one, if there is one, and
    /// says whether there was.
    pub fn update_bundle(&mut self, bundle: &Bundle) -> (found: bool)
        requires
            old(self).wf(),
        ensures
            final(self).wf(),
            final(self).same_node(old(self)),
            final(self)@ == updated(old(self)@, bundle@),
            found == holds_id(old(self)@, bundle.id),
    {
        self.storage.update_bundle(bundle)
    }

    /// Saves a bundle, or replaces the one with its identifier.
    pub fn put_bundle(&mut self, bundle: &Bundle)
        requires
            old(self).wf(),
        ensures
            final(self).wf(),
            final(self).same_node(old(self)),
            final(self)@ == put(old(self)@, bundle@),
    {
        if !self.save_bundle(bundle) {
            let _ = self.update_bundle(bundle);
        }
    }

    /// Deletes the bundle with a given identifier and says whether there was one.
    pub fn delete_bundle(&mut self, id: Id) -> (found: bool)
        requires
            old(self).wf(),
        ensures
            final(self).wf(),
            final(self).same_node(old(self)),
            final(self)@ == deleted(old(self)@, id),
            found == holds_id(old(self)@, id),
    {
        self.storage.delete_bundle(id)
    }

    /// Takes in an acknowledgement. The bundle that it names was delivered and
    /// leaves the storage. At the node that it is for, the acknowledgement itself
    /// is then delivered.
    pub fn handle_incoming_ack(&mut self, ack: &mut Bundle)
        requires
            old(self).wf(),
        ensures
            final(self).wf(),
            final(self).same_node(old(self)),
            final(self)@ == after_ack(old(self)@, old(ack)@, old(self).node_id),
            final(ack)@ == received_ack(old(ack)@, old(self).node_id),
            final(ack).differs_in_status(old(ack)),
    {
        let acknowledged: Option<Id> = match &ack.kind {
            BundleKind::Ack { ack_bundle_id } => Some(*ack_bundle_id),
            _ => None,
        };
        if let Some(id) = acknowledged {
            let _ = self.delete_bundle(id);
            if self.node_id == ack.destination.id {
                ack.shipment_status = MsgStatus::Delivered;
                let _ = self.update_bundle(ack);
            }
        }
    }
}

} // verus!
