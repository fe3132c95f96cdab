//! The bundles that a node holds.

use vstd::prelude::*;

use crate::ident::Id;
use crate::routing::model::{bundle_views, Bundle, BundleView};
use crate::sequences::filter_all;

verus! {

/// Whether a bundle with a given identifier is among the bundles held.
pub open spec fn holds_id(held: Seq<BundleView>, id: Id) -> bool {
    exists|i: int| 0 <= i < held.len() && (#[trigger] held[i]).id == id
}

/// No two of the bundles held have one identifier.
pub open spec fn ids_distinct(held: Seq<BundleView>) -> bool {
    forall|i: int, j: int|
        0 <= i < held.len() && 0 <= j < held.len() && (#[trigger] held[i]).id == (
        #[trigger] held[j]).id ==> i == j
}

/// The bundle with a given identifier.
pub open spec fn lookup(held: Seq<BundleView>, id: Id) -> Option<BundleView> {
    if holds_id(held, id) {
        let place = choose|i: int| 0 <= i < held.len() && (#[trigger] held[i]).id == id;
        Some(held[place])
    } else {
        None
    }
}

/// What is held after a bundle was saved: it comes last, unless one with its
/// identifier is there already.
pub open spec fn saved(held: Seq<BundleView>, bundle: BundleView) -> Seq<BundleView> {
    if holds_id(held, bundle.id) {
        held
    } else {
        held.push(bundle)
    }
}

/// What is held after a bundle took the place of the one with its identifier.
pub open spec fn updated(held: Seq<BundleView>, bundle: BundleView) -> Seq<BundleView> {
    held.map_values(|other: BundleView| if other.id == bundle.id { bundle } else { other })
}

/// What is held after a bundle was saved or else took the place of the one with
/// its identifier.
pub open spec fn put(held: Seq<BundleView>, bundle: BundleView) -> Seq<BundleView> {
    if holds_id(held, bundle.id) {
        updated(held, bundle)
    } else {
        held.push(bundle)
    }
}

/// What is held after the bundle with a given identifier was deleted.
pub open spec fn deleted(held: Seq<BundleView>, id: Id) -> Seq<BundleView> {
    held.filter(|other: BundleView| other.id != id)
}

/// The bundles that a node holds, in the order in which they came.
#[derive(Debug)]
pub struct Storage {
    bundles: Vec<Bundle>,
}

impl View for Storage {
    type V = Seq<BundleView>;

    closed spec fn view(&self) -> Seq<BundleView> {
        bundle_views(self.bundles@)
    }
}

/// Deleting an identifier from bundles of which only the one at `at` has it
/// takes out that one.
pub proof fn deleted_removes_one(held: Seq<BundleView>, id: Id, at: int)
    requires
        0 <= at < held.len(),
        held[at].id == id,
        ids_distinct(held),
    ensures
        deleted(held, id) == held.remove(at),
{
    let keep = |other: BundleView| other.id != id;
    let before = held.take(at);
    let after = held.skip(at + 1);
    assert(held =~= before + seq![held[at]] + after);
    filter_all(before, keep);
    filter_all(after, keep);
    Seq::filter_distributes_over_add(before + seq![held[at]], after, keep);
    Seq::filter_distributes_over_add(before, seq![held[at]], keep);
    assert(seq![held[at]].filter(keep) =~= Seq::<BundleView>::empty()) by {
        reveal_with_fuel(Seq::filter, 2);
        assert(seq![held[at]].drop_last() =~= Seq::<BundleView>::empty());
    }
    assert(held.remove(at) =~= before + after);
}

/// A bundle with the identifier of one that was saved is held.
pub proof fn saved_is_held(held: Seq<BundleView>, bundle: BundleView)
    ensures
        holds_id(saved(held, bundle), bundle.id),
{
    if !holds_id(held, bundle.id) {
        assert(saved(held, bundle)[held.len() as int].id == bundle.id);
    }
}

impl Storage {
    /// No identifier occurs twice, and no bundle held carries an engine.
    pub closed spec fn wf(&self) -> bool {
        &&& ids_distinct(self@)
        &&& forall|i: int| 0 <= i < self.bundles@.len() ==> (#[trigger] self.bundles@[i]).is_detached()
    }

    /// A storage that holds nothing.
    pub fn new() -> (storage: Storage)
        ensures
            storage.wf(),
            storage@ == Seq::<BundleView>::empty(),
    {
        let storage = Storage { bundles: Vec::new() };
        assert(storage@ =~= Seq::<BundleView>::empty());
        storage
    }

    /// The bundles held.
    pub fn all(&self) -> (bundles: &Vec<Bundle>)
        requires
            self.wf(),
        ensures
            bundle_views(bundles@) == self@,
            ids_distinct(self@),
            forall|i: int| 0 <= i < bundles@.len() ==> (#[trigger] bundles@[i]).is_detached(),
    {
        &self.bundles
    }

    /// The place of the bundle with a given identifier.
    fn position(&self, id: Id) -> (place: Option<usize>)
        ensures
            match place {
                Some(i) => i < self@.len() && self@[i as int].id == id,
                None => !holds_id(self@, id),
            },
    {
        let mut i: usize = 0;
        while i < self.bundles.len()
            invariant
                i <= self.bundles@.len(),
                forall|j: int| 0 <= j < i ==> (#[trigger] self@[j]).id != id,
            decreases self.bundles@.len() - i,
        {
            if self.bundles[i].id == id {
                assert(self@[i as int].id == id);
                return Some(i);
            }
            i += 1;
        }
        None
    }

    /// Saves a copy of a bundle. It says whether the bundle was new; where one
    /// with its identifier is held, nothing changes.
    pub fn save_bundle(&mut self, bundle: &Bundle) -> (new: bool)
        requires
            old(self).wf(),
        ensures
            final(self).wf(),
            final(self)@ == saved(old(self)@, bundle@),
            new == !holds_id(old(self)@, bundle.id),
    {
        match self.position(bundle.id) {
            Some(i) => {
                assert(holds_id(self@, bundle.id)) by {
                    assert(self@[i as int].id == bundle.id);
                }
                false
            },
            None => {
                let copy = bundle.detached();
                self.bundles.push(copy);
                assert(self@ =~= old(self)@.push(bundle@));
                true
            },
        }
    }

    /// Puts a copy of a bundle in the place of the one with its identifier. It
    /// says whether there was one; where there is none, nothing changes.
    pub fn update_bundle(&mut self, bundle: &Bundle) -> (found: bool)
        requires
            old(self).wf(),
        ensures
            final(self).wf(),
            final(self)@ == updated(old(self)@, bundle@),
            found == holds_id(old(self)@, bundle.id),
    {
        match self.position(bundle.id) {
            Some(i) => {
                let copy = bundle.detached();
                self.bundles.set(i, copy);
                assert(old(self)@[i as int].id == bundle.id);
                assert(self@ =~= updated(old(self)@, bundle@));
                true
            },
            None => {
                assert(self@ =~= updated(old(self)@, bundle@));
                false
            },
        }
    }

    /// Deletes the bundle with a given identifier. It says whether there was one.
    pub fn delete_bundle(&mut self, id: Id) -> (found: bool)
        requires
            old(self).wf(),
        ensures
            final(self).wf(),
            final(self)@ == deleted(old(self)@, id),
            found == holds_id(old(self)@, id),
    {
        match self.position(id) {
            Some(i) => {
                let _ = self.bundles.remove(i);
                proof {
                    deleted_removes_one(old(self)@, id, i as int);
                    assert(self@ =~= old(self)@.remove(i as int));
                }
                true
            },
            None => {
                proof {
                    filter_all(self@, |other: BundleView| other.id != id);
                }
                false
            },
        }
    }
}

} // verus!
