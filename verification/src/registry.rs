//! The atomic holder of the current registry snapshot. Readers lease the
//! current snapshot without blocking; the dispatcher publishes fresh
//! snapshots by read-copy-update.
//!
//! The cell wraps `arc_swap::ArcSwap` and is the only place the library
//! touches it; every method below is a trusted wrapper around one call.

use vstd::prelude::*;

use crate::path::{ActorPath, ActorPathView};
use crate::store::{ActorRef, ActorStore};

use std::sync::Arc;

verus! {

/// The mapping held by the snapshot a cell currently stores.
pub uninterp spec fn cell_store(c: &RegistryCell) -> Map<ActorPathView, ActorRef>;

/// Atomically swappable pointer to the current [`ActorStore`] snapshot.
///
/// Its contents are modelled by [`cell_store`]; the wrappers state how each
/// arc-swap call reads or replaces the stored snapshot. Only well-formed
/// snapshots are ever stored, so leases promise well-formedness.
#[verifier::external_body]
pub struct RegistryCell {
    inner: Arc<arc_swap::ArcSwap<ActorStore>>,
}

impl RegistryCell {
    /// Relies on `arc_swap::ArcSwap::from_pointee`: the cell initially holds
    /// exactly the given snapshot.
    #[verifier::external_body]
    pub fn new(store: ActorStore) -> (r: RegistryCell)
        requires
            store.wf(),
        ensures
            cell_store(&r) == store@,
    {
        RegistryCell { inner: Arc::new(arc_swap::ArcSwap::from_pointee(store)) }
    }

    /// Relies on `arc_swap::ArcSwapAny::load`: returns the snapshot the cell
    /// holds at the moment of the load, which a concurrent publisher cannot
    /// invalidate. The copy is structural; its mapping is the cell's.
    #[verifier::external_body]
    pub fn lease(&self) -> (r: ActorStore)
        ensures
            r.wf(),
            r@ == cell_store(self),
    {
        self.inner.load().duplicate()
    }

    /// Relies on `arc_swap::ArcSwapAny::rcu`: replaces the held snapshot with
    /// the closure's result, retrying against concurrent publishers, so the
    /// re-checking insert is applied to the snapshot actually current. The
    /// closure only calls the verified [`ActorStore::cloned_insert_if_absent`].
    #[verifier::external_body]
    pub fn publish_insert(&mut self, actor: ActorRef, path: ActorPath)
        ensures
            cell_store(final(self)) == if cell_store(old(self)).contains_key(path@) {
                cell_store(old(self))
            } else {
                cell_store(old(self)).insert(path@, actor)
            },
    {
        self.inner.rcu(|cur: &Arc<ActorStore>| Arc::new(cur.cloned_insert_if_absent(&actor, &path)));
    }

    /// Relies on `arc_swap::ArcSwapAny::rcu`: replaces the held snapshot with
    /// the closure's result, retrying against concurrent publishers. The
    /// closure only calls the verified [`ActorStore::swept`], so the published
    /// snapshot is the current one without its dead entries.
    #[verifier::external_body]
    pub fn publish_swept(&mut self)
        ensures
            cell_store(final(self)) == crate::store::live_submap(cell_store(old(self))),
    {
        self.inner.rcu(|cur: &Arc<ActorStore>| Arc::new(cur.swept().0));
    }
}

} // verus!
