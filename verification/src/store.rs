//! The single shared slot holding the current snapshot.
//!
//! The store always holds exactly one complete snapshot. One producer
//! replaces it atomically; any number of concurrent readers take
//! non-blocking reads, and a reader already holding a snapshot keeps a
//! complete view of it. Only well-formed snapshots enter the store —
//! the constructor and `publish` demand it — so every read yields a
//! well-formed snapshot: its fingerprint and injected markup belong to
//! its own parsed sections, never a mix of two generations.

use crate::pipeline::prepared_wf;
use crate::pipeline::PreparedContent;
use vstd::prelude::*;

verus! {

/// The one mutable shared slot of the system.
#[verifier::external_body]
pub struct ContentStore {
    inner: arc_swap::ArcSwap<PreparedContent>,
}

impl ContentStore {
    /// Creates the store holding its first snapshot.
    ///
    /// Relies on `arc_swap::ArcSwapAny::from_pointee` (arc-swap): the
    /// store starts out holding exactly the given value.
    #[verifier::external_body]
    pub fn new(initial: PreparedContent) -> (s: ContentStore)
        requires
            prepared_wf(initial@),
    {
        ContentStore { inner: arc_swap::ArcSwap::from_pointee(initial) }
    }

    /// A non-blocking read of the current snapshot.
    ///
    /// Relies on `arc_swap::ArcSwapAny::load_full` (arc-swap): an
    /// atomic read that yields one complete value previously passed to
    /// the constructor or to `publish`, never a torn mix of two. Both
    /// of those demand a well-formed snapshot, so the value read here
    /// is well formed.
    #[verifier::external_body]
    pub fn current(&self) -> (r: PreparedContent)
        ensures
            prepared_wf(r@),
    {
        PreparedContent::clone(&self.inner.load_full())
    }

    /// Atomically replaces the current snapshot. Readers already
    /// holding the prior snapshot keep a complete view of it.
    ///
    /// Relies on `arc_swap::ArcSwapAny::store` (arc-swap): an atomic
    /// replacement of the stored value. Reads taken as full clones of
    /// the reference (`load_full`, as `current` does) hold plain
    /// references, so the replacement never waits on them and they
    /// never wait on it.
    #[verifier::external_body]
    pub fn publish(&self, snapshot: PreparedContent)
        requires
            prepared_wf(snapshot@),
    {
        self.inner.store(std::sync::Arc::new(snapshot));
    }
}

} // verus!
