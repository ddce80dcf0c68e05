//! Change publisher: holds the single authoritative folder-index snapshot
//! for a watched root and lets every session observe the latest one.
//!
//! This is a last-write-wins broadcast: a slow subscriber that misses
//! intermediate snapshots only ever observes the most recent one, never a
//! queue of historical snapshots. That is sound because each snapshot is a
//! complete state, not a delta.

use crate::index::folder_index::FolderIndex;
use vstd::prelude::*;

verus! {

/// The current snapshot and a counter that rises with every replacement.
/// The first snapshot carries version 1, so a fresh subscription sees it.
pub struct ChangePublisher {
    pub snapshot: FolderIndex,
    pub version: u64,
}

/// A subscriber's cursor: the newest version it has observed.
#[derive(Debug, PartialEq, Eq, Structural, Clone, Copy)]
pub struct Subscription {
    pub last_seen: u64,
}

impl ChangePublisher {
    /// Publishes the first snapshot.
    pub fn new(initial: FolderIndex) -> (r: ChangePublisher)
        ensures
            r.snapshot@ == initial@,
            r.version == 1,
    {
        ChangePublisher { snapshot: initial, version: 1 }
    }

    /// Replaces the current snapshot and wakes every subscriber: after the
    /// call, every poll against an older cursor yields the new snapshot.
    pub fn publish(&mut self, new_snapshot: FolderIndex)
        requires
            old(self).version < u64::MAX,
        ensures
            final(self).snapshot@ == new_snapshot@,
            final(self).version == old(self).version + 1,
    {
        self.snapshot = new_snapshot;
        self.version = self.version + 1;
    }

    /// The current snapshot.
    pub fn current(&self) -> (r: &FolderIndex)
        ensures
            r@ == self.snapshot@,
    {
        &self.snapshot
    }

    /// A fresh cursor that has seen nothing yet, so its first poll yields
    /// the current snapshot.
    pub fn subscribe(&self) -> (r: Subscription)
        ensures
            r.last_seen == 0,
    {
        Subscription { last_seen: 0 }
    }

    /// Yields the latest snapshot exactly when one newer than the cursor's
    /// last observation has been published, and advances the cursor to it.
    /// A subscriber can never observe anything but the single most recent
    /// snapshot.
    pub fn poll(&self, sub: &mut Subscription) -> (r: Option<&FolderIndex>)
        ensures
            old(sub).last_seen < self.version ==> {
                &&& r matches Some(s) && s@ == self.snapshot@
                &&& final(sub).last_seen == self.version
            },
            old(sub).last_seen >= self.version ==> r is None && *final(sub) == *old(sub),
    {
        if sub.last_seen < self.version {
            sub.last_seen = self.version;
            Some(&self.snapshot)
        } else {
            None
        }
    }
}

} // verus!
