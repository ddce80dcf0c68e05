//! Per-connection synchronisation state machine.
//!
//! The session sequences the handshake, the index exchange and the active
//! change-propagation phase. It makes every protocol decision from plain
//! values; the surrounding process performs the sends, receives and waits
//! the decisions call for.

use crate::index::folder_index::FolderIndex;
use crate::messages::file_info::FileInfo;
use crate::messages::hello::HelloMessage;
use crate::messages::watcher::EventKind;
use vstd::prelude::*;

verus! {

/// States of one session, in the order a healthy connection passes them.
#[derive(Debug, PartialEq, Eq, Structural, Clone, Copy)]
pub enum SessionState {
    /// The transport connection is up; no stream opened yet.
    Connected,
    /// Our hello is on the wire; the peer's hello is awaited.
    AwaitingHello,
    /// Magic numbers agreed; the designated side may send its snapshot.
    HandshakeComplete,
    /// The snapshots have been exchanged.
    IndexExchanged,
    /// Transfers and change propagation run.
    Active,
    /// Terminal: reached on stream closure or on any fatal error.
    Closed,
}

/// Outcome of processing the peer's hello.
#[derive(Debug, PartialEq, Eq, Structural, Clone, Copy)]
pub enum HandshakeOutcome {
    /// The magic numbers agree and the session proceeds. A differing
    /// protocol-version string is not fatal: `version_warning` asks the
    /// caller to log a compatibility warning and continue.
    Accepted { version_warning: bool },
    /// The magic numbers differ: fatal for this connection, which must be
    /// torn down.
    Rejected,
}

/// Which side pushes one file's blocks.
#[derive(Debug, PartialEq, Eq, Structural, Clone, Copy)]
pub enum TransferDirection {
    /// The local copy is strictly newer: this side sends.
    Send,
    /// The remote copy is strictly newer: this side receives.
    Receive,
    /// Equal timestamps: no transfer for this file.
    NoTransfer,
}

/// What an active session does with one published change event.
#[derive(Debug, PartialEq, Eq, Structural, Clone, Copy)]
pub enum EventAction {
    /// Re-run indexing and comparison for the affected paths.
    ReindexPaths,
    /// Access-only events change no content: nothing to do.
    Ignore,
}


/// The transfer direction the timestamps demand: the strictly newer side
/// pushes; equal timestamps mean no transfer.
pub open spec fn spec_direction(local_modified: u64, remote_modified: u64) -> TransferDirection {
    if local_modified > remote_modified {
        TransferDirection::Send
    } else if local_modified < remote_modified {
        TransferDirection::Receive
    } else {
        TransferDirection::NoTransfer
    }
}

/// One per-file decision of the index comparison.
#[derive(Debug, PartialEq, Eq)]
pub struct TransferPlanEntry {
    pub path: String,
    pub direction: TransferDirection,
}

/// Whether some metadata entry in the sequence carries the given path.
pub open spec fn metas_have_path(s: Seq<FileInfo>, p: Seq<char>) -> bool {
    exists|i: int| 0 <= i < s.len() && s[i]@.path == p
}

/// A plan entry is justified: both sides hold its path, and its direction
/// is exactly what comparing their modification times demands.
pub open spec fn plan_entry_justified(
    local: Seq<FileInfo>,
    remote: Seq<FileInfo>,
    e: TransferPlanEntry,
) -> bool {
    exists|i: int, j: int|
        0 <= i < local.len() && 0 <= j < remote.len() && (#[trigger] local[i])@.path == e.path@
            && (#[trigger] remote[j])@.path == e.path@ && e.direction == spec_direction(
            local[i]@.last_modified,
            remote[j]@.last_modified,
        )
}

/// The metadata entry carrying the given path, if any.
fn find_meta<'a>(metas: &'a Vec<FileInfo>, path: &String) -> (r: Option<&'a FileInfo>)
    ensures
        match r {
            Some(f) => metas_have_path(metas@, path@) && f@.path == path@ && exists|j: int|
                0 <= j < metas@.len() && (#[trigger] metas@[j])@ == f@,
            None => !metas_have_path(metas@, path@),
        },
{
    let mut k: usize = 0;
    while k < metas.len()
        invariant
            k <= metas@.len(),
            forall|j: int| 0 <= j < k ==> (#[trigger] metas@[j])@.path != path@,
        decreases metas@.len() - k,
    {
        if metas[k].path == *path {
            proof {
                assert(metas@[k as int]@.path == path@);
            }
            return Some(&metas[k]);
        }
        k = k + 1;
    }
    None
}

/// One synchronisation session. Owns the decisions; never the wire.
pub struct SyncSession {
    pub state: SessionState,
    pub expected_magic: u32,
    pub local_name: String,
    pub local_version: String,
    pub listener: bool,
    pub remote_index: Option<FolderIndex>,
}

impl SyncSession {
    /// A fresh session for one accepted or dialled connection. The
    /// listening peer is the designated sender of the first snapshot.
    pub fn new(expected_magic: u32, local_name: String, local_version: String, listener: bool)
        -> (r: SyncSession)
        ensures
            r.state == SessionState::Connected,
            r.expected_magic == expected_magic,
            r.local_name@ == local_name@,
            r.local_version@ == local_version@,
            r.listener == listener,
            r.remote_index is None,
    {
        SyncSession {
            state: SessionState::Connected,
            expected_magic,
            local_name,
            local_version,
            listener,
            remote_index: None,
        }
    }

    /// The session's current state.
    pub fn state(&self) -> (r: SessionState)
        ensures
            r == self.state,
    {
        self.state
    }

    /// Whether this side is the designated sender of the first snapshot.
    pub fn is_listener(&self) -> (r: bool)
        ensures
            r == self.listener,
    {
        self.listener
    }

    /// Opens the session's stream: returns the hello to send to the peer
    /// and starts awaiting the peer's hello.
    pub fn start(&mut self) -> (hello: HelloMessage)
        requires
            old(self).state == SessionState::Connected,
        ensures
            final(self).state == SessionState::AwaitingHello,
            final(self).expected_magic == old(self).expected_magic,
            final(self).local_name == old(self).local_name,
            final(self).local_version == old(self).local_version,
            final(self).listener == old(self).listener,
            final(self).remote_index == old(self).remote_index,
            hello@.magic_number == old(self).expected_magic,
            hello@.name == old(self).local_name@,
            hello@.version == old(self).local_version@,
    {
        self.state = SessionState::AwaitingHello;
        HelloMessage::new(
            self.expected_magic,
            self.local_name.clone(),
            self.local_version.clone(),
        )
    }

    /// Processes the peer's hello. A magic-number mismatch is a fatal
    /// protocol error and closes the session; a differing version string is
    /// only a warning and the handshake completes.
    pub fn on_hello(&mut self, peer: &HelloMessage) -> (r: HandshakeOutcome)
        requires
            old(self).state == SessionState::AwaitingHello,
        ensures
            final(self).expected_magic == old(self).expected_magic,
            final(self).local_name == old(self).local_name,
            final(self).local_version == old(self).local_version,
            final(self).listener == old(self).listener,
            final(self).remote_index == old(self).remote_index,
            peer@.magic_number == old(self).expected_magic ==> {
                &&& final(self).state == SessionState::HandshakeComplete
                &&& r == (HandshakeOutcome::Accepted {
                    version_warning: peer@.version != old(self).local_version@,
                })
            },
            peer@.magic_number != old(self).expected_magic ==> {
                &&& final(self).state == SessionState::Closed
                &&& r == HandshakeOutcome::Rejected
            },
    {
        if peer.magic_number() == self.expected_magic {
            self.state = SessionState::HandshakeComplete;
            let version_warning = !(peer.version == self.local_version);
            HandshakeOutcome::Accepted { version_warning }
        } else {
            self.state = SessionState::Closed;
            HandshakeOutcome::Rejected
        }
    }

    /// Stores the snapshot received from the peer and completes the index
    /// exchange.
    pub fn on_index(&mut self, idx: FolderIndex)
        requires
            old(self).state == SessionState::HandshakeComplete,
        ensures
            final(self).state == SessionState::IndexExchanged,
            final(self).remote_index matches Some(stored) && stored@ == idx@,
            final(self).expected_magic == old(self).expected_magic,
            final(self).local_name == old(self).local_name,
            final(self).local_version == old(self).local_version,
            final(self).listener == old(self).listener,
    {
        self.remote_index = Some(idx);
        self.state = SessionState::IndexExchanged;
    }

    /// Enters the active phase once the per-file transfer decisions have
    /// been taken.
    pub fn activate(&mut self)
        requires
            old(self).state == SessionState::IndexExchanged,
        ensures
            final(self).state == SessionState::Active,
            final(self).expected_magic == old(self).expected_magic,
            final(self).local_name == old(self).local_name,
            final(self).local_version == old(self).local_version,
            final(self).listener == old(self).listener,
            final(self).remote_index == old(self).remote_index,
    {
        self.state = SessionState::Active;
    }

    /// Closes the session: reached on stream closure from either side or on
    /// a fatal error in any state.
    pub fn close(&mut self)
        ensures
            final(self).state == SessionState::Closed,
            final(self).expected_magic == old(self).expected_magic,
            final(self).local_name == old(self).local_name,
            final(self).local_version == old(self).local_version,
            final(self).listener == old(self).listener,
            final(self).remote_index == old(self).remote_index,
    {
        self.state = SessionState::Closed;
    }


    /// Compares the two sides' file metadata: for every local file the
    /// remote side also holds, decides which side pushes that file's
    /// blocks from the modification times. Files only one side holds get
    /// no decision.
    pub fn plan_transfers(local: &Vec<FileInfo>, remote: &Vec<FileInfo>) -> (r: Vec<
        TransferPlanEntry,
    >)
        ensures
            forall|k: int|
                0 <= k < r@.len() ==> plan_entry_justified(local@, remote@, #[trigger] r@[k]),
            forall|i: int|
                0 <= i < local@.len() && metas_have_path(remote@, (#[trigger] local@[i])@.path)
                    ==> exists|k: int| 0 <= k < r@.len() && (#[trigger] r@[k]).path@
                    == local@[i]@.path,
    {
        let mut r: Vec<TransferPlanEntry> = Vec::new();
        let mut i: usize = 0;
        while i < local.len()
            invariant
                i <= local@.len(),
                forall|k: int|
                    0 <= k < r@.len() ==> plan_entry_justified(local@, remote@, #[trigger] r@[k]),
                forall|j: int|
                    0 <= j < i && metas_have_path(remote@, (#[trigger] local@[j])@.path)
                        ==> exists|k: int| 0 <= k < r@.len() && (#[trigger] r@[k]).path@
                        == local@[j]@.path,
            decreases local@.len() - i,
        {
            let ghost r_pre = r@;
            match find_meta(remote, &local[i].path) {
                Some(found) => {
                    let direction = SyncSession::transfer_direction(
                        local[i].last_modified,
                        found.last_modified,
                    );
                    let entry = TransferPlanEntry { path: local[i].path.clone(), direction };
                    r.push(entry);
                    proof {
                        let j = choose|j: int|
                            0 <= j < remote@.len() && (#[trigger] remote@[j])@ == found@;
                        assert(plan_entry_justified(local@, remote@, r@[r@.len() - 1])) by {
                            assert(local@[i as int]@.path == r@[r@.len() - 1].path@);
                            assert(remote@[j]@.path == r@[r@.len() - 1].path@);
                        }
                        assert(forall|k: int| 0 <= k < r_pre.len() ==> r@[k] == r_pre[k]);
                    }
                },
                None => {},
            }
            i = i + 1;
        }
        r
    }

    /// Decides what a change event requires while the session is active:
    /// an access-only event changes no content and is ignored; every other
    /// kind re-runs indexing and comparison for the affected paths.
    pub fn on_change_event(&self, kind: EventKind) -> (r: EventAction)
        requires
            self.state == SessionState::Active,
        ensures
            r == (match kind {
                EventKind::Access(detail) => EventAction::Ignore,
                _ => EventAction::ReindexPaths,
            }),
    {
        match kind {
            EventKind::Access(detail) => EventAction::Ignore,
            _ => EventAction::ReindexPaths,
        }
    }

    /// Decides the transfer direction for one file present in both the
    /// local and the remote index, from its two modification times: the
    /// strictly newer side pushes; equal timestamps mean no transfer.
    pub fn transfer_direction(local_modified: u64, remote_modified: u64) -> (r:
        TransferDirection)
        ensures
            local_modified > remote_modified ==> r == TransferDirection::Send,
            local_modified < remote_modified ==> r == TransferDirection::Receive,
            local_modified == remote_modified ==> r == TransferDirection::NoTransfer,
    {
        if local_modified > remote_modified {
            TransferDirection::Send
        } else if local_modified < remote_modified {
            TransferDirection::Receive
        } else {
            TransferDirection::NoTransfer
        }
    }
}

} // verus!
