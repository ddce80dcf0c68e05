use folder_sync::index::folder_index::FolderIndex;
use folder_sync::publisher::ChangePublisher;
use folder_sync::messages::watcher::{AccessKind, CreateKind, EventKind};
use folder_sync::messages::file_info::FileInfo;
use folder_sync::session::{
    EventAction, HandshakeOutcome, SessionState, SyncSession, TransferDirection,
    TransferPlanEntry,
};

const MAGIC: u32 = 0x17E434F;

fn peer(name: &str, magic: u32, version: &str, listener: bool) -> SyncSession {
    SyncSession::new(magic, name.to_string(), version.to_string(), listener)
}

#[test]
fn magic_mismatch_terminates_the_connection() {
    let mut alice = peer("alice", MAGIC, "1.0.0", true);
    let mut bob = peer("bob", MAGIC + 1, "1.0.0", false);

    let alice_hello = alice.start();
    let bob_hello = bob.start();

    assert_eq!(alice.on_hello(&bob_hello), HandshakeOutcome::Rejected);
    assert_eq!(alice.state(), SessionState::Closed);
    assert_eq!(bob.on_hello(&alice_hello), HandshakeOutcome::Rejected);
    assert_eq!(bob.state(), SessionState::Closed);
}

#[test]
fn version_mismatch_is_only_a_warning() {
    let mut alice = peer("alice", MAGIC, "1.0.0", true);
    let mut bob = peer("bob", MAGIC, "2.0.0", false);

    let alice_hello = alice.start();
    let bob_hello = bob.start();

    assert_eq!(
        alice.on_hello(&bob_hello),
        HandshakeOutcome::Accepted { version_warning: true }
    );
    assert_eq!(alice.state(), SessionState::HandshakeComplete);
    assert_eq!(
        bob.on_hello(&alice_hello),
        HandshakeOutcome::Accepted { version_warning: true }
    );
    assert_eq!(bob.state(), SessionState::HandshakeComplete);
}

#[test]
fn matching_peers_complete_the_whole_exchange() {
    let mut alice = peer("alice", MAGIC, "1.0.0", true);
    let mut bob = peer("bob", MAGIC, "1.0.0", false);

    let alice_hello = alice.start();
    let bob_hello = bob.start();

    assert_eq!(
        alice.on_hello(&bob_hello),
        HandshakeOutcome::Accepted { version_warning: false }
    );
    assert_eq!(
        bob.on_hello(&alice_hello),
        HandshakeOutcome::Accepted { version_warning: false }
    );

    // The listening peer sends its snapshot; the other stores it.
    assert!(alice.is_listener());
    bob.on_index(FolderIndex::with_entires(vec![]));
    assert_eq!(bob.state(), SessionState::IndexExchanged);

    bob.activate();
    assert_eq!(bob.state(), SessionState::Active);

    bob.close();
    assert_eq!(bob.state(), SessionState::Closed);
}

#[test]
fn access_only_events_are_ignored_while_active() {
    let mut session = peer("alice", MAGIC, "1.0.0", true);
    let hello = session.start();
    session.on_hello(&hello);
    session.on_index(FolderIndex::with_entires(vec![]));
    session.activate();
    assert_eq!(
        session.on_change_event(EventKind::Access(AccessKind::Read)),
        EventAction::Ignore
    );
    assert_eq!(
        session.on_change_event(EventKind::Create(CreateKind::File)),
        EventAction::ReindexPaths
    );
}

#[test]
fn strictly_newer_side_sends() {
    assert_eq!(SyncSession::transfer_direction(10, 5), TransferDirection::Send);
    assert_eq!(SyncSession::transfer_direction(5, 10), TransferDirection::Receive);
    assert_eq!(SyncSession::transfer_direction(7, 7), TransferDirection::NoTransfer);
}

#[test]
fn subscribers_only_ever_observe_the_latest_snapshot() {
    let mut publisher = ChangePublisher::new(FolderIndex::with_entires(vec![]));
    let mut sub = publisher.subscribe();

    // A fresh subscription sees the current snapshot once.
    assert!(publisher.poll(&mut sub).is_some());
    assert!(publisher.poll(&mut sub).is_none());

    // Two publishes while the subscriber is away: it observes only the
    // newest state, exactly once.
    publisher.publish(FolderIndex::with_entires(vec![]));
    publisher.publish(FolderIndex::with_entires(vec![]));
    assert!(publisher.poll(&mut sub).is_some());
    assert!(publisher.poll(&mut sub).is_none());
}

fn meta(path: &str, modified: u64) -> FileInfo {
    FileInfo::new(path.to_string(), 1, 1, 128 * 1024, modified)
}

#[test]
fn plan_covers_exactly_the_shared_files() {
    let local = vec![meta("a", 10), meta("b", 5), meta("only_local", 1)];
    let remote = vec![meta("b", 9), meta("a", 3), meta("only_remote", 8)];
    let plan = SyncSession::plan_transfers(&local, &remote);
    assert_eq!(
        plan,
        vec![
            TransferPlanEntry { path: "a".to_string(), direction: TransferDirection::Send },
            TransferPlanEntry { path: "b".to_string(), direction: TransferDirection::Receive },
        ]
    );

    // Equal timestamps: no transfer for that file.
    let plan = SyncSession::plan_transfers(&vec![meta("c", 4)], &vec![meta("c", 4)]);
    assert_eq!(
        plan,
        vec![TransferPlanEntry {
            path: "c".to_string(),
            direction: TransferDirection::NoTransfer,
        }]
    );
}
