use cloud_p2p::directory::{DirectoryServiceState, ImageInfo, RequestStatus, UserEntry, UserStatus};
use cloud_p2p::errors::ServiceError;

fn s(t: &str) -> String {
    t.to_string()
}

fn fresh() -> DirectoryServiceState {
    DirectoryServiceState::new(30, s("dir1"))
}

#[test]
fn register_then_heartbeat_keeps_user_online() {
    let mut state = fresh();
    assert!(state.register_user(s("alice"), s("10.0.0.1:9001"), Vec::new(), 100).is_ok());
    assert!(state.update_heartbeat(&s("alice"), 110).is_ok());
    let u = state.query_user(&s("alice")).expect("alice registered");
    assert_eq!(u.status, UserStatus::Online);
    assert_eq!(u.last_heartbeat, 110);
    assert_eq!(u.p2p_address, s("10.0.0.1:9001"));
}

#[test]
fn heartbeat_for_unknown_user_fails_not_found() {
    let mut state = fresh();
    assert_eq!(state.update_heartbeat(&s("ghost"), 5), Err(ServiceError::NotFound));
}

#[test]
fn sweep_flips_stale_member_offline_and_spares_fresh_one() {
    let mut state = fresh();
    state.register_user(s("alice"), s("a:1"), Vec::new(), 0).unwrap();
    state.register_user(s("bob"), s("b:1"), Vec::new(), 0).unwrap();
    state.update_heartbeat(&s("alice"), 20).unwrap();
    // At 45 alice's heartbeat (20) is 25 old: inside the 30 window.
    // Bob's (0) is 45 old: flipped.
    state.cleanup_inactive_users(45);
    assert_eq!(state.query_user(&s("alice")).unwrap().status, UserStatus::Online);
    assert_eq!(state.query_user(&s("bob")).unwrap().status, UserStatus::Offline);
}

#[test]
fn unregister_marks_offline_and_keeps_entry() {
    let mut state = fresh();
    state.register_user(s("alice"), s("a:1"), Vec::new(), 0).unwrap();
    assert!(state.unregister_user(&s("alice")).is_ok());
    let u = state.query_user(&s("alice")).expect("entries are never deleted");
    assert_eq!(u.status, UserStatus::Offline);
    assert_eq!(state.unregister_user(&s("ghost")), Err(ServiceError::NotFound));
}

#[test]
fn online_peers_exclude_asker_offline_and_stale() {
    let mut state = fresh();
    state.register_user(s("alice"), s("a:1"), Vec::new(), 100).unwrap();
    state.register_user(s("bob"), s("b:1"), Vec::new(), 100).unwrap();
    state.register_user(s("carol"), s("c:1"), Vec::new(), 10).unwrap();
    state.register_user(s("dave"), s("d:1"), Vec::new(), 100).unwrap();
    state.unregister_user(&s("dave")).unwrap();
    // At 120: alice asks; bob is fresh, carol stale (110 > 30), dave offline.
    let peers = state.get_online_peers(&s("alice"), 120);
    assert_eq!(peers.len(), 1);
    assert_eq!(peers[0].username, s("bob"));
    let all = state.get_all_peers(&s("alice"));
    assert_eq!(all.len(), 3);
}

#[test]
fn update_shared_images_replaces_wholesale() {
    let mut state = fresh();
    state.register_user(s("alice"), s("a:1"), Vec::new(), 0).unwrap();
    let imgs = vec![ImageInfo {
        image_id: s("img1"),
        image_name: s("one.png"),
        thumbnail_path: None,
    }];
    assert!(state.update_shared_images(&s("alice"), imgs).is_ok());
    let u = state.query_user(&s("alice")).unwrap();
    assert_eq!(u.shared_images.len(), 1);
    assert_eq!(u.shared_images[0].image_id, s("img1"));
    assert_eq!(
        state.update_shared_images(&s("ghost"), Vec::new()),
        Err(ServiceError::NotFound)
    );
}

#[test]
fn leave_request_then_target_sees_exactly_one_pending_entry() {
    let mut state = fresh();
    let id = state
        .leave_request(s("bob"), s("alice"), s("img1"), 3, 50)
        .expect("leaving a request always succeeds");
    assert_eq!(id.len(), 36);
    let pending = state.get_pending_requests_for_user(&s("alice"));
    assert_eq!(pending.len(), 1);
    assert_eq!(pending[0].request_id, id);
    assert_eq!(pending[0].from_user, s("bob"));
    assert_eq!(pending[0].image_id, s("img1"));
    assert_eq!(pending[0].requested_views, 3);
    assert_eq!(pending[0].status, RequestStatus::Pending);
    // The requester sees nothing yet: the request is not answered.
    assert!(state.get_notifications_for_user(&s("bob")).is_empty());
}

#[test]
fn respond_requires_the_target() {
    let mut state = fresh();
    let id = state.leave_request(s("bob"), s("alice"), s("img1"), 3, 0).unwrap();
    assert!(matches!(
        state.respond_to_request(&id, &s("mallory"), true),
        Err(ServiceError::Unauthorized)
    ));
    assert!(matches!(
        state.respond_to_request(&s("no-such-id"), &s("alice"), true),
        Err(ServiceError::NotFound)
    ));
    let done = state.respond_to_request(&id, &s("alice"), true).unwrap();
    assert_eq!(done.status, RequestStatus::Accepted);
    // Answered: no longer pending toward alice, now a notification for bob.
    assert!(state.get_pending_requests_for_user(&s("alice")).is_empty());
    let notes = state.get_notifications_for_user(&s("bob"));
    assert_eq!(notes.len(), 1);
    assert_eq!(notes[0].status, RequestStatus::Accepted);
}

#[test]
fn a_terminal_status_is_set_exactly_once() {
    let mut state = fresh();
    let id = state.leave_request(s("bob"), s("alice"), s("img1"), 3, 0).unwrap();
    let done = state.respond_to_request(&id, &s("alice"), true).unwrap();
    assert_eq!(done.status, RequestStatus::Accepted);
    // The request is answered: it is no longer among the answerable ones,
    // so a second answer — even by the target — changes nothing.
    assert!(matches!(
        state.respond_to_request(&id, &s("alice"), false),
        Err(ServiceError::NotFound)
    ));
    let notes = state.get_notifications_for_user(&s("bob"));
    assert_eq!(notes.len(), 1);
    assert_eq!(notes[0].status, RequestStatus::Accepted);
}

#[test]
fn reject_becomes_a_rejected_notification() {
    let mut state = fresh();
    let id = state.leave_request(s("bob"), s("alice"), s("img1"), 3, 0).unwrap();
    let done = state.respond_to_request(&id, &s("alice"), false).unwrap();
    assert_eq!(done.status, RequestStatus::Rejected);
    let notes = state.get_notifications_for_user(&s("bob"));
    assert_eq!(notes.len(), 1);
    assert_eq!(notes[0].status, RequestStatus::Rejected);
}

#[test]
fn unregister_purges_notifications_and_requests_toward_the_leaver() {
    let mut state = fresh();
    state.register_user(s("bob"), s("b:1"), Vec::new(), 0).unwrap();
    // A finished request bob made: his notification.
    let id1 = state.leave_request(s("bob"), s("alice"), s("img1"), 3, 0).unwrap();
    state.respond_to_request(&id1, &s("alice"), true).unwrap();
    // A request still pending toward bob.
    state.leave_request(s("carol"), s("bob"), s("img2"), 1, 0).unwrap();
    assert_eq!(state.get_notifications_for_user(&s("bob")).len(), 1);
    assert_eq!(state.get_pending_requests_for_user(&s("bob")).len(), 1);
    state.unregister_user(&s("bob")).unwrap();
    assert!(state.get_notifications_for_user(&s("bob")).is_empty());
    assert!(state.get_pending_requests_for_user(&s("bob")).is_empty());
}

#[test]
fn pending_update_is_collected_exactly_once() {
    let mut state = fresh();
    let bytes = vec![9u8, 8, 7];
    let key = state.store_pending_permission_update(
        &s("alice"),
        &s("bob"),
        &s("img1"),
        0,
        Some(bytes.clone()),
        40,
    );
    assert_eq!(key, s("alice:bob:img1"));
    let updates = state.get_and_clear_pending_updates(&s("bob"));
    assert_eq!(updates.len(), 1);
    assert_eq!(updates[0].new_quota, 0);
    assert_eq!(updates[0].embedded_image, Some(bytes));
    assert_eq!(updates[0].from_owner, s("alice"));
    // Pull-and-clear: the second pull finds nothing.
    assert!(state.get_and_clear_pending_updates(&s("bob")).is_empty());
}

#[test]
fn reissuing_an_update_overwrites_the_unconsumed_one() {
    let mut state = fresh();
    state.store_pending_permission_update(&s("alice"), &s("bob"), &s("img1"), 5, None, 1);
    state.store_pending_permission_update(&s("alice"), &s("bob"), &s("img1"), 2, None, 2);
    // A different key is a different entry.
    state.store_pending_permission_update(&s("alice"), &s("bob"), &s("img2"), 7, None, 3);
    let updates = state.get_and_clear_pending_updates(&s("bob"));
    assert_eq!(updates.len(), 2);
    let for_img1 = updates.iter().find(|u| u.image_id == s("img1")).unwrap();
    assert_eq!(for_img1.new_quota, 2);
}

#[test]
fn updates_for_other_users_stay_queued() {
    let mut state = fresh();
    state.store_pending_permission_update(&s("alice"), &s("bob"), &s("img1"), 1, None, 0);
    state.store_pending_permission_update(&s("alice"), &s("carol"), &s("img1"), 2, None, 0);
    let for_bob = state.get_and_clear_pending_updates(&s("bob"));
    assert_eq!(for_bob.len(), 1);
    let for_carol = state.get_and_clear_pending_updates(&s("carol"));
    assert_eq!(for_carol.len(), 1);
    assert_eq!(for_carol[0].new_quota, 2);
}

fn entry(name: &str, addr: &str, hb: u64, status: UserStatus) -> UserEntry {
    UserEntry {
        username: s(name),
        p2p_address: s(addr),
        last_heartbeat: hb,
        status,
        shared_images: Vec::new(),
    }
}

#[test]
fn sync_keeps_the_newer_record() {
    let mut state = fresh();
    state.register_user(s("alice"), s("old:1"), Vec::new(), 50).unwrap();
    state.register_user(s("bob"), s("b:1"), Vec::new(), 80).unwrap();
    let incoming = vec![
        entry("alice", "new:1", 90, UserStatus::Online),
        entry("bob", "stale:1", 10, UserStatus::Offline),
        entry("carol", "c:1", 70, UserStatus::Online),
    ];
    state.receive_state_sync(incoming);
    // Alice: incoming heartbeat 90 > 50, adopted.
    assert_eq!(state.query_user(&s("alice")).unwrap().p2p_address, s("new:1"));
    // Bob: incoming heartbeat 10 < 80, kept.
    assert_eq!(state.query_user(&s("bob")).unwrap().p2p_address, s("b:1"));
    // Carol: unknown locally, adopted.
    assert_eq!(state.query_user(&s("carol")).unwrap().p2p_address, s("c:1"));
}

#[test]
fn syncing_the_same_snapshot_twice_changes_nothing() {
    let mut state = fresh();
    state.register_user(s("alice"), s("a:1"), Vec::new(), 50).unwrap();
    let snapshot = vec![entry("alice", "peer:1", 90, UserStatus::Online)];
    state.receive_state_sync(snapshot.clone());
    let after_first = state.get_full_state();
    state.receive_state_sync(snapshot);
    let after_second = state.get_full_state();
    assert_eq!(after_first.len(), after_second.len());
    for (a, b) in after_first.iter().zip(after_second.iter()) {
        assert_eq!(a.username, b.username);
        assert_eq!(a.p2p_address, b.p2p_address);
        assert_eq!(a.last_heartbeat, b.last_heartbeat);
        assert_eq!(a.status, b.status);
    }
}

#[test]
fn merge_is_order_independent_for_distinct_timestamps() {
    let a = vec![entry("x", "from-a:1", 90, UserStatus::Online)];
    let b = vec![entry("x", "from-b:1", 70, UserStatus::Online)];

    let mut first = fresh();
    first.register_user(s("x"), s("local:1"), Vec::new(), 10).unwrap();
    first.receive_state_sync(a.clone());
    first.receive_state_sync(b.clone());

    let mut second = fresh();
    second.register_user(s("x"), s("local:1"), Vec::new(), 10).unwrap();
    second.receive_state_sync(b);
    second.receive_state_sync(a);

    assert_eq!(
        first.query_user(&s("x")).unwrap().p2p_address,
        second.query_user(&s("x")).unwrap().p2p_address
    );
    assert_eq!(first.query_user(&s("x")).unwrap().p2p_address, s("from-a:1"));
}

#[test]
fn installed_snapshot_forces_everyone_offline() {
    let mut state = fresh();
    let members = vec![
        entry("alice", "a:1", 50, UserStatus::Online),
        entry("bob", "b:1", 60, UserStatus::Online),
    ];
    state.install_snapshot(members, Vec::new(), Vec::new());
    assert_eq!(state.query_user(&s("alice")).unwrap().status, UserStatus::Offline);
    assert_eq!(state.query_user(&s("bob")).unwrap().status, UserStatus::Offline);
    // Heartbeats survive the forced status so replication merges stay sane.
    assert_eq!(state.query_user(&s("alice")).unwrap().last_heartbeat, 50);
}

#[test]
fn register_overwrites_an_existing_entry() {
    let mut state = fresh();
    state.register_user(s("alice"), s("old:1"), Vec::new(), 10).unwrap();
    state.register_user(s("alice"), s("new:1"), Vec::new(), 20).unwrap();
    let u = state.query_user(&s("alice")).unwrap();
    assert_eq!(u.p2p_address, s("new:1"));
    assert_eq!(u.last_heartbeat, 20);
    assert_eq!(state.get_full_state().len(), 1);
}
