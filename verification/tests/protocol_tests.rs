use cloud_p2p::api::{
    request_status_label, status_label, to_notification_info, to_peer_info, to_request_info,
    ApiResponse,
};
use cloud_p2p::directory::{
    DirectoryServiceState, ImageInfo, PendingPermissionUpdate, PendingRequest, RequestStatus,
    UserEntry, UserStatus,
};
use cloud_p2p::errors::ServiceError;
use cloud_p2p::fanout::{classify_bulk_reply, first_success, heartbeat_outcome, BulkServiceReply};
use cloud_p2p::framing::{encode_frame, encode_frame64, parse_frame_len, parse_frame_len64};
use cloud_p2p::messages::{handle_directory_message, DirectoryMessage};
use cloud_p2p::store::{is_image_extension, ImageMetadata, PeerImageStore};
use cloud_p2p::transfer::{
    deliver_file_name, extract_image_response, extract_list_response, extract_thumbnail_response,
    image_request, is_self_probe, remote_update_target, update_permissions_authorized, P2PMessage,
};
use cloud_p2p::workflow::{
    accept_grant_after_deliver, accept_grant_after_fetch, accept_grant_start, age_bucket,
    may_accept, pending_update_action, remote_update_step, AgeUnit, GrantStep, RemoteUpdateStep,
    UpdateAction,
};

fn s(t: &str) -> String {
    t.to_string()
}

// ---------------------------------------------------------------------------
// Framing
// ---------------------------------------------------------------------------

#[test]
fn frame_prefixes_body_with_big_endian_length() {
    let body = vec![1u8, 2, 3];
    let framed = encode_frame(&body).unwrap();
    assert_eq!(framed, vec![0u8, 0, 0, 3, 1, 2, 3]);
    let header: Vec<u8> = framed[..4].to_vec();
    assert_eq!(parse_frame_len(&header).unwrap(), 3);
}

#[test]
fn frame_round_trips_a_large_length() {
    let body = vec![0u8; 70000];
    let framed = encode_frame(&body).unwrap();
    assert_eq!(framed.len(), 70004);
    assert_eq!(&framed[..4], &[0u8, 1, 0x11, 0x70]);
    assert_eq!(parse_frame_len(&framed).unwrap(), 70000);
}

#[test]
fn short_header_is_a_framing_violation() {
    let header = vec![0u8, 0];
    assert_eq!(parse_frame_len(&header), Err(ServiceError::DecodeFailure));
    assert_eq!(parse_frame_len64(&header), Err(ServiceError::DecodeFailure));
}

#[test]
fn bulk_frame_uses_eight_byte_length() {
    let body = vec![5u8, 6];
    let framed = encode_frame64(&body);
    assert_eq!(framed, vec![0u8, 0, 0, 0, 0, 0, 0, 2, 5, 6]);
    assert_eq!(parse_frame_len64(&framed).unwrap(), 2);
}

// ---------------------------------------------------------------------------
// Fan-out and the bulk service's retry signals
// ---------------------------------------------------------------------------

#[test]
fn first_success_takes_the_first_answer() {
    let mut responses = vec![
        None,
        Some(DirectoryMessage::HeartbeatResponse { success: true }),
        Some(DirectoryMessage::HeartbeatResponse { success: false }),
    ];
    let r = first_success(&mut responses).expect("one replica answered");
    assert!(matches!(r, DirectoryMessage::HeartbeatResponse { success: true }));
}

#[test]
fn first_success_fails_only_when_every_replica_failed() {
    let mut responses: Vec<Option<DirectoryMessage>> = vec![None, None, None];
    assert!(first_success(&mut responses).is_none());
    let mut empty: Vec<Option<DirectoryMessage>> = Vec::new();
    assert!(first_success(&mut empty).is_none());
}

#[test]
fn bulk_reply_not_leader_carries_the_hint() {
    let reply = b"NOT_LEADER:10.0.0.7:7000".to_vec();
    match classify_bulk_reply(reply) {
        BulkServiceReply::NotLeader { hint } => assert_eq!(hint, b"10.0.0.7:7000".to_vec()),
        other => panic!("expected NotLeader, got {:?}", other),
    }
}

#[test]
fn bulk_reply_no_leader_means_retry_later() {
    let reply = b"NO_LEADER: election in progress".to_vec();
    assert!(matches!(classify_bulk_reply(reply), BulkServiceReply::NoLeader));
}

#[test]
fn bulk_reply_anything_else_is_the_processed_bytes() {
    let reply = vec![0x89u8, 0x50, 0x4e, 0x47];
    match classify_bulk_reply(reply.clone()) {
        BulkServiceReply::Processed { data } => assert_eq!(data, reply),
        other => panic!("expected Processed, got {:?}", other),
    }
}

#[test]
fn heartbeat_failures_soft_disconnect_at_three() {
    assert_eq!(heartbeat_outcome(0, false), (1, false));
    assert_eq!(heartbeat_outcome(1, false), (2, false));
    assert_eq!(heartbeat_outcome(2, false), (0, true));
    assert_eq!(heartbeat_outcome(2, true), (0, false));
}

// ---------------------------------------------------------------------------
// The peer catalog
// ---------------------------------------------------------------------------

fn meta(id: &str, owner: &str) -> ImageMetadata {
    ImageMetadata {
        image_id: s(id),
        image_name: s(id),
        owner: s(owner),
        description: None,
        file_size_kb: 12,
    }
}

#[test]
fn catalog_add_get_remove() {
    let mut store = PeerImageStore::new();
    assert!(store.get_received_images_dir().is_none());
    store.set_received_images_dir(s("/data/received"));
    assert_eq!(store.get_received_images_dir(), Some(&s("/data/received")));

    store.add_image(s("img1"), s("/data/img1.png"), meta("img1", "alice"));
    store.add_image(s("img2"), s("/data/img2.png"), meta("img2", "alice"));
    assert_eq!(store.get_image_path(&s("img1")), Some(&s("/data/img1.png")));
    assert_eq!(store.get_image_path(&s("nope")), None);
    assert_eq!(store.get_all_metadata().len(), 2);

    store.remove_image(&s("img1"));
    assert_eq!(store.get_image_path(&s("img1")), None);
    assert_eq!(store.get_all_metadata().len(), 1);
}

#[test]
fn only_image_extensions_are_advertised() {
    assert!(is_image_extension(&s("png")));
    assert!(is_image_extension(&s("jpg")));
    assert!(is_image_extension(&s("jpeg")));
    assert!(!is_image_extension(&s("gif")));
    assert!(!is_image_extension(&s("PNG")));
    assert!(!is_image_extension(&s("")));
}

#[test]
fn catalog_add_replaces_same_identifier() {
    let mut store = PeerImageStore::new();
    store.add_image(s("img1"), s("/old.png"), meta("img1", "alice"));
    store.add_image(s("img1"), s("/new.png"), meta("img1", "alice"));
    assert_eq!(store.get_image_path(&s("img1")), Some(&s("/new.png")));
    assert_eq!(store.get_all_metadata().len(), 1);
}

// ---------------------------------------------------------------------------
// Transfer protocol decisions
// ---------------------------------------------------------------------------

#[test]
fn delivered_content_gets_a_deterministic_name() {
    assert_eq!(deliver_file_name(&s("alice"), &s("img1")), s("from_alice_img1"));
}

#[test]
fn remote_update_is_only_for_the_named_user() {
    assert_eq!(
        remote_update_target(&s("alice"), &s("img1"), &s("bob"), &s("carol")),
        Err(ServiceError::NotFound)
    );
    assert_eq!(
        remote_update_target(&s("alice"), &s("img1"), &s("bob"), &s("bob")),
        Ok(s("from_alice_img1"))
    );
}

#[test]
fn only_the_owner_may_rewrite_quotas_directly() {
    assert!(update_permissions_authorized(&s("alice"), &s("alice")));
    assert!(!update_permissions_authorized(&s("mallory"), &s("alice")));
}

#[test]
fn fetch_for_a_requester_is_made_in_their_name() {
    let msg = image_request(&s("bob"), &s("img1"), 3);
    match msg {
        P2PMessage::ImageRequest { requesting_user, image_id, requested_views } => {
            assert_eq!(requesting_user, s("bob"));
            assert_eq!(image_id, s("img1"));
            assert_eq!(requested_views, 3);
        },
        other => panic!("expected ImageRequest, got {:?}", other),
    }
}

#[test]
fn image_response_extraction() {
    let ok = P2PMessage::ImageResponse {
        success: true,
        message: s("granted"),
        encrypted_image: Some(vec![1, 2]),
    };
    assert_eq!(extract_image_response(ok), Ok(vec![1, 2]));
    let denied = P2PMessage::ImageResponse {
        success: false,
        message: s("revoked"),
        encrypted_image: None,
    };
    assert_eq!(extract_image_response(denied), Err(ServiceError::Unauthorized));
    let wrong = P2PMessage::ListImages { requesting_user: s("bob") };
    assert_eq!(extract_image_response(wrong), Err(ServiceError::DecodeFailure));
}

#[test]
fn list_and_thumbnail_extraction() {
    let listing = P2PMessage::ListImagesResponse { images: vec![meta("img1", "alice")] };
    let images = extract_list_response(listing).unwrap();
    assert_eq!(images.len(), 1);
    assert_eq!(images[0].image_id, s("img1"));

    let thumb = P2PMessage::ThumbnailResponse {
        success: true,
        message: s("ok"),
        thumbnail: Some(vec![7]),
    };
    assert_eq!(extract_thumbnail_response(thumb), Ok(vec![7]));
    let missing = P2PMessage::ThumbnailResponse {
        success: false,
        message: s("no such image"),
        thumbnail: None,
    };
    assert_eq!(extract_thumbnail_response(missing), Err(ServiceError::NotFound));
}

#[test]
fn self_probe_is_recognized() {
    assert!(is_self_probe(&s("alice"), &s("alice")));
    assert!(!is_self_probe(&s("bob"), &s("alice")));
}

// ---------------------------------------------------------------------------
// The accept-grant workflow
// ---------------------------------------------------------------------------

fn accepted_request() -> PendingRequest {
    PendingRequest {
        request_id: s("r1"),
        from_user: s("bob"),
        to_user: s("alice"),
        image_id: s("img1"),
        requested_views: 3,
        timestamp: 0,
        status: RequestStatus::Accepted,
    }
}

fn online_bob() -> UserEntry {
    UserEntry {
        username: s("bob"),
        p2p_address: s("10.0.0.2:9002"),
        last_heartbeat: 100,
        status: UserStatus::Online,
        shared_images: Vec::new(),
    }
}

#[test]
fn accepting_starts_with_a_fetch_in_the_requesters_name() {
    let req = accepted_request();
    match accept_grant_start(&req) {
        GrantStep::FetchStamped { requester, image_id, views } => {
            assert_eq!(requester, s("bob"));
            assert_eq!(image_id, s("img1"));
            assert_eq!(views, 3);
        },
        other => panic!("expected FetchStamped, got {:?}", other),
    }
}

#[test]
fn online_requester_gets_direct_delivery() {
    let req = accepted_request();
    match accept_grant_after_fetch(&req, &Some(online_bob()), true) {
        GrantStep::Deliver { address, .. } => assert_eq!(address, s("10.0.0.2:9002")),
        other => panic!("expected Deliver, got {:?}", other),
    }
}

#[test]
fn offline_or_unknown_requester_gets_a_queued_update() {
    let req = accepted_request();
    let mut bob = online_bob();
    bob.status = UserStatus::Offline;
    assert!(matches!(
        accept_grant_after_fetch(&req, &Some(bob), true),
        GrantStep::Queue { .. }
    ));
    assert!(matches!(accept_grant_after_fetch(&req, &None, true), GrantStep::Queue { .. }));
    assert!(matches!(accept_grant_after_fetch(&req, &None, false), GrantStep::Done));
}

#[test]
fn failed_delivery_falls_back_to_the_queue() {
    let req = accepted_request();
    assert!(matches!(accept_grant_after_deliver(&req, true), GrantStep::Done));
    match accept_grant_after_deliver(&req, false) {
        GrantStep::Queue { target, image_id, views } => {
            assert_eq!(target, s("bob"));
            assert_eq!(image_id, s("img1"));
            assert_eq!(views, 3);
        },
        other => panic!("expected Queue, got {:?}", other),
    }
}

#[test]
fn collected_update_with_bytes_is_saved_without_bytes_is_applied() {
    let with_bytes = PendingPermissionUpdate {
        update_id: s("alice:bob:img1"),
        from_owner: s("alice"),
        target_user: s("bob"),
        image_id: s("img1"),
        new_quota: 2,
        timestamp: 0,
        embedded_image: Some(vec![1]),
    };
    match pending_update_action(&with_bytes) {
        UpdateAction::SaveDelivered { file_name, quota } => {
            // The saved copy carries the delivered name, the one a later
            // remote quota rewrite looks up.
            assert_eq!(file_name, s("from_alice_img1"));
            assert_eq!(quota, 2);
        },
        other => panic!("expected SaveDelivered, got {:?}", other),
    }
    let without_bytes = PendingPermissionUpdate { embedded_image: None, ..with_bytes };
    match pending_update_action(&without_bytes) {
        UpdateAction::ApplyLocally { image_id, quota } => {
            assert_eq!(image_id, s("img1"));
            assert_eq!(quota, 2);
        },
        other => panic!("expected ApplyLocally, got {:?}", other),
    }
}

#[test]
fn only_an_online_owner_may_accept() {
    assert!(may_accept(&Some(online_bob())));
    let mut offline = online_bob();
    offline.status = UserStatus::Offline;
    assert!(!may_accept(&Some(offline)));
    assert!(!may_accept(&None));
}

#[test]
fn remote_rewrite_goes_direct_only_to_a_reachable_online_grantee() {
    match remote_update_step(&Some(online_bob()), true, true) {
        RemoteUpdateStep::SendRemote { address } => assert_eq!(address, s("10.0.0.2:9002")),
        other => panic!("expected SendRemote, got {:?}", other),
    }
    // Online but not answering: queue, with bytes when the fetch worked.
    assert!(matches!(
        remote_update_step(&Some(online_bob()), false, true),
        RemoteUpdateStep::QueueWithBytes
    ));
    let mut offline = online_bob();
    offline.status = UserStatus::Offline;
    assert!(matches!(
        remote_update_step(&Some(offline), true, false),
        RemoteUpdateStep::QueueWithoutBytes
    ));
    assert!(matches!(
        remote_update_step(&None, true, true),
        RemoteUpdateStep::QueueWithBytes
    ));
}

#[test]
fn ages_bucket_into_seconds_minutes_hours() {
    assert_eq!(age_bucket(100, 41), (59, AgeUnit::Seconds));
    assert_eq!(age_bucket(100, 40), (1, AgeUnit::Minutes));
    assert_eq!(age_bucket(4000, 0), (1, AgeUnit::Hours));
    assert_eq!(age_bucket(10, 50), (0, AgeUnit::Seconds));
}

// ---------------------------------------------------------------------------
// The directory dispatch end to end
// ---------------------------------------------------------------------------

#[test]
fn register_heartbeat_query_through_the_dispatch() {
    let mut state = DirectoryServiceState::new(30, s("dir1"));
    let r = handle_directory_message(
        &mut state,
        DirectoryMessage::Register {
            username: s("alice"),
            p2p_address: s("10.0.0.1:9001"),
            shared_images: Vec::new(),
        },
        100,
    )
    .unwrap();
    assert!(matches!(r, DirectoryMessage::RegisterResponse { success: true, .. }));

    let r = handle_directory_message(
        &mut state,
        DirectoryMessage::Heartbeat { username: s("alice") },
        110,
    )
    .unwrap();
    assert!(matches!(r, DirectoryMessage::HeartbeatResponse { success: true }));

    let r = handle_directory_message(
        &mut state,
        DirectoryMessage::QueryUser { username: s("alice") },
        111,
    )
    .unwrap();
    match r {
        DirectoryMessage::QueryUserResponse { user: Some(u) } => {
            assert_eq!(u.status, UserStatus::Online);
            assert_eq!(u.p2p_address, s("10.0.0.1:9001"));
        },
        other => panic!("expected the registered user, got {:?}", other),
    }
}

#[test]
fn heartbeat_for_stranger_fails_through_the_dispatch() {
    let mut state = DirectoryServiceState::new(30, s("dir1"));
    let r = handle_directory_message(
        &mut state,
        DirectoryMessage::Heartbeat { username: s("ghost") },
        5,
    )
    .unwrap();
    assert!(matches!(r, DirectoryMessage::HeartbeatResponse { success: false }));
}

#[test]
fn leave_and_fetch_requests_through_the_dispatch() {
    let mut state = DirectoryServiceState::new(30, s("dir1"));
    let r = handle_directory_message(
        &mut state,
        DirectoryMessage::LeaveRequest {
            from_user: s("bob"),
            to_user: s("alice"),
            image_id: s("img1"),
            requested_views: 3,
        },
        50,
    )
    .unwrap();
    let id = match r {
        DirectoryMessage::LeaveRequestResponse { success: true, request_id, .. } => request_id,
        other => panic!("expected a saved request, got {:?}", other),
    };
    assert_eq!(id.len(), 36);

    let r = handle_directory_message(
        &mut state,
        DirectoryMessage::GetPendingRequests { username: s("alice") },
        51,
    )
    .unwrap();
    match r {
        DirectoryMessage::GetPendingRequestsResponse { requests } => {
            assert_eq!(requests.len(), 1);
            assert_eq!(requests[0].request_id, id);
            assert_eq!(requests[0].status, RequestStatus::Pending);
        },
        other => panic!("expected the pending request, got {:?}", other),
    }
}

#[test]
fn store_and_collect_update_through_the_dispatch() {
    let mut state = DirectoryServiceState::new(30, s("dir1"));
    let bytes = vec![42u8, 43];
    let r = handle_directory_message(
        &mut state,
        DirectoryMessage::StorePendingPermissionUpdate {
            from_owner: s("alice"),
            target_user: s("bob"),
            image_id: s("img1"),
            new_quota: 0,
            embedded_image: Some(bytes.clone()),
        },
        60,
    )
    .unwrap();
    match r {
        DirectoryMessage::StorePendingPermissionUpdateResponse { success: true, update_id, .. } => {
            assert_eq!(update_id, s("alice:bob:img1"));
        },
        other => panic!("expected the queued update, got {:?}", other),
    }

    let r = handle_directory_message(
        &mut state,
        DirectoryMessage::GetPendingPermissionUpdates { username: s("bob") },
        61,
    )
    .unwrap();
    match r {
        DirectoryMessage::GetPendingPermissionUpdatesResponse { updates } => {
            assert_eq!(updates.len(), 1);
            assert_eq!(updates[0].new_quota, 0);
            assert_eq!(updates[0].embedded_image, Some(bytes));
        },
        other => panic!("expected the collected update, got {:?}", other),
    }

    let r = handle_directory_message(
        &mut state,
        DirectoryMessage::GetPendingPermissionUpdates { username: s("bob") },
        62,
    )
    .unwrap();
    match r {
        DirectoryMessage::GetPendingPermissionUpdatesResponse { updates } => {
            assert!(updates.is_empty());
        },
        other => panic!("expected nothing the second time, got {:?}", other),
    }
}

#[test]
fn a_response_in_the_request_position_is_refused() {
    let mut state = DirectoryServiceState::new(30, s("dir1"));
    let r = handle_directory_message(
        &mut state,
        DirectoryMessage::HeartbeatResponse { success: true },
        1,
    );
    assert_eq!(r.unwrap_err(), ServiceError::DecodeFailure);
}

#[test]
fn sync_with_repeated_names_is_rejected() {
    let mut state = DirectoryServiceState::new(30, s("dir1"));
    let dup = vec![
        UserEntry {
            username: s("x"),
            p2p_address: s("a:1"),
            last_heartbeat: 1,
            status: UserStatus::Online,
            shared_images: Vec::new(),
        },
        UserEntry {
            username: s("x"),
            p2p_address: s("b:1"),
            last_heartbeat: 2,
            status: UserStatus::Online,
            shared_images: Vec::new(),
        },
    ];
    let r = handle_directory_message(&mut state, DirectoryMessage::SyncState { users: dup }, 1)
        .unwrap();
    assert!(matches!(r, DirectoryMessage::SyncStateResponse { success: false }));
}

// ---------------------------------------------------------------------------
// Errors and front-end shapes
// ---------------------------------------------------------------------------

#[test]
fn error_messages_name_the_failure() {
    assert_eq!(ServiceError::NotFound.message(), "not found");
    assert_eq!(ServiceError::Unauthorized.message(), "unauthorized");
    assert_eq!(ServiceError::Timeout.message(), "timed out");
    assert_eq!(ServiceError::IoFailure.message(), "i/o failure");
    assert_eq!(ServiceError::DecodeFailure.message(), "decode failure");
    assert_eq!(ServiceError::AggregateUnreachable.message(), "all replicas unreachable");
}

#[test]
fn peer_info_renders_status_and_images() {
    let mut e = online_bob();
    e.shared_images.push(ImageInfo {
        image_id: s("img1"),
        image_name: s("one.png"),
        thumbnail_path: None,
    });
    let info = to_peer_info(&e);
    assert_eq!(info.username, s("bob"));
    assert_eq!(info.status, s("Online"));
    assert_eq!(info.shared_images.len(), 1);
    assert_eq!(info.shared_images[0].image_id, s("img1"));
    assert_eq!(status_label(UserStatus::Offline), s("Offline"));
    assert_eq!(request_status_label(RequestStatus::Rejected), s("Rejected"));

    let ok: ApiResponse<u32> = ApiResponse::done(s("fine"), 7);
    assert!(ok.success);
    assert_eq!(ok.data, Some(7));
    let bad: ApiResponse<u32> = ApiResponse::failed(s("broken"));
    assert!(!bad.success);
    assert!(bad.data.is_none());
}

#[test]
fn request_and_notification_infos_carry_the_record() {
    let req = accepted_request();
    let info = to_request_info(&req, s("2 mins ago"));
    assert_eq!(info.request_id, s("r1"));
    assert_eq!(info.status, s("Accepted"));
    assert_eq!(info.timestamp, s("2 mins ago"));
    let note = to_notification_info(&req, s("Just now"));
    assert_eq!(note.to_user, s("alice"));
    assert_eq!(note.status, s("Accepted"));
}
