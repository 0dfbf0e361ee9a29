//! The directory protocol: one tagged message set with an exhaustive
//! dispatch. A node reads one request message per connection, applies it to
//! its `DirectoryServiceState`, and writes one response message back.
//! Handler-level failures come back as structured responses; only a
//! response-shaped message in the request position is refused outright.

use vstd::prelude::*;

use crate::directory::{
    member_views, members_map_of, members_unique, notification_pred,
    online_peer_pred, other_peer_pred, pending_to_pred, req_with_status, update_views,
    with_heartbeat, with_images, DirectoryServiceState, ImageInfo, PendingPermissionUpdate,
    PendingPermissionUpdateV, PendingRequest, RequestStatus, UserEntry, UserStatus,
};
use crate::directory::{keep_non_notification_pred, keep_non_pending_to_pred, lww_merge};
use crate::errors::ServiceError;

verus! {

/// Every message of the directory protocol: requests and their responses.
#[derive(Debug)]
pub enum DirectoryMessage {
    Register { username: String, p2p_address: String, shared_images: Vec<ImageInfo> },
    RegisterResponse { success: bool, message: String },
    Heartbeat { username: String },
    HeartbeatResponse { success: bool },
    Unregister { username: String },
    UnregisterResponse { success: bool },
    QueryPeers { requesting_user: String },
    QueryPeersResponse { peers: Vec<UserEntry> },
    QueryAllPeers { requesting_user: String },
    QueryAllPeersResponse { peers: Vec<UserEntry> },
    UpdateSharedImages { username: String, shared_images: Vec<ImageInfo> },
    UpdateResponse { success: bool, message: String },
    QueryUser { username: String },
    QueryUserResponse { user: Option<UserEntry> },
    SyncState { users: Vec<UserEntry> },
    SyncStateResponse { success: bool },
    LeaveRequest { from_user: String, to_user: String, image_id: String, requested_views: u32 },
    LeaveRequestResponse { success: bool, request_id: String, message: String },
    GetPendingRequests { username: String },
    GetPendingRequestsResponse { requests: Vec<PendingRequest> },
    RespondToRequest { request_id: String, owner: String, accept: bool },
    RespondToRequestResponse { success: bool, message: String, request: Option<PendingRequest> },
    GetNotifications { username: String },
    GetNotificationsResponse { notifications: Vec<PendingRequest> },
    StorePendingPermissionUpdate {
        from_owner: String,
        target_user: String,
        image_id: String,
        new_quota: u32,
        embedded_image: Option<Vec<u8>>,
    },
    StorePendingPermissionUpdateResponse { success: bool, message: String, update_id: String },
    GetPendingPermissionUpdates { username: String },
    GetPendingPermissionUpdatesResponse { updates: Vec<PendingPermissionUpdate> },
}

/// True if `msg` is one of the request messages the dispatcher answers.
pub open spec fn is_directory_request(msg: DirectoryMessage) -> bool {
    ||| msg is Register
    ||| msg is Heartbeat
    ||| msg is Unregister
    ||| msg is QueryPeers
    ||| msg is QueryAllPeers
    ||| msg is UpdateSharedImages
    ||| msg is QueryUser
    ||| msg is SyncState
    ||| msg is LeaveRequest
    ||| msg is GetPendingRequests
    ||| msg is RespondToRequest
    ||| msg is GetNotifications
    ||| msg is StorePendingPermissionUpdate
    ||| msg is GetPendingPermissionUpdates
}

/// Check that no member name repeats in `users`.
fn names_unique(users: &Vec<UserEntry>) -> (r: bool)
    ensures
        r == members_unique(users@),
{
    let n = users.len();
    let mut i: usize = 0;
    while i < n
        invariant
            n == users@.len(),
            i <= n,
            forall|p: int, q: int|
                0 <= p < q < n && p < i ==> users@[p].username@ != users@[q].username@,
        decreases n - i,
    {
        let mut j: usize = i + 1;
        while j < n
            invariant
                n == users@.len(),
                i < j <= n,
                forall|q: int| i < q < j ==> users@[i as int].username@ != users@[q].username@,
            decreases n - j,
        {
            if users[i].username == users[j].username {
                return false;
            }
            j = j + 1;
        }
        i = i + 1;
    }
    true
}

/// Apply one request message to the directory state at time `now` and
/// produce the response to send back. A message that is not a request (a
/// response arriving in the request position) is a protocol violation and
/// is refused with DecodeFailure, the state untouched.
pub fn handle_directory_message(
    state: &mut DirectoryServiceState,
    msg: DirectoryMessage,
    now: u64,
) -> (r: Result<DirectoryMessage, ServiceError>)
    requires
        old(state).wf(),
    ensures
        final(state).wf(),
        DirectoryServiceState::config_unchanged(*old(state), *final(state)),
        !is_directory_request(msg) ==> r == Err::<DirectoryMessage, ServiceError>(
            ServiceError::DecodeFailure,
        ) && final(state).members_seq() == old(state).members_seq() && final(state).requests_seq()
            == old(state).requests_seq() && final(state).updates_seq() == old(
            state,
        ).updates_seq(),
        is_directory_request(msg) ==> r is Ok,
        msg matches DirectoryMessage::Register { username, p2p_address, shared_images } ==> {
            &&& r matches Ok(DirectoryMessage::RegisterResponse { success, .. }) && success
            &&& final(state).members_map() == old(state).members_map().insert(
                username@,
                (crate::directory::UserEntryV {
                    username: username@,
                    p2p_address: p2p_address@,
                    last_heartbeat: now,
                    status: UserStatus::Online,
                    shared_images: shared_images@,
                }),
            )
            &&& final(state).requests_seq() == old(state).requests_seq()
            &&& final(state).updates_seq() == old(state).updates_seq()
        },
        msg matches DirectoryMessage::Heartbeat { username } ==> {
            &&& r matches Ok(DirectoryMessage::HeartbeatResponse { success }) && success
                == old(state).members_map().contains_key(username@)
            &&& old(state).members_map().contains_key(username@) ==> final(state).members_map()
                == old(state).members_map().insert(
                username@,
                with_heartbeat(old(state).members_map()[username@], now),
            )
            &&& !old(state).members_map().contains_key(username@) ==> final(state).members_seq()
                == old(state).members_seq()
            &&& final(state).requests_seq() == old(state).requests_seq()
            &&& final(state).updates_seq() == old(state).updates_seq()
        },
        msg matches DirectoryMessage::Unregister { username } ==> {
            &&& r matches Ok(DirectoryMessage::UnregisterResponse { success }) && success
                == old(state).members_map().contains_key(username@)
            &&& old(state).members_map().contains_key(username@) ==> final(state).members_map()
                == old(state).members_map().insert(
                username@,
                crate::directory::with_status(
                    old(state).members_map()[username@],
                    UserStatus::Offline,
                ),
            ) && final(state).requests_seq() == old(state).requests_seq().filter(
                keep_non_notification_pred(username@),
            ).filter(keep_non_pending_to_pred(username@))
            &&& !old(state).members_map().contains_key(username@) ==> final(state).members_seq()
                == old(state).members_seq() && final(state).requests_seq() == old(
                state,
            ).requests_seq()
            &&& final(state).updates_seq() == old(state).updates_seq()
        },
        msg matches DirectoryMessage::QueryPeers { requesting_user } ==> {
            &&& r matches Ok(DirectoryMessage::QueryPeersResponse { peers }) && member_views(
                peers@,
            ) == member_views(
                old(state).members_seq().filter(
                    online_peer_pred(requesting_user@, now, old(state).heartbeat_timeout),
                ),
            )
            &&& final(state).members_seq() == old(state).members_seq()
            &&& final(state).requests_seq() == old(state).requests_seq()
            &&& final(state).updates_seq() == old(state).updates_seq()
        },
        msg matches DirectoryMessage::QueryAllPeers { requesting_user } ==> {
            &&& r matches Ok(DirectoryMessage::QueryAllPeersResponse { peers }) && member_views(
                peers@,
            ) == member_views(old(state).members_seq().filter(other_peer_pred(requesting_user@)))
            &&& final(state).members_seq() == old(state).members_seq()
            &&& final(state).requests_seq() == old(state).requests_seq()
            &&& final(state).updates_seq() == old(state).updates_seq()
        },
        msg matches DirectoryMessage::UpdateSharedImages { username, shared_images } ==> {
            &&& r matches Ok(DirectoryMessage::UpdateResponse { success, .. }) && success
                == old(state).members_map().contains_key(username@)
            &&& old(state).members_map().contains_key(username@) ==> final(state).members_map()
                == old(state).members_map().insert(
                username@,
                with_images(old(state).members_map()[username@], shared_images@),
            )
            &&& !old(state).members_map().contains_key(username@) ==> final(state).members_seq()
                == old(state).members_seq()
            &&& final(state).requests_seq() == old(state).requests_seq()
            &&& final(state).updates_seq() == old(state).updates_seq()
        },
        msg matches DirectoryMessage::QueryUser { username } ==> {
            &&& r matches Ok(DirectoryMessage::QueryUserResponse { user }) && (match user {
                Some(e) => old(state).members_map().contains_key(username@) && e@ == old(
                    state,
                ).members_map()[username@],
                None => !old(state).members_map().contains_key(username@),
            })
            &&& final(state).members_seq() == old(state).members_seq()
            &&& final(state).requests_seq() == old(state).requests_seq()
            &&& final(state).updates_seq() == old(state).updates_seq()
        },
        msg matches DirectoryMessage::SyncState { users } ==> {
            &&& r matches Ok(DirectoryMessage::SyncStateResponse { success }) && success
                == members_unique(users@)
            &&& members_unique(users@) ==> final(state).members_map() == lww_merge(
                old(state).members_map(),
                members_map_of(users@),
            )
            &&& !members_unique(users@) ==> final(state).members_seq() == old(state).members_seq()
            &&& final(state).requests_seq() == old(state).requests_seq()
            &&& final(state).updates_seq() == old(state).updates_seq()
        },
        msg matches DirectoryMessage::LeaveRequest {
            from_user,
            to_user,
            image_id,
            requested_views,
        } ==> {
            &&& r matches Ok(DirectoryMessage::LeaveRequestResponse {
                success,
                request_id,
                ..
            }) && success && request_id@.len() == 36 && final(state).requests_map() == old(
                state,
            ).requests_map().insert(
                request_id@,
                (PendingRequest {
                    request_id,
                    from_user,
                    to_user,
                    image_id,
                    requested_views,
                    timestamp: now,
                    status: RequestStatus::Pending,
                }),
            )
            &&& final(state).members_seq() == old(state).members_seq()
            &&& final(state).updates_seq() == old(state).updates_seq()
        },
        msg matches DirectoryMessage::GetPendingRequests { username } ==> {
            &&& r matches Ok(DirectoryMessage::GetPendingRequestsResponse { requests })
                && requests@ == old(state).requests_seq().filter(pending_to_pred(username@))
            &&& final(state).members_seq() == old(state).members_seq()
            &&& final(state).requests_seq() == old(state).requests_seq()
            &&& final(state).updates_seq() == old(state).updates_seq()
        },
        msg matches DirectoryMessage::RespondToRequest { request_id, owner, accept } ==> {
            &&& r matches Ok(DirectoryMessage::RespondToRequestResponse {
                success,
                request,
                ..
            }) && {
                let known = old(state).requests_map().contains_key(request_id@);
                let answerable = known && old(state).requests_map()[request_id@].to_user@
                    == owner@ && old(state).requests_map()[request_id@].status is Pending;
                let updated = req_with_status(
                    old(state).requests_map()[request_id@],
                    if accept {
                        RequestStatus::Accepted
                    } else {
                        RequestStatus::Rejected
                    },
                );
                &&& success == answerable
                &&& answerable ==> request == Some(updated) && final(state).requests_map() == old(
                    state,
                ).requests_map().insert(request_id@, updated)
                &&& !answerable ==> request is None && final(state).requests_seq() == old(
                    state,
                ).requests_seq()
            }
            &&& final(state).members_seq() == old(state).members_seq()
            &&& final(state).updates_seq() == old(state).updates_seq()
        },
        msg matches DirectoryMessage::GetNotifications { username } ==> {
            &&& r matches Ok(DirectoryMessage::GetNotificationsResponse { notifications })
                && notifications@ == old(state).requests_seq().filter(notification_pred(username@))
            &&& final(state).members_seq() == old(state).members_seq()
            &&& final(state).requests_seq() == old(state).requests_seq()
            &&& final(state).updates_seq() == old(state).updates_seq()
        },
        msg matches DirectoryMessage::StorePendingPermissionUpdate {
            from_owner,
            target_user,
            image_id,
            new_quota,
            embedded_image,
        } ==> {
            &&& r matches Ok(DirectoryMessage::StorePendingPermissionUpdateResponse {
                success,
                update_id,
                ..
            }) && success && update_id@ == from_owner@ + ":"@ + target_user@ + ":"@ + image_id@
                && final(state).updates_map() == old(state).updates_map().insert(
                (from_owner@, target_user@, image_id@),
                (PendingPermissionUpdateV {
                    update_id: update_id@,
                    from_owner: from_owner@,
                    target_user: target_user@,
                    image_id: image_id@,
                    new_quota,
                    timestamp: now,
                    embedded_image: match embedded_image {
                        Some(b) => Some(b@),
                        None => None,
                    },
                }),
            )
            &&& final(state).members_seq() == old(state).members_seq()
            &&& final(state).requests_seq() == old(state).requests_seq()
        },
        msg matches DirectoryMessage::GetPendingPermissionUpdates { username } ==> {
            &&& r matches Ok(DirectoryMessage::GetPendingPermissionUpdatesResponse { updates })
                && update_views(updates@) == update_views(
                old(state).updates_seq().filter(crate::directory::update_for_pred(username@)),
            )
            &&& update_views(final(state).updates_seq()) == update_views(
                old(state).updates_seq().filter(crate::directory::update_not_for_pred(username@)),
            )
            &&& final(state).members_seq() == old(state).members_seq()
            &&& final(state).requests_seq() == old(state).requests_seq()
        },
{
    match msg {
        DirectoryMessage::Register { username, p2p_address, shared_images } => {
            let res = state.register_user(username, p2p_address, shared_images, now);
            Ok(
                DirectoryMessage::RegisterResponse {
                    success: res.is_ok(),
                    message: String::from_str("user registered"),
                },
            )
        },
        DirectoryMessage::Heartbeat { username } => {
            let res = state.update_heartbeat(&username, now);
            Ok(DirectoryMessage::HeartbeatResponse { success: res.is_ok() })
        },
        DirectoryMessage::Unregister { username } => {
            let res = state.unregister_user(&username);
            Ok(DirectoryMessage::UnregisterResponse { success: res.is_ok() })
        },
        DirectoryMessage::QueryPeers { requesting_user } => {
            let peers = state.get_online_peers(&requesting_user, now);
            Ok(DirectoryMessage::QueryPeersResponse { peers })
        },
        DirectoryMessage::QueryAllPeers { requesting_user } => {
            let peers = state.get_all_peers(&requesting_user);
            Ok(DirectoryMessage::QueryAllPeersResponse { peers })
        },
        DirectoryMessage::UpdateSharedImages { username, shared_images } => {
            let res = state.update_shared_images(&username, shared_images);
            Ok(
                DirectoryMessage::UpdateResponse {
                    success: res.is_ok(),
                    message: String::from_str("shared images updated"),
                },
            )
        },
        DirectoryMessage::QueryUser { username } => {
            let user = state.query_user(&username);
            Ok(DirectoryMessage::QueryUserResponse { user })
        },
        DirectoryMessage::SyncState { users } => {
            if names_unique(&users) {
                state.receive_state_sync(users);
                Ok(DirectoryMessage::SyncStateResponse { success: true })
            } else {
                Ok(DirectoryMessage::SyncStateResponse { success: false })
            }
        },
        DirectoryMessage::LeaveRequest { from_user, to_user, image_id, requested_views } => {
            match state.leave_request(from_user, to_user, image_id, requested_views, now) {
                Ok(request_id) => Ok(
                    DirectoryMessage::LeaveRequestResponse {
                        success: true,
                        request_id,
                        message: String::from_str("request saved"),
                    },
                ),
                Err(_) => Ok(
                    DirectoryMessage::LeaveRequestResponse {
                        success: false,
                        request_id: String::new(),
                        message: String::from_str("request not saved"),
                    },
                ),
            }
        },
        DirectoryMessage::GetPendingRequests { username } => {
            let requests = state.get_pending_requests_for_user(&username);
            Ok(DirectoryMessage::GetPendingRequestsResponse { requests })
        },
        DirectoryMessage::RespondToRequest { request_id, owner, accept } => {
            match state.respond_to_request(&request_id, &owner, accept) {
                Ok(req) => Ok(
                    DirectoryMessage::RespondToRequestResponse {
                        success: true,
                        message: String::from_str("request answered"),
                        request: Some(req),
                    },
                ),
                Err(_) => Ok(
                    DirectoryMessage::RespondToRequestResponse {
                        success: false,
                        message: String::from_str("request not answered"),
                        request: None,
                    },
                ),
            }
        },
        DirectoryMessage::GetNotifications { username } => {
            let notifications = state.get_notifications_for_user(&username);
            Ok(DirectoryMessage::GetNotificationsResponse { notifications })
        },
        DirectoryMessage::StorePendingPermissionUpdate {
            from_owner,
            target_user,
            image_id,
            new_quota,
            embedded_image,
        } => {
            let update_id = state.store_pending_permission_update(
                &from_owner,
                &target_user,
                &image_id,
                new_quota,
                embedded_image,
                now,
            );
            Ok(
                DirectoryMessage::StorePendingPermissionUpdateResponse {
                    success: true,
                    message: String::from_str("permission update queued"),
                    update_id,
                },
            )
        },
        DirectoryMessage::GetPendingPermissionUpdates { username } => {
            let updates = state.get_and_clear_pending_updates(&username);
            Ok(DirectoryMessage::GetPendingPermissionUpdatesResponse { updates })
        },
        _ => Err(ServiceError::DecodeFailure),
    }
}

} // verus!
