//! Plain result types the front ends consume, and the conversions from the
//! service's own records into them. These carry no behaviour of their own:
//! every field is filled from a verified record, with rendered labels for
//! statuses and ages.

use vstd::prelude::*;

use crate::directory::{
    ImageInfo, PendingPermissionUpdate, PendingRequest, RequestStatus, UserEntry, UserStatus,
};

verus! {

/// A file in the peer's own content directory.
#[derive(Debug)]
pub struct LocalImage {
    pub image_id: String,
    pub file_path: String,
    pub file_name: String,
    pub file_size_kb: u64,
    pub is_encrypted: bool,
}

/// A delivered piece of content found in the receive directory.
#[derive(Debug)]
pub struct ReceivedImage {
    pub image_id: String,
    pub from_owner: String,
    pub file_path: String,
    pub file_name: String,
    pub views_remaining: u32,
    pub received_at: String,
}

/// The uniform envelope every front-end call returns.
#[derive(Debug)]
pub struct ApiResponse<T> {
    pub success: bool,
    pub message: String,
    pub data: Option<T>,
}

impl<T> ApiResponse<T> {
    /// A successful envelope around `data`.
    pub fn done(message: String, data: T) -> (r: Self)
        ensures
            r.success,
            r.message == message,
            r.data == Some(data),
    {
        ApiResponse { success: true, message, data: Some(data) }
    }

    /// A failure envelope with no payload.
    pub fn failed(message: String) -> (r: Self)
        ensures
            !r.success,
            r.message == message,
            r.data is None,
    {
        ApiResponse { success: false, message, data: None }
    }
}

/// A member as the front end shows it.
#[derive(Debug)]
pub struct PeerInfo {
    pub username: String,
    pub p2p_address: String,
    pub status: String,
    pub shared_images: Vec<ImageInfoJson>,
}

/// One advertised item as the front end shows it.
#[derive(Debug)]
pub struct ImageInfoJson {
    pub image_id: String,
    pub image_name: String,
    pub thumbnail_path: Option<String>,
}

/// A pending request as the front end shows it.
#[derive(Debug)]
pub struct RequestInfo {
    pub request_id: String,
    pub from_user: String,
    pub to_user: String,
    pub image_id: String,
    pub requested_views: u32,
    pub timestamp: String,
    pub status: String,
}

/// A finished request, seen by its maker, as the front end shows it.
#[derive(Debug)]
pub struct NotificationInfo {
    pub request_id: String,
    pub to_user: String,
    pub image_id: String,
    pub requested_views: u32,
    pub status: String,
    pub timestamp: String,
}

/// A collected pending permission update as the front end shows it.
#[derive(Debug)]
pub struct PermissionUpdateInfo {
    pub from_owner: String,
    pub image_id: String,
    pub new_quota: u32,
    pub message: String,
}

/// The label of a liveness status.
pub fn status_label(status: UserStatus) -> (r: String)
    ensures
        status is Online ==> r@ == "Online"@,
        status is Offline ==> r@ == "Offline"@,
{
    match status {
        UserStatus::Online => String::from_str("Online"),
        UserStatus::Offline => String::from_str("Offline"),
    }
}

/// The label of a request status.
pub fn request_status_label(status: RequestStatus) -> (r: String)
    ensures
        status is Pending ==> r@ == "Pending"@,
        status is Accepted ==> r@ == "Accepted"@,
        status is Rejected ==> r@ == "Rejected"@,
{
    match status {
        RequestStatus::Pending => String::from_str("Pending"),
        RequestStatus::Accepted => String::from_str("Accepted"),
        RequestStatus::Rejected => String::from_str("Rejected"),
    }
}

/// The front-end shape of one advertised item, field for field.
pub open spec fn image_info_json_of(i: ImageInfo) -> ImageInfoJson {
    ImageInfoJson {
        image_id: i.image_id,
        image_name: i.image_name,
        thumbnail_path: i.thumbnail_path,
    }
}

/// Render one advertised item for the front end.
pub fn to_image_info_json(i: &ImageInfo) -> (r: ImageInfoJson)
    ensures
        r == image_info_json_of(*i),
{
    ImageInfoJson {
        image_id: i.image_id.clone(),
        image_name: i.image_name.clone(),
        thumbnail_path: match &i.thumbnail_path {
            Some(p) => Some(p.clone()),
            None => None,
        },
    }
}

/// Render a member entry for the front end: same identity and address, the
/// status as its label, each advertised item converted in order.
pub fn to_peer_info(e: &UserEntry) -> (r: PeerInfo)
    ensures
        r.username == e.username,
        r.p2p_address == e.p2p_address,
        e.status is Online ==> r.status@ == "Online"@,
        e.status is Offline ==> r.status@ == "Offline"@,
        r.shared_images@ == e.shared_images@.map_values(
            |i: ImageInfo| image_info_json_of(i),
        ),
{
    let mut shared: Vec<ImageInfoJson> = Vec::new();
    let n = e.shared_images.len();
    let mut i: usize = 0;
    while i < n
        invariant
            n == e.shared_images@.len(),
            i <= n,
            shared@ == e.shared_images@.take(i as int).map_values(
                |x: ImageInfo| image_info_json_of(x),
            ),
        decreases n - i,
    {
        shared.push(to_image_info_json(&e.shared_images[i]));
        proof {
            assert(shared@ =~= e.shared_images@.take(i as int + 1).map_values(
                |x: ImageInfo| image_info_json_of(x),
            ));
        }
        i = i + 1;
    }
    proof {
        assert(e.shared_images@.take(n as int) =~= e.shared_images@);
    }
    PeerInfo {
        username: e.username.clone(),
        p2p_address: e.p2p_address.clone(),
        status: status_label(e.status),
        shared_images: shared,
    }
}

/// Render a pending request for its target, with a pre-rendered age.
pub fn to_request_info(r: &PendingRequest, timestamp: String) -> (out: RequestInfo)
    ensures
        out.request_id == r.request_id,
        out.from_user == r.from_user,
        out.to_user == r.to_user,
        out.image_id == r.image_id,
        out.requested_views == r.requested_views,
        out.timestamp == timestamp,
        r.status is Pending ==> out.status@ == "Pending"@,
        r.status is Accepted ==> out.status@ == "Accepted"@,
        r.status is Rejected ==> out.status@ == "Rejected"@,
{
    RequestInfo {
        request_id: r.request_id.clone(),
        from_user: r.from_user.clone(),
        to_user: r.to_user.clone(),
        image_id: r.image_id.clone(),
        requested_views: r.requested_views,
        timestamp,
        status: request_status_label(r.status),
    }
}

/// Render a finished request for its maker, with a pre-rendered age.
pub fn to_notification_info(r: &PendingRequest, timestamp: String) -> (out: NotificationInfo)
    ensures
        out.request_id == r.request_id,
        out.to_user == r.to_user,
        out.image_id == r.image_id,
        out.requested_views == r.requested_views,
        out.timestamp == timestamp,
        r.status is Pending ==> out.status@ == "Pending"@,
        r.status is Accepted ==> out.status@ == "Accepted"@,
        r.status is Rejected ==> out.status@ == "Rejected"@,
{
    NotificationInfo {
        request_id: r.request_id.clone(),
        to_user: r.to_user.clone(),
        image_id: r.image_id.clone(),
        requested_views: r.requested_views,
        timestamp,
        status: request_status_label(r.status),
    }
}

/// Render a collected pending update, with a pre-rendered message.
pub fn to_permission_update_info(u: &PendingPermissionUpdate, message: String) -> (out:
    PermissionUpdateInfo)
    ensures
        out.from_owner == u.from_owner,
        out.image_id == u.image_id,
        out.new_quota == u.new_quota,
        out.message == message,
{
    PermissionUpdateInfo {
        from_owner: u.from_owner.clone(),
        image_id: u.image_id.clone(),
        new_quota: u.new_quota,
        message,
    }
}

} // verus!
