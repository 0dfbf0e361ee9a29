//! The peer-to-peer transfer protocol: its tagged message set and the
//! decisions its handlers and callers make on plain values. The embedded
//! permission payload these messages carry is governed by
//! `crate::permissions`; carrying bytes across the network and through the
//! steganographic codec is the host program's work.

use vstd::prelude::*;

use crate::errors::ServiceError;
use crate::store::ImageMetadata;

verus! {

/// Every message of the transfer protocol: requests and their responses.
#[derive(Debug)]
pub enum P2PMessage {
    /// Ask the owner for access to content, with the quota to record.
    ImageRequest { requesting_user: String, image_id: String, requested_views: u32 },
    /// The stamped content, or a structured refusal.
    ImageResponse { success: bool, message: String, encrypted_image: Option<Vec<u8>> },
    /// Ask a peer what content it offers.
    ListImages { requesting_user: String },
    ListImagesResponse { images: Vec<ImageMetadata> },
    /// Owner-side quota overwrite for an already shared piece of content.
    UpdatePermissions { owner: String, image_id: String, username: String, new_quota: u32 },
    UpdatePermissionsResponse { success: bool, message: String },
    /// Push-deliver stamped content to its requester.
    DeliverImage { from_owner: String, image_id: String, requested_views: u32, encrypted_image: Vec<u8> },
    DeliverImageResponse { success: bool, message: String },
    /// Ask the recipient of earlier-delivered content to rewrite its local
    /// copy's quota in place.
    RemoteUpdatePermissions { from_owner: String, image_id: String, for_user: String, new_quota: u32 },
    RemoteUpdatePermissionsResponse { success: bool, message: String },
    /// Ask for a heavily degraded preview of content before requesting it.
    ThumbnailRequest { requesting_user: String, image_id: String },
    ThumbnailResponse { success: bool, message: String, thumbnail: Option<Vec<u8>> },
}

/// The deterministic local name delivered content is saved under:
/// "from_" + owner + "_" + content id.
pub fn deliver_file_name(from_owner: &String, image_id: &String) -> (r: String)
    ensures
        r@ == "from_"@ + from_owner@ + "_"@ + image_id@,
{
    String::from_str("from_").concat(from_owner.as_str()).concat("_").concat(image_id.as_str())
}

/// Callee-side check of a remote quota rewrite: the update must name this
/// very peer — for anyone else there is no matching delivered copy here,
/// so the rewrite fails NotFound; when it does, the copy to rewrite is the
/// one saved under the deterministic delivered name.
pub fn remote_update_target(
    from_owner: &String,
    image_id: &String,
    for_user: &String,
    local_identity: &String,
) -> (r: Result<String, ServiceError>)
    ensures
        for_user@ != local_identity@ ==> r == Err::<String, ServiceError>(
            ServiceError::NotFound,
        ),
        for_user@ == local_identity@ ==> (r matches Ok(name) && name@ == "from_"@ + from_owner@
            + "_"@ + image_id@),
{
    if *for_user == *local_identity {
        Ok(deliver_file_name(from_owner, image_id))
    } else {
        Err(ServiceError::NotFound)
    }
}

/// Owner-side check of a direct quota overwrite: only the peer that owns
/// the serving identity may rewrite quotas through it.
pub fn update_permissions_authorized(owner: &String, local_identity: &String) -> (r: bool)
    ensures
        r == (owner@ == local_identity@),
{
    *owner == *local_identity
}

/// What a caller asking for content sends: the request is made in the name
/// of the user who will hold the quota — when an owner fetches a stamped
/// copy for a requester, the requester's name goes here, not the owner's.
pub fn image_request(requesting_user: &String, image_id: &String, requested_views: u32) -> (r:
    P2PMessage)
    ensures
        r == (P2PMessage::ImageRequest {
            requesting_user: *requesting_user,
            image_id: *image_id,
            requested_views,
        }),
{
    P2PMessage::ImageRequest {
        requesting_user: requesting_user.clone(),
        image_id: image_id.clone(),
        requested_views,
    }
}

/// Read a content-request response: the stamped bytes on success; a denial
/// comes back Unauthorized, and any other message shape is a protocol
/// violation reported as DecodeFailure.
pub fn extract_image_response(msg: P2PMessage) -> (r: Result<Vec<u8>, ServiceError>)
    ensures
        msg matches P2PMessage::ImageResponse { success, encrypted_image, .. } ==> {
            &&& success && encrypted_image is Some ==> r == Ok::<Vec<u8>, ServiceError>(
                encrypted_image->0,
            )
            &&& success && encrypted_image is None ==> r == Err::<Vec<u8>, ServiceError>(
                ServiceError::DecodeFailure,
            )
            &&& !success ==> r == Err::<Vec<u8>, ServiceError>(ServiceError::Unauthorized)
        },
        !(msg is ImageResponse) ==> r == Err::<Vec<u8>, ServiceError>(ServiceError::DecodeFailure),
{
    match msg {
        P2PMessage::ImageResponse { success: true, encrypted_image: Some(data), .. } => Ok(data),
        P2PMessage::ImageResponse { success: true, encrypted_image: None, .. } => Err(
            ServiceError::DecodeFailure,
        ),
        P2PMessage::ImageResponse { success: false, .. } => Err(ServiceError::Unauthorized),
        _ => Err(ServiceError::DecodeFailure),
    }
}

/// Read a listing response: the advertised metadata, or DecodeFailure for
/// any other message shape.
pub fn extract_list_response(msg: P2PMessage) -> (r: Result<Vec<ImageMetadata>, ServiceError>)
    ensures
        msg matches P2PMessage::ListImagesResponse { images } ==> r == Ok::<
            Vec<ImageMetadata>,
            ServiceError,
        >(images),
        !(msg is ListImagesResponse) ==> r == Err::<Vec<ImageMetadata>, ServiceError>(
            ServiceError::DecodeFailure,
        ),
{
    match msg {
        P2PMessage::ListImagesResponse { images } => Ok(images),
        _ => Err(ServiceError::DecodeFailure),
    }
}

/// Read a preview response: the degraded preview bytes on success; a
/// refusal comes back NotFound, and any other message shape is a protocol
/// violation reported as DecodeFailure.
pub fn extract_thumbnail_response(msg: P2PMessage) -> (r: Result<Vec<u8>, ServiceError>)
    ensures
        msg matches P2PMessage::ThumbnailResponse { success, thumbnail, .. } ==> {
            &&& success && thumbnail is Some ==> r == Ok::<Vec<u8>, ServiceError>(thumbnail->0)
            &&& success && thumbnail is None ==> r == Err::<Vec<u8>, ServiceError>(
                ServiceError::DecodeFailure,
            )
            &&& !success ==> r == Err::<Vec<u8>, ServiceError>(ServiceError::NotFound)
        },
        !(msg is ThumbnailResponse) ==> r == Err::<Vec<u8>, ServiceError>(
            ServiceError::DecodeFailure,
        ),
{
    match msg {
        P2PMessage::ThumbnailResponse { success: true, thumbnail: Some(data), .. } => Ok(data),
        P2PMessage::ThumbnailResponse { success: true, thumbnail: None, .. } => Err(
            ServiceError::DecodeFailure,
        ),
        P2PMessage::ThumbnailResponse { success: false, .. } => Err(ServiceError::NotFound),
        _ => Err(ServiceError::DecodeFailure),
    }
}

/// A self-probe carries the peer's own name: the transfer server treats it
/// as a liveness ping, not real traffic.
pub fn is_self_probe(requesting_user: &String, local_identity: &String) -> (r: bool)
    ensures
        r == (requesting_user@ == local_identity@),
{
    *requesting_user == *local_identity
}

} // verus!
