//! The cross-cutting grant workflow: what happens between an owner's
//! Accept and the requester holding a stamped copy. The owner fetches a
//! freshly quota-stamped copy from their own transfer server, addressed in
//! the requester's name so the embedded quota is written for the requester;
//! then the copy is push-delivered if the requester is reachable, and
//! queued as a pending update otherwise. The steps here decide; performing
//! them (the network calls) is the host program's work.

use vstd::prelude::*;

use crate::directory::{PendingPermissionUpdate, PendingRequest, UserEntry, UserStatus};
use crate::transfer::deliver_file_name;

verus! {

/// The next thing the orchestrating caller must do.
#[derive(Debug)]
pub enum GrantStep {
    /// Fetch the stamped copy from the owner's own transfer server, in the
    /// requester's name, with the granted quota.
    FetchStamped { requester: String, image_id: String, views: u32 },
    /// Push-deliver the fetched bytes to the requester at this address.
    Deliver { address: String, image_id: String, views: u32 },
    /// Queue the bytes as a pending update for the requester to collect
    /// when they next come online.
    Queue { target: String, image_id: String, views: u32 },
    /// Nothing more to do.
    Done,
}

/// Only an owner who is currently Online may accept a request: accepting
/// starts a fetch from their own transfer server, which must be running.
pub fn may_accept(own: &Option<UserEntry>) -> (r: bool)
    ensures
        r == match own {
            Some(e) => e.status is Online,
            None => false,
        },
{
    match own {
        Some(e) => e.status == UserStatus::Online,
        None => false,
    }
}

/// An accepted request starts with the fetch: the copy is requested in the
/// name of the original requester — not the owner — so the quota inside it
/// is stamped for the requester.
pub fn accept_grant_start(req: &PendingRequest) -> (s: GrantStep)
    ensures
        s == (GrantStep::FetchStamped {
            requester: req.from_user,
            image_id: req.image_id,
            views: req.requested_views,
        }),
{
    GrantStep::FetchStamped {
        requester: req.from_user.clone(),
        image_id: req.image_id.clone(),
        views: req.requested_views,
    }
}

/// After the fetch: with no bytes in hand there is nothing to deliver; with
/// bytes, an Online requester gets a direct delivery at their recorded
/// address, and anyone else has the bytes queued.
pub fn accept_grant_after_fetch(req: &PendingRequest, target: &Option<UserEntry>, fetched: bool)
    -> (s: GrantStep)
    ensures
        !fetched ==> s is Done,
        fetched ==> match target {
            Some(e) => if e.status is Online {
                s == (GrantStep::Deliver {
                    address: e.p2p_address,
                    image_id: req.image_id,
                    views: req.requested_views,
                })
            } else {
                s == (GrantStep::Queue {
                    target: req.from_user,
                    image_id: req.image_id,
                    views: req.requested_views,
                })
            },
            None => s == (GrantStep::Queue {
                target: req.from_user,
                image_id: req.image_id,
                views: req.requested_views,
            }),
        },
{
    if !fetched {
        return GrantStep::Done;
    }
    match target {
        Some(e) => {
            if e.status == UserStatus::Online {
                GrantStep::Deliver {
                    address: e.p2p_address.clone(),
                    image_id: req.image_id.clone(),
                    views: req.requested_views,
                }
            } else {
                GrantStep::Queue {
                    target: req.from_user.clone(),
                    image_id: req.image_id.clone(),
                    views: req.requested_views,
                }
            }
        },
        None => GrantStep::Queue {
            target: req.from_user.clone(),
            image_id: req.image_id.clone(),
            views: req.requested_views,
        },
    }
}

/// After a delivery attempt: success finishes the workflow; failure falls
/// back to queueing the bytes for later collection.
pub fn accept_grant_after_deliver(req: &PendingRequest, delivered: bool) -> (s: GrantStep)
    ensures
        delivered ==> s is Done,
        !delivered ==> s == (GrantStep::Queue {
            target: req.from_user,
            image_id: req.image_id,
            views: req.requested_views,
        }),
{
    if delivered {
        GrantStep::Done
    } else {
        GrantStep::Queue {
            target: req.from_user.clone(),
            image_id: req.image_id.clone(),
            views: req.requested_views,
        }
    }
}

/// What an owner does next when rewriting a grantee's quota remotely.
#[derive(Debug)]
pub enum RemoteUpdateStep {
    /// The grantee is Online and their transfer server answers: ask them
    /// directly, at this address, to rewrite their local copy in place.
    SendRemote { address: String },
    /// The grantee cannot be reached and a freshly stamped copy was
    /// fetched: queue the update with the bytes attached.
    QueueWithBytes,
    /// The grantee cannot be reached and no copy could be fetched: queue
    /// the bare quota change.
    QueueWithoutBytes,
}

/// Decide a remote quota rewrite: a grantee who is recorded, Online and
/// actually reachable gets the rewrite sent to their recorded address;
/// anyone else has the update queued for their next login, with the
/// stamped bytes exactly when the owner's fetch produced them.
pub fn remote_update_step(target: &Option<UserEntry>, reachable: bool, fetched: bool) -> (s:
    RemoteUpdateStep)
    ensures
        (match target {
            Some(e) => e.status is Online,
            None => false,
        }) && reachable ==> (s matches RemoteUpdateStep::SendRemote { address } && target
            matches Some(e) && address == e.p2p_address),
        !((match target {
            Some(e) => e.status is Online,
            None => false,
        }) && reachable) ==> s == if fetched {
            RemoteUpdateStep::QueueWithBytes
        } else {
            RemoteUpdateStep::QueueWithoutBytes
        },
{
    match target {
        Some(e) => {
            if e.status == UserStatus::Online && reachable {
                RemoteUpdateStep::SendRemote { address: e.p2p_address.clone() }
            } else if fetched {
                RemoteUpdateStep::QueueWithBytes
            } else {
                RemoteUpdateStep::QueueWithoutBytes
            }
        },
        None => if fetched {
            RemoteUpdateStep::QueueWithBytes
        } else {
            RemoteUpdateStep::QueueWithoutBytes
        },
    }
}

/// What a collected pending update asks its recipient to do.
#[derive(Debug)]
pub enum UpdateAction {
    /// Bytes came along: write (or overwrite) a fresh local copy under the
    /// deterministic delivered name.
    SaveDelivered { file_name: String, quota: u32 },
    /// No bytes: rewrite the quota inside the locally cached copy of this
    /// content in place.
    ApplyLocally { image_id: String, quota: u32 },
}

/// Decide how the target applies one collected pending update: an update
/// carrying content bytes becomes a fresh local copy, written (or
/// overwritten) under the same deterministic delivered name
/// "from_" + owner + "_" + content id that a direct delivery uses — the
/// one name a later remote quota rewrite looks up; an update without
/// bytes patches the cached copy's quota in place. Either way, a quota of
/// 0 is an explicit revocation.
pub fn pending_update_action(upd: &PendingPermissionUpdate) -> (a: UpdateAction)
    ensures
        upd.embedded_image is Some ==> (a matches UpdateAction::SaveDelivered {
            file_name,
            quota,
        } && file_name@ == "from_"@ + upd.from_owner@ + "_"@ + upd.image_id@ && quota
            == upd.new_quota),
        upd.embedded_image is None ==> a == (UpdateAction::ApplyLocally {
            image_id: upd.image_id,
            quota: upd.new_quota,
        }),
{
    match &upd.embedded_image {
        Some(_) => UpdateAction::SaveDelivered {
            file_name: deliver_file_name(&upd.from_owner, &upd.image_id),
            quota: upd.new_quota,
        },
        None => UpdateAction::ApplyLocally {
            image_id: upd.image_id.clone(),
            quota: upd.new_quota,
        },
    }
}

/// How old a stored instant is, bucketed the way the interfaces present
/// it: seconds under a minute, whole minutes under an hour, whole hours
/// beyond. An instant from the future counts as age 0.
#[derive(Debug, Clone, Copy, PartialEq, Eq, Structural)]
pub enum AgeUnit {
    Seconds,
    Minutes,
    Hours,
}

/// The displayed age of `then` as seen from `now`.
pub fn age_bucket(now: u64, then: u64) -> (r: (u64, AgeUnit))
    ensures
        ({
            let d: u64 = if then <= now {
                (now - then) as u64
            } else {
                0u64
            };
            &&& d < 60 ==> r == (d, AgeUnit::Seconds)
            &&& 60 <= d < 3600 ==> r == (d / 60, AgeUnit::Minutes)
            &&& d >= 3600 ==> r == (d / 3600, AgeUnit::Hours)
        }),
{
    let d: u64 = if then <= now {
        now - then
    } else {
        0
    };
    if d < 60 {
        (d, AgeUnit::Seconds)
    } else if d < 3600 {
        (d / 60, AgeUnit::Minutes)
    } else {
        (d / 3600, AgeUnit::Hours)
    }
}

} // verus!
