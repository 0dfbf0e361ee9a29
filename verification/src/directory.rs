//! The directory/presence service: the authoritative membership table with
//! heartbeat-based liveness, the pending-request queue and the
//! pending-permission-update queue of one directory node.
//!
//! All state lives in memory as plain vectors with unique keys; every
//! operation's contract is stated over map and sequence abstractions of
//! those vectors. Disk snapshots and peer replication move whole copies of
//! this state and are driven from outside; the last-writer-wins merge rule
//! they rely on is here, verified.

use vstd::prelude::*;

use crate::errors::ServiceError;
use crate::seqs::{
    lemma_filter_distinct_keys, lemma_filter_none, lemma_filter_take_all, lemma_filter_take_step,
};

verus! {

/// Liveness status of a registered member.
#[derive(Debug, Clone, Copy, PartialEq, Eq, Structural)]
pub enum UserStatus {
    Online,
    Offline,
}

/// One advertised piece of content: identifier, display name, optional
/// preview reference.
#[derive(Debug)]
pub struct ImageInfo {
    pub image_id: String,
    pub image_name: String,
    pub thumbnail_path: Option<String>,
}

impl Clone for ImageInfo {
    fn clone(&self) -> (r: Self)
        ensures
            r == *self,
    {
        ImageInfo {
            image_id: self.image_id.clone(),
            image_name: self.image_name.clone(),
            thumbnail_path: match &self.thumbnail_path {
                Some(p) => Some(p.clone()),
                None => None,
            },
        }
    }
}

/// One member of the directory: identity, transfer address, last heartbeat
/// instant, liveness status, and the advertised content list. Entries are
/// never deleted — an explicit unregister or a liveness sweep only flips the
/// status to Offline.
#[derive(Debug)]
pub struct UserEntry {
    pub username: String,
    pub p2p_address: String,
    pub last_heartbeat: u64,
    pub status: UserStatus,
    pub shared_images: Vec<ImageInfo>,
}

/// The mathematical shape of a member entry.
#[verifier::ext_equal]
pub struct UserEntryV {
    pub username: Seq<char>,
    pub p2p_address: Seq<char>,
    pub last_heartbeat: u64,
    pub status: UserStatus,
    pub shared_images: Seq<ImageInfo>,
}

impl View for UserEntry {
    type V = UserEntryV;

    open spec fn view(&self) -> UserEntryV {
        UserEntryV {
            username: self.username@,
            p2p_address: self.p2p_address@,
            last_heartbeat: self.last_heartbeat,
            status: self.status,
            shared_images: self.shared_images@,
        }
    }
}

impl Clone for UserEntry {
    fn clone(&self) -> (r: Self)
        ensures
            r@ == self@,
    {
        let r = UserEntry {
            username: self.username.clone(),
            p2p_address: self.p2p_address.clone(),
            last_heartbeat: self.last_heartbeat,
            status: self.status,
            shared_images: self.shared_images.clone(),
        };
        proof {
            assert(r.shared_images@ =~= self.shared_images@);
            assert(r@ =~= self@);
        }
        r
    }
}

/// Lifecycle of a pending content request.
#[derive(Debug, Clone, Copy, PartialEq, Eq, Structural)]
pub enum RequestStatus {
    Pending,
    Accepted,
    Rejected,
}

/// A request left for a content owner: who asks, whom they ask, for which
/// content, and for how many views. Pending is the initial status; Accepted
/// and Rejected are terminal and set by the target.
#[derive(Debug)]
pub struct PendingRequest {
    pub request_id: String,
    pub from_user: String,
    pub to_user: String,
    pub image_id: String,
    pub requested_views: u32,
    pub timestamp: u64,
    pub status: RequestStatus,
}

impl Clone for PendingRequest {
    fn clone(&self) -> (r: Self)
        ensures
            r == *self,
    {
        PendingRequest {
            request_id: self.request_id.clone(),
            from_user: self.from_user.clone(),
            to_user: self.to_user.clone(),
            image_id: self.image_id.clone(),
            requested_views: self.requested_views,
            timestamp: self.timestamp,
            status: self.status,
        }
    }
}

/// A queued permission update for a user who may be offline, keyed by
/// (owner, target, content): re-issuing for the same key overwrites the
/// prior unconsumed entry. Consumed exactly once, atomically.
#[derive(Debug)]
pub struct PendingPermissionUpdate {
    pub update_id: String,
    pub from_owner: String,
    pub target_user: String,
    pub image_id: String,
    pub new_quota: u32,
    pub timestamp: u64,
    /// Content bytes to deliver when the target comes online; absent means
    /// "update the locally cached copy's quota in place".
    pub embedded_image: Option<Vec<u8>>,
}

/// The mathematical shape of a queued permission update.
#[verifier::ext_equal]
pub struct PendingPermissionUpdateV {
    pub update_id: Seq<char>,
    pub from_owner: Seq<char>,
    pub target_user: Seq<char>,
    pub image_id: Seq<char>,
    pub new_quota: u32,
    pub timestamp: u64,
    pub embedded_image: Option<Seq<u8>>,
}

impl View for PendingPermissionUpdate {
    type V = PendingPermissionUpdateV;

    open spec fn view(&self) -> PendingPermissionUpdateV {
        PendingPermissionUpdateV {
            update_id: self.update_id@,
            from_owner: self.from_owner@,
            target_user: self.target_user@,
            image_id: self.image_id@,
            new_quota: self.new_quota,
            timestamp: self.timestamp,
            embedded_image: match self.embedded_image {
                Some(b) => Some(b@),
                None => None,
            },
        }
    }
}

impl Clone for PendingPermissionUpdate {
    fn clone(&self) -> (r: Self)
        ensures
            r@ == self@,
    {
        let r = PendingPermissionUpdate {
            update_id: self.update_id.clone(),
            from_owner: self.from_owner.clone(),
            target_user: self.target_user.clone(),
            image_id: self.image_id.clone(),
            new_quota: self.new_quota,
            timestamp: self.timestamp,
            embedded_image: match &self.embedded_image {
                Some(b) => Some(b.clone()),
                None => None,
            },
        };
        proof {
            match &self.embedded_image {
                Some(b) => {
                    assert(r.embedded_image is Some);
                    assert(r.embedded_image->0@ =~= b@);
                },
                None => {},
            }
            assert(r@ =~= self@);
        }
        r
    }
}

// ---------------------------------------------------------------------------
// Map abstractions of the three keyed collections.
// ---------------------------------------------------------------------------
/// True if some entry of `s` carries the member name `name`.
pub open spec fn members_have(s: Seq<UserEntry>, name: Seq<char>) -> bool {
    exists|i: int| 0 <= i < s.len() && s[i].username@ == name
}

/// The index of the entry named `name` (meaningful under unique names).
pub open spec fn member_idx(s: Seq<UserEntry>, name: Seq<char>) -> int {
    choose|i: int| 0 <= i < s.len() && s[i].username@ == name
}

/// No member name occurs twice.
pub open spec fn members_unique(s: Seq<UserEntry>) -> bool {
    forall|i: int, j: int| 0 <= i < j < s.len() ==> s[i].username@ != s[j].username@
}

/// The member table as a map from name to entry.
pub open spec fn members_map_of(s: Seq<UserEntry>) -> Map<Seq<char>, UserEntryV> {
    Map::new(|name: Seq<char>| members_have(s, name), |name: Seq<char>| s[member_idx(s, name)]@)
}

/// With unique names, any index holding `name` is the index that
/// `member_idx` selects.
pub proof fn lemma_member_at(s: Seq<UserEntry>, j: int)
    requires
        members_unique(s),
        0 <= j < s.len(),
    ensures
        member_idx(s, s[j].username@) == j,
        members_map_of(s)[s[j].username@] == s[j]@,
{
    let name = s[j].username@;
    assert(members_have(s, name));
    let i = member_idx(s, name);
    if i < j {
        assert(s[i].username@ != s[j].username@);
    } else if j < i {
        assert(s[j].username@ != s[i].username@);
    }
}

/// Replacing the entry at an index, keeping its name, is a map insert.
pub proof fn lemma_members_update(s0: Seq<UserEntry>, i: int, e: UserEntry)
    requires
        members_unique(s0),
        0 <= i < s0.len(),
        e.username@ == s0[i].username@,
    ensures
        members_unique(s0.update(i, e)),
        members_map_of(s0.update(i, e)) == members_map_of(s0).insert(e.username@, e@),
{
    let s1 = s0.update(i, e);
    assert forall|p: int, q: int| 0 <= p < q < s1.len() implies s1[p].username@
        != s1[q].username@ by {
        assert(s0[p].username@ != s0[q].username@);
    }
    assert forall|k: Seq<char>| members_have(s1, k) implies members_have(s0, k) by {
        let w = choose|w: int| 0 <= w < s1.len() && s1[w].username@ == k;
        assert(s0[w].username@ == k);
    }
    assert forall|k: Seq<char>| members_have(s0, k) implies members_have(s1, k) by {
        let w = choose|w: int| 0 <= w < s0.len() && s0[w].username@ == k;
        assert(s1[w].username@ == k);
    }
    assert forall|k: Seq<char>| members_have(s1, k) implies s1[member_idx(s1, k)]@
        == members_map_of(s0).insert(e.username@, e@)[k] by {
        let w = member_idx(s1, k);
        assert(0 <= w < s1.len() && s1[w].username@ == k);
        lemma_member_at(s0, w);
        if w == i {
            assert(k == e.username@);
        } else {
            assert(s0[w] == s1[w]);
        }
    }
    assert(members_map_of(s1) =~= members_map_of(s0).insert(e.username@, e@));
}

/// Appending an entry under a fresh name is a map insert.
pub proof fn lemma_members_push(s0: Seq<UserEntry>, e: UserEntry)
    requires
        members_unique(s0),
        !members_have(s0, e.username@),
    ensures
        members_unique(s0.push(e)),
        members_map_of(s0.push(e)) == members_map_of(s0).insert(e.username@, e@),
{
    let s1 = s0.push(e);
    assert forall|p: int, q: int| 0 <= p < q < s1.len() implies s1[p].username@
        != s1[q].username@ by {
        if q < s0.len() {
            assert(s0[p].username@ != s0[q].username@);
        } else {
            assert(s1[q].username@ == e.username@);
            assert(s0[p].username@ != e.username@);
        }
    }
    assert(members_have(s1, e.username@)) by {
        assert(s1[s0.len() as int].username@ == e.username@);
    }
    assert forall|k: Seq<char>| members_have(s1, k) && k != e.username@ implies members_have(
        s0,
        k,
    ) by {
        let w = choose|w: int| 0 <= w < s1.len() && s1[w].username@ == k;
        assert(w < s0.len());
        assert(s0[w].username@ == k);
    }
    assert forall|k: Seq<char>| members_have(s0, k) implies members_have(s1, k) by {
        let w = choose|w: int| 0 <= w < s0.len() && s0[w].username@ == k;
        assert(s1[w].username@ == k);
    }
    assert forall|k: Seq<char>| members_have(s1, k) implies s1[member_idx(s1, k)]@
        == members_map_of(s0).insert(e.username@, e@)[k] by {
        let w = member_idx(s1, k);
        assert(0 <= w < s1.len() && s1[w].username@ == k);
        if w == s0.len() {
            assert(k == e.username@);
        } else {
            lemma_member_at(s0, w);
        }
    }
    assert(members_map_of(s1) =~= members_map_of(s0).insert(e.username@, e@));
}

/// True if some request of `s` carries the request id `id`.
pub open spec fn requests_have(s: Seq<PendingRequest>, id: Seq<char>) -> bool {
    exists|i: int| 0 <= i < s.len() && s[i].request_id@ == id
}

/// The index of the request with id `id` (meaningful under unique ids).
pub open spec fn request_idx(s: Seq<PendingRequest>, id: Seq<char>) -> int {
    choose|i: int| 0 <= i < s.len() && s[i].request_id@ == id
}

/// No request id occurs twice.
pub open spec fn requests_unique(s: Seq<PendingRequest>) -> bool {
    forall|i: int, j: int| 0 <= i < j < s.len() ==> s[i].request_id@ != s[j].request_id@
}

/// The request queue as a map from request id to record.
pub open spec fn requests_map_of(s: Seq<PendingRequest>) -> Map<Seq<char>, PendingRequest> {
    Map::new(|id: Seq<char>| requests_have(s, id), |id: Seq<char>| s[request_idx(s, id)])
}

/// With unique ids, any index holding `id` is the one `request_idx` selects.
pub proof fn lemma_request_at(s: Seq<PendingRequest>, j: int)
    requires
        requests_unique(s),
        0 <= j < s.len(),
    ensures
        request_idx(s, s[j].request_id@) == j,
        requests_map_of(s)[s[j].request_id@] == s[j],
{
    let id = s[j].request_id@;
    assert(requests_have(s, id));
    let i = request_idx(s, id);
    if i < j {
        assert(s[i].request_id@ != s[j].request_id@);
    } else if j < i {
        assert(s[j].request_id@ != s[i].request_id@);
    }
}

/// Replacing the request at an index, keeping its id, is a map insert.
pub proof fn lemma_requests_update(s0: Seq<PendingRequest>, i: int, e: PendingRequest)
    requires
        requests_unique(s0),
        0 <= i < s0.len(),
        e.request_id@ == s0[i].request_id@,
    ensures
        requests_unique(s0.update(i, e)),
        requests_map_of(s0.update(i, e)) == requests_map_of(s0).insert(e.request_id@, e),
{
    let s1 = s0.update(i, e);
    assert forall|p: int, q: int| 0 <= p < q < s1.len() implies s1[p].request_id@
        != s1[q].request_id@ by {
        assert(s0[p].request_id@ != s0[q].request_id@);
    }
    assert forall|k: Seq<char>| requests_have(s1, k) implies requests_have(s0, k) by {
        let w = choose|w: int| 0 <= w < s1.len() && s1[w].request_id@ == k;
        assert(s0[w].request_id@ == k);
    }
    assert forall|k: Seq<char>| requests_have(s0, k) implies requests_have(s1, k) by {
        let w = choose|w: int| 0 <= w < s0.len() && s0[w].request_id@ == k;
        assert(s1[w].request_id@ == k);
    }
    assert forall|k: Seq<char>| requests_have(s1, k) implies s1[request_idx(s1, k)]
        == requests_map_of(s0).insert(e.request_id@, e)[k] by {
        let w = request_idx(s1, k);
        assert(0 <= w < s1.len() && s1[w].request_id@ == k);
        lemma_request_at(s0, w);
        if w == i {
            assert(k == e.request_id@);
        } else {
            assert(s0[w] == s1[w]);
        }
    }
    assert(requests_map_of(s1) =~= requests_map_of(s0).insert(e.request_id@, e));
}

/// Appending a request under a fresh id is a map insert.
pub proof fn lemma_requests_push(s0: Seq<PendingRequest>, e: PendingRequest)
    requires
        requests_unique(s0),
        !requests_have(s0, e.request_id@),
    ensures
        requests_unique(s0.push(e)),
        requests_map_of(s0.push(e)) == requests_map_of(s0).insert(e.request_id@, e),
{
    let s1 = s0.push(e);
    assert forall|p: int, q: int| 0 <= p < q < s1.len() implies s1[p].request_id@
        != s1[q].request_id@ by {
        if q < s0.len() {
            assert(s0[p].request_id@ != s0[q].request_id@);
        } else {
            assert(s1[q].request_id@ == e.request_id@);
            assert(s0[p].request_id@ != e.request_id@);
        }
    }
    assert(requests_have(s1, e.request_id@)) by {
        assert(s1[s0.len() as int].request_id@ == e.request_id@);
    }
    assert forall|k: Seq<char>| requests_have(s1, k) && k != e.request_id@ implies requests_have(
        s0,
        k,
    ) by {
        let w = choose|w: int| 0 <= w < s1.len() && s1[w].request_id@ == k;
        assert(w < s0.len());
        assert(s0[w].request_id@ == k);
    }
    assert forall|k: Seq<char>| requests_have(s0, k) implies requests_have(s1, k) by {
        let w = choose|w: int| 0 <= w < s0.len() && s0[w].request_id@ == k;
        assert(s1[w].request_id@ == k);
    }
    assert forall|k: Seq<char>| requests_have(s1, k) implies s1[request_idx(s1, k)]
        == requests_map_of(s0).insert(e.request_id@, e)[k] by {
        let w = request_idx(s1, k);
        assert(0 <= w < s1.len() && s1[w].request_id@ == k);
        if w == s0.len() {
            assert(k == e.request_id@);
        } else {
            lemma_request_at(s0, w);
        }
    }
    assert(requests_map_of(s1) =~= requests_map_of(s0).insert(e.request_id@, e));
}

/// The queue key of a permission update: (owner, target, content).
pub open spec fn update_key_of(u: PendingPermissionUpdateV) -> (Seq<char>, Seq<char>, Seq<char>) {
    (u.from_owner, u.target_user, u.image_id)
}

/// True if some update of `s` carries the key `k`.
pub open spec fn updates_have(
    s: Seq<PendingPermissionUpdate>,
    k: (Seq<char>, Seq<char>, Seq<char>),
) -> bool {
    exists|i: int| 0 <= i < s.len() && update_key_of(s[i]@) == k
}

/// The index of the update with key `k` (meaningful under unique keys).
pub open spec fn update_idx(
    s: Seq<PendingPermissionUpdate>,
    k: (Seq<char>, Seq<char>, Seq<char>),
) -> int {
    choose|i: int| 0 <= i < s.len() && update_key_of(s[i]@) == k
}

/// No queue key occurs twice.
pub open spec fn updates_unique(s: Seq<PendingPermissionUpdate>) -> bool {
    forall|i: int, j: int|
        0 <= i < j < s.len() ==> update_key_of(s[i]@) != update_key_of(s[j]@)
}

/// The update queue as a map from key to record.
pub open spec fn updates_map_of(s: Seq<PendingPermissionUpdate>) -> Map<
    (Seq<char>, Seq<char>, Seq<char>),
    PendingPermissionUpdateV,
> {
    Map::new(
        |k: (Seq<char>, Seq<char>, Seq<char>)| updates_have(s, k),
        |k: (Seq<char>, Seq<char>, Seq<char>)| s[update_idx(s, k)]@,
    )
}

/// With unique keys, any index holding `k` is the one `update_idx` selects.
pub proof fn lemma_update_at(s: Seq<PendingPermissionUpdate>, j: int)
    requires
        updates_unique(s),
        0 <= j < s.len(),
    ensures
        update_idx(s, update_key_of(s[j]@)) == j,
        updates_map_of(s)[update_key_of(s[j]@)] == s[j]@,
{
    let k = update_key_of(s[j]@);
    assert(updates_have(s, k));
    let i = update_idx(s, k);
    if i < j {
        assert(update_key_of(s[i]@) != update_key_of(s[j]@));
    } else if j < i {
        assert(update_key_of(s[j]@) != update_key_of(s[i]@));
    }
}

/// Replacing the update at an index, keeping its key, is a map insert.
pub proof fn lemma_updates_update(
    s0: Seq<PendingPermissionUpdate>,
    i: int,
    e: PendingPermissionUpdate,
)
    requires
        updates_unique(s0),
        0 <= i < s0.len(),
        update_key_of(e@) == update_key_of(s0[i]@),
    ensures
        updates_unique(s0.update(i, e)),
        updates_map_of(s0.update(i, e)) == updates_map_of(s0).insert(update_key_of(e@), e@),
{
    let s1 = s0.update(i, e);
    assert forall|p: int, q: int| 0 <= p < q < s1.len() implies update_key_of(s1[p]@)
        != update_key_of(s1[q]@) by {
        assert(update_key_of(s0[p]@) != update_key_of(s0[q]@));
    }
    assert forall|k: (Seq<char>, Seq<char>, Seq<char>)| updates_have(s1, k) implies updates_have(
        s0,
        k,
    ) by {
        let w = choose|w: int| 0 <= w < s1.len() && update_key_of(s1[w]@) == k;
        assert(update_key_of(s0[w]@) == k);
    }
    assert forall|k: (Seq<char>, Seq<char>, Seq<char>)| updates_have(s0, k) implies updates_have(
        s1,
        k,
    ) by {
        let w = choose|w: int| 0 <= w < s0.len() && update_key_of(s0[w]@) == k;
        assert(update_key_of(s1[w]@) == k);
    }
    assert forall|k: (Seq<char>, Seq<char>, Seq<char>)| updates_have(s1, k) implies s1[update_idx(
        s1,
        k,
    )]@ == updates_map_of(s0).insert(update_key_of(e@), e@)[k] by {
        let w = update_idx(s1, k);
        assert(0 <= w < s1.len() && update_key_of(s1[w]@) == k);
        lemma_update_at(s0, w);
        if w == i {
            assert(k == update_key_of(e@));
        } else {
            assert(s0[w] == s1[w]);
        }
    }
    assert(updates_map_of(s1) =~= updates_map_of(s0).insert(update_key_of(e@), e@));
}

/// Appending an update under a fresh key is a map insert.
pub proof fn lemma_updates_push(s0: Seq<PendingPermissionUpdate>, e: PendingPermissionUpdate)
    requires
        updates_unique(s0),
        !updates_have(s0, update_key_of(e@)),
    ensures
        updates_unique(s0.push(e)),
        updates_map_of(s0.push(e)) == updates_map_of(s0).insert(update_key_of(e@), e@),
{
    let s1 = s0.push(e);
    assert forall|p: int, q: int| 0 <= p < q < s1.len() implies update_key_of(s1[p]@)
        != update_key_of(s1[q]@) by {
        if q < s0.len() {
            assert(update_key_of(s0[p]@) != update_key_of(s0[q]@));
        } else {
            assert(update_key_of(s1[q]@) == update_key_of(e@));
            assert(update_key_of(s0[p]@) != update_key_of(e@));
        }
    }
    assert(updates_have(s1, update_key_of(e@))) by {
        assert(update_key_of(s1[s0.len() as int]@) == update_key_of(e@));
    }
    assert forall|k: (Seq<char>, Seq<char>, Seq<char>)|
        updates_have(s1, k) && k != update_key_of(e@) implies updates_have(s0, k) by {
        let w = choose|w: int| 0 <= w < s1.len() && update_key_of(s1[w]@) == k;
        assert(w < s0.len());
        assert(update_key_of(s0[w]@) == k);
    }
    assert forall|k: (Seq<char>, Seq<char>, Seq<char>)| updates_have(s0, k) implies updates_have(
        s1,
        k,
    ) by {
        let w = choose|w: int| 0 <= w < s0.len() && update_key_of(s0[w]@) == k;
        assert(update_key_of(s1[w]@) == k);
    }
    assert forall|k: (Seq<char>, Seq<char>, Seq<char>)| updates_have(s1, k) implies s1[update_idx(
        s1,
        k,
    )]@ == updates_map_of(s0).insert(update_key_of(e@), e@)[k] by {
        let w = update_idx(s1, k);
        assert(0 <= w < s1.len() && update_key_of(s1[w]@) == k);
        if w == s0.len() {
            assert(k == update_key_of(e@));
        } else {
            lemma_update_at(s0, w);
        }
    }
    assert(updates_map_of(s1) =~= updates_map_of(s0).insert(update_key_of(e@), e@));
}


// ---------------------------------------------------------------------------
// Spec-level entry transformers.
// ---------------------------------------------------------------------------
/// `v` refreshed by a heartbeat at `now`.
pub open spec fn with_heartbeat(v: UserEntryV, now: u64) -> UserEntryV {
    UserEntryV { last_heartbeat: now, status: UserStatus::Online, ..v }
}

/// `v` with its status replaced.
pub open spec fn with_status(v: UserEntryV, status: UserStatus) -> UserEntryV {
    UserEntryV { status, ..v }
}

/// `v` with its advertised content list replaced wholesale.
pub open spec fn with_images(v: UserEntryV, shared_images: Seq<ImageInfo>) -> UserEntryV {
    UserEntryV { shared_images, ..v }
}

/// A member is active at `now` when its last heartbeat is no further back
/// than the timeout (a heartbeat from the future also counts as inactive).
pub open spec fn active_at(v: UserEntryV, now: u64, timeout: u64) -> bool {
    v.last_heartbeat <= now && now - v.last_heartbeat < timeout
}

/// What the liveness sweep does to one entry: an Online member whose
/// heartbeat has aged past the timeout flips to Offline, exactly once;
/// everything else is untouched.
pub open spec fn sweep_entry(v: UserEntryV, now: u64, timeout: u64) -> UserEntryV {
    if v.status is Online && !active_at(v, now, timeout) {
        with_status(v, UserStatus::Offline)
    } else {
        v
    }
}

/// The last-writer-wins choice between an existing and an incoming entry:
/// the incoming one replaces the existing one only when its heartbeat is
/// strictly newer.
pub open spec fn lww_pick(existing: UserEntryV, incoming: UserEntryV) -> UserEntryV {
    if incoming.last_heartbeat > existing.last_heartbeat {
        incoming
    } else {
        existing
    }
}

/// The replication merge: keys of both tables, values chosen last-writer-
/// wins where both have one. This is the sole consistency mechanism between
/// directory replicas.
pub open spec fn lww_merge(
    local: Map<Seq<char>, UserEntryV>,
    incoming: Map<Seq<char>, UserEntryV>,
) -> Map<Seq<char>, UserEntryV> {
    Map::new(
        |k: Seq<char>| local.contains_key(k) || incoming.contains_key(k),
        |k: Seq<char>|
            if !local.contains_key(k) {
                incoming[k]
            } else if !incoming.contains_key(k) {
                local[k]
            } else {
                lww_pick(local[k], incoming[k])
            },
    )
}

/// The views of a sequence of member entries.
pub open spec fn member_views(s: Seq<UserEntry>) -> Seq<UserEntryV> {
    s.map_values(|e: UserEntry| e@)
}

/// Taking views distributes over appending one entry.
pub proof fn lemma_member_views_push(s: Seq<UserEntry>, e: UserEntry)
    ensures
        member_views(s.push(e)) == member_views(s).push(e@),
{
    assert(member_views(s.push(e)) =~= member_views(s).push(e@));
}

/// The views of a sequence of queued permission updates.
pub open spec fn update_views(s: Seq<PendingPermissionUpdate>) -> Seq<PendingPermissionUpdateV> {
    s.map_values(|u: PendingPermissionUpdate| u@)
}

// ---------------------------------------------------------------------------
// The directory state proper.
// ---------------------------------------------------------------------------
/// The whole state of one directory node: the member table, the pending
/// request queue, and the pending permission-update queue, plus the
/// liveness timeout and this node's identifier.
pub struct DirectoryServiceState {
    pub heartbeat_timeout: u64,
    pub server_id: String,
    pub members: Vec<UserEntry>,
    pub pending_requests: Vec<PendingRequest>,
    pub pending_updates: Vec<PendingPermissionUpdate>,
}

impl DirectoryServiceState {
    /// Keys are unique in all three collections.
    pub open spec fn wf(self) -> bool {
        &&& members_unique(self.members@)
        &&& requests_unique(self.pending_requests@)
        &&& updates_unique(self.pending_updates@)
    }

    /// The member table, by name.
    pub open spec fn members_map(self) -> Map<Seq<char>, UserEntryV> {
        members_map_of(self.members@)
    }

    /// The member table as the sequence it is stored in.
    pub open spec fn members_seq(self) -> Seq<UserEntry> {
        self.members@
    }

    /// The pending requests, by request id.
    pub open spec fn requests_map(self) -> Map<Seq<char>, PendingRequest> {
        requests_map_of(self.pending_requests@)
    }

    /// The pending requests as the sequence they are stored in.
    pub open spec fn requests_seq(self) -> Seq<PendingRequest> {
        self.pending_requests@
    }

    /// The queued permission updates, by (owner, target, content) key.
    pub open spec fn updates_map(self) -> Map<
        (Seq<char>, Seq<char>, Seq<char>),
        PendingPermissionUpdateV,
    > {
        updates_map_of(self.pending_updates@)
    }

    /// The queued permission updates as the sequence they are stored in.
    pub open spec fn updates_seq(self) -> Seq<PendingPermissionUpdate> {
        self.pending_updates@
    }

    /// The node's fixed configuration is untouched.
    pub open spec fn config_unchanged(pre: Self, post: Self) -> bool {
        &&& post.heartbeat_timeout == pre.heartbeat_timeout
        &&& post.server_id == pre.server_id
    }

    /// A fresh node: everything empty.
    pub fn new(heartbeat_timeout: u64, server_id: String) -> (r: Self)
        ensures
            r.wf(),
            r.heartbeat_timeout == heartbeat_timeout,
            r.server_id == server_id,
            r.members_map() == Map::<Seq<char>, UserEntryV>::empty(),
            r.requests_map() == Map::<Seq<char>, PendingRequest>::empty(),
            r.updates_map() == Map::<(Seq<char>, Seq<char>, Seq<char>),
                PendingPermissionUpdateV>::empty(),
            r.members_seq().len() == 0,
            r.requests_seq().len() == 0,
            r.updates_seq().len() == 0,
    {
        let r = DirectoryServiceState {
            heartbeat_timeout,
            server_id,
            members: Vec::new(),
            pending_requests: Vec::new(),
            pending_updates: Vec::new(),
        };
        proof {
            assert(r.members_map() =~= Map::<Seq<char>, UserEntryV>::empty());
            assert(r.requests_map() =~= Map::<Seq<char>, PendingRequest>::empty());
            assert(r.updates_map() =~= Map::<(Seq<char>, Seq<char>, Seq<char>),
                PendingPermissionUpdateV>::empty());
        }
        r
    }

    /// The index of the member named `name`, searched linearly.
    fn find_member_idx(&self, name: &String) -> (r: Option<usize>)
        ensures
            match r {
                Some(i) => i < self.members@.len() && self.members@[i as int].username@ == name@,
                None => !members_have(self.members@, name@),
            },
    {
        let n = self.members.len();
        let mut i: usize = 0;
        while i < n
            invariant
                n == self.members@.len(),
                i <= n,
                forall|j: int| 0 <= j < i ==> self.members@[j].username@ != name@,
            decreases n - i,
        {
            if self.members[i].username == *name {
                return Some(i);
            }
            i = i + 1;
        }
        None
    }

    /// Upsert a member as Online with a fresh heartbeat and the advertised
    /// content it brings. Registration always succeeds.
    pub fn register_user(
        &mut self,
        username: String,
        p2p_address: String,
        shared_images: Vec<ImageInfo>,
        now: u64,
    ) -> (r: Result<(), ServiceError>)
        requires
            old(self).wf(),
        ensures
            final(self).wf(),
            r is Ok,
            Self::config_unchanged(*old(self), *final(self)),
            final(self).members_map() == old(self).members_map().insert(
                username@,
                (UserEntryV {
                    username: username@,
                    p2p_address: p2p_address@,
                    last_heartbeat: now,
                    status: UserStatus::Online,
                    shared_images: shared_images@,
                }),
            ),
            final(self).requests_seq() == old(self).requests_seq(),
            final(self).updates_seq() == old(self).updates_seq(),
    {
        let idx = self.find_member_idx(&username);
        let entry = UserEntry {
            username,
            p2p_address,
            last_heartbeat: now,
            status: UserStatus::Online,
            shared_images,
        };
        let ghost s0 = self.members@;
        match idx {
            Some(i) => {
                proof {
                    lemma_members_update(s0, i as int, entry);
                }
                self.members.set(i, entry);
            },
            None => {
                proof {
                    lemma_members_push(s0, entry);
                }
                self.members.push(entry);
            },
        }
        Ok(())
    }

    /// Refresh a member's heartbeat and mark it Online; fails NotFound when
    /// the name was never registered. Nothing else changes either way.
    pub fn update_heartbeat(&mut self, username: &String, now: u64) -> (r: Result<
        (),
        ServiceError,
    >)
        requires
            old(self).wf(),
        ensures
            final(self).wf(),
            Self::config_unchanged(*old(self), *final(self)),
            final(self).requests_seq() == old(self).requests_seq(),
            final(self).updates_seq() == old(self).updates_seq(),
            r is Ok <==> old(self).members_map().contains_key(username@),
            r is Err ==> r == Err::<(), ServiceError>(ServiceError::NotFound) && final(self)
                .members_seq() == old(self).members_seq(),
            r is Ok ==> final(self).members_map() == old(self).members_map().insert(
                username@,
                with_heartbeat(old(self).members_map()[username@], now),
            ),
    {
        let ghost s0 = self.members@;
        match self.find_member_idx(username) {
            Some(i) => {
                proof {
                    lemma_member_at(s0, i as int);
                }
                let mut e = self.members[i].clone();
                e.last_heartbeat = now;
                e.status = UserStatus::Online;
                proof {
                    assert(e@ =~= with_heartbeat(old(self).members_map()[username@], now));
                    lemma_members_update(s0, i as int, e);
                }
                self.members.set(i, e);
                Ok(())
            },
            None => Err(ServiceError::NotFound),
        }
    }

    /// Read one member's entry; None when the name is unknown.
    pub fn query_user(&self, username: &String) -> (r: Option<UserEntry>)
        requires
            self.wf(),
        ensures
            match r {
                Some(e) => self.members_map().contains_key(username@) && e@ == self.members_map()[
                    username@
                ],
                None => !self.members_map().contains_key(username@),
            },
    {
        match self.find_member_idx(username) {
            Some(i) => {
                proof {
                    lemma_member_at(self.members@, i as int);
                }
                Some(self.members[i].clone())
            },
            None => None,
        }
    }

    /// A copy of the whole member table, the unit of replication and of
    /// peer-to-peer recovery.
    pub fn get_full_state(&self) -> (r: Vec<UserEntry>)
        ensures
            member_views(r@) == member_views(self.members_seq()),
            r@.len() == self.members_seq().len(),
    {
        let r = self.members.clone();
        proof {
            assert forall|i: int| 0 <= i < r@.len() implies r@[i]@ == self.members@[i]@ by {
                assert(cloned::<UserEntry>(self.members@[i], r@[i]));
            }
            assert(member_views(r@) =~= member_views(self.members@));
        }
        r
    }

    /// Whether `user` counts as alive at `now` under this node's timeout.
    pub fn is_user_active(&self, user: &UserEntry, now: u64) -> (r: bool)
        ensures
            r == active_at(user@, now, self.heartbeat_timeout),
    {
        user.last_heartbeat <= now && now - user.last_heartbeat < self.heartbeat_timeout
    }
}


// ---------------------------------------------------------------------------
// Named predicates over stored records, shared by contracts and proofs.
// ---------------------------------------------------------------------------
/// Members another user sees when asking for everyone who is online:
/// not the asker, marked Online, and heartbeat-fresh at `now`.
pub open spec fn online_peer_pred(requester: Seq<char>, now: u64, timeout: u64) -> spec_fn(
    UserEntry,
) -> bool {
    |e: UserEntry| e.username@ != requester && e.status is Online && active_at(e@, now, timeout)
}

/// Members another user sees when asking for everyone, online or offline.
pub open spec fn other_peer_pred(requester: Seq<char>) -> spec_fn(UserEntry) -> bool {
    |e: UserEntry| e.username@ != requester
}

/// Requests waiting for `user` to answer.
pub open spec fn pending_to_pred(user: Seq<char>) -> spec_fn(PendingRequest) -> bool {
    |r: PendingRequest| r.to_user@ == user && r.status is Pending
}

/// Finished requests that `user` made: the notifications they poll for.
pub open spec fn notification_pred(user: Seq<char>) -> spec_fn(PendingRequest) -> bool {
    |r: PendingRequest| r.from_user@ == user && (r.status is Accepted || r.status is Rejected)
}

/// What survives purging `user`'s notifications.
pub open spec fn keep_non_notification_pred(user: Seq<char>) -> spec_fn(PendingRequest) -> bool {
    |r: PendingRequest| !(r.from_user@ == user && (r.status is Accepted || r.status is Rejected))
}

/// What survives purging the requests still pending toward `user`.
pub open spec fn keep_non_pending_to_pred(user: Seq<char>) -> spec_fn(PendingRequest) -> bool {
    |r: PendingRequest| !(r.to_user@ == user && r.status is Pending)
}

/// Queued updates addressed to `user`.
pub open spec fn update_for_pred(user: Seq<char>) -> spec_fn(PendingPermissionUpdate) -> bool {
    |u: PendingPermissionUpdate| u.target_user@ == user
}

/// Queued updates addressed to anyone else.
pub open spec fn update_not_for_pred(user: Seq<char>) -> spec_fn(PendingPermissionUpdate) -> bool {
    |u: PendingPermissionUpdate| u.target_user@ != user
}

impl DirectoryServiceState {
    /// Everyone but the asker who is Online and heartbeat-fresh at `now`,
    /// as copies, in table order.
    pub fn get_online_peers(&self, requesting_user: &String, now: u64) -> (r: Vec<UserEntry>)
        requires
            self.wf(),
        ensures
            member_views(r@) == member_views(
                self.members_seq().filter(
                    online_peer_pred(requesting_user@, now, self.heartbeat_timeout),
                ),
            ),
    {
        let ghost pred = online_peer_pred(requesting_user@, now, self.heartbeat_timeout);
        let ghost orig = self.members@;
        let mut r: Vec<UserEntry> = Vec::new();
        proof {
            reveal(Seq::filter);
            assert(orig.take(0).filter(pred) =~= Seq::<UserEntry>::empty());
            assert(member_views(r@) =~= member_views(orig.take(0).filter(pred)));
        }
        let n = self.members.len();
        let mut i: usize = 0;
        while i < n
            invariant
                self.wf(),
                n == self.members@.len(),
                orig == self.members@,
                pred == online_peer_pred(requesting_user@, now, self.heartbeat_timeout),
                i <= n,
                member_views(r@) == member_views(orig.take(i as int).filter(pred)),
            decreases n - i,
        {
            let e = &self.members[i];
            let keep = e.username != *requesting_user && e.status == UserStatus::Online
                && self.is_user_active(e, now);
            proof {
                assert(keep == pred(orig[i as int]));
                lemma_filter_take_step(orig, i as int, pred);
            }
            if keep {
                let c = e.clone();
                proof {
                    assert(c@ == orig[i as int]@);
                }
                r.push(c);
                proof {
                    lemma_member_views_push(orig.take(i as int).filter(pred), orig[i as int]);
                    assert(member_views(r@) =~= member_views(orig.take(i as int).filter(pred)).push(
                        orig[i as int]@,
                    ));
                }
            }
            i = i + 1;
        }
        proof {
            lemma_filter_take_all(orig, pred);
        }
        r
    }

    /// Everyone but the asker, online or offline, as copies, in table order.
    pub fn get_all_peers(&self, requesting_user: &String) -> (r: Vec<UserEntry>)
        requires
            self.wf(),
        ensures
            member_views(r@) == member_views(
                self.members_seq().filter(other_peer_pred(requesting_user@)),
            ),
    {
        let ghost pred = other_peer_pred(requesting_user@);
        let ghost orig = self.members@;
        let mut r: Vec<UserEntry> = Vec::new();
        proof {
            reveal(Seq::filter);
            assert(orig.take(0).filter(pred) =~= Seq::<UserEntry>::empty());
            assert(member_views(r@) =~= member_views(orig.take(0).filter(pred)));
        }
        let n = self.members.len();
        let mut i: usize = 0;
        while i < n
            invariant
                self.wf(),
                n == self.members@.len(),
                orig == self.members@,
                pred == other_peer_pred(requesting_user@),
                i <= n,
                member_views(r@) == member_views(orig.take(i as int).filter(pred)),
            decreases n - i,
        {
            let e = &self.members[i];
            proof {
                assert((e.username@ != requesting_user@) == pred(orig[i as int]));
                lemma_filter_take_step(orig, i as int, pred);
            }
            if e.username != *requesting_user {
                let c = e.clone();
                proof {
                    assert(c@ == orig[i as int]@);
                }
                r.push(c);
                proof {
                    lemma_member_views_push(orig.take(i as int).filter(pred), orig[i as int]);
                    assert(member_views(r@) =~= member_views(orig.take(i as int).filter(pred)).push(
                        orig[i as int]@,
                    ));
                }
            }
            i = i + 1;
        }
        proof {
            lemma_filter_take_all(orig, pred);
        }
        r
    }

    /// Replace a member's advertised content list wholesale; fails NotFound
    /// when the name is unknown.
    pub fn update_shared_images(&mut self, username: &String, shared_images: Vec<ImageInfo>) -> (r:
        Result<(), ServiceError>)
        requires
            old(self).wf(),
        ensures
            final(self).wf(),
            Self::config_unchanged(*old(self), *final(self)),
            final(self).requests_seq() == old(self).requests_seq(),
            final(self).updates_seq() == old(self).updates_seq(),
            r is Ok <==> old(self).members_map().contains_key(username@),
            r is Err ==> r == Err::<(), ServiceError>(ServiceError::NotFound) && final(self)
                .members_seq() == old(self).members_seq(),
            r is Ok ==> final(self).members_map() == old(self).members_map().insert(
                username@,
                with_images(old(self).members_map()[username@], shared_images@),
            ),
    {
        let ghost s0 = self.members@;
        match self.find_member_idx(username) {
            Some(i) => {
                proof {
                    lemma_member_at(s0, i as int);
                }
                let mut e = self.members[i].clone();
                e.shared_images = shared_images;
                proof {
                    assert(e@ =~= with_images(old(self).members_map()[username@], shared_images@));
                    lemma_members_update(s0, i as int, e);
                }
                self.members.set(i, e);
                Ok(())
            },
            None => Err(ServiceError::NotFound),
        }
    }

    /// Drop every finished request that `username` had made: their
    /// notifications are ephemeral and vanish when they leave.
    pub fn clear_notifications_for_user(&mut self, username: &String)
        requires
            old(self).wf(),
        ensures
            final(self).wf(),
            Self::config_unchanged(*old(self), *final(self)),
            final(self).members_seq() == old(self).members_seq(),
            final(self).updates_seq() == old(self).updates_seq(),
            final(self).requests_seq() == old(self).requests_seq().filter(
                keep_non_notification_pred(username@),
            ),
    {
        let ghost pred = keep_non_notification_pred(username@);
        let ghost orig = self.pending_requests@;
        let mut kept: Vec<PendingRequest> = Vec::new();
        proof {
            reveal(Seq::filter);
            assert(orig.take(0).filter(pred) =~= Seq::<PendingRequest>::empty());
        }
        let n = self.pending_requests.len();
        let mut i: usize = 0;
        while i < n
            invariant
                n == self.pending_requests@.len(),
                orig == self.pending_requests@,
                pred == keep_non_notification_pred(username@),
                i <= n,
                kept@ == orig.take(i as int).filter(pred),
            decreases n - i,
        {
            let e = &self.pending_requests[i];
            proof {
                assert(!(e.from_user@ == username@ && (e.status is Accepted || e.status
                    is Rejected)) == pred(orig[i as int]));
                lemma_filter_take_step(orig, i as int, pred);
            }
            if !(e.from_user == *username && (e.status == RequestStatus::Accepted || e.status
                == RequestStatus::Rejected)) {
                kept.push(self.pending_requests[i].clone());
            }
            i = i + 1;
        }
        proof {
            lemma_filter_take_all(orig, pred);
            lemma_filter_distinct_keys(orig, pred, |r: PendingRequest| r.request_id@);
        }
        self.pending_requests = kept;
    }

    /// Drop every request still pending toward `username`, so stale asks do
    /// not pile up while they are away.
    pub fn clear_pending_requests_to_user(&mut self, username: &String)
        requires
            old(self).wf(),
        ensures
            final(self).wf(),
            Self::config_unchanged(*old(self), *final(self)),
            final(self).members_seq() == old(self).members_seq(),
            final(self).updates_seq() == old(self).updates_seq(),
            final(self).requests_seq() == old(self).requests_seq().filter(
                keep_non_pending_to_pred(username@),
            ),
    {
        let ghost pred = keep_non_pending_to_pred(username@);
        let ghost orig = self.pending_requests@;
        let mut kept: Vec<PendingRequest> = Vec::new();
        proof {
            reveal(Seq::filter);
            assert(orig.take(0).filter(pred) =~= Seq::<PendingRequest>::empty());
        }
        let n = self.pending_requests.len();
        let mut i: usize = 0;
        while i < n
            invariant
                n == self.pending_requests@.len(),
                orig == self.pending_requests@,
                pred == keep_non_pending_to_pred(username@),
                i <= n,
                kept@ == orig.take(i as int).filter(pred),
            decreases n - i,
        {
            let e = &self.pending_requests[i];
            proof {
                assert(!(e.to_user@ == username@ && e.status is Pending) == pred(orig[i as int]));
                lemma_filter_take_step(orig, i as int, pred);
            }
            if !(e.to_user == *username && e.status == RequestStatus::Pending) {
                kept.push(self.pending_requests[i].clone());
            }
            i = i + 1;
        }
        proof {
            lemma_filter_take_all(orig, pred);
            lemma_filter_distinct_keys(orig, pred, |r: PendingRequest| r.request_id@);
        }
        self.pending_requests = kept;
    }

    /// Mark a member Offline and purge their notifications and the requests
    /// still pending toward them; fails NotFound when the name is unknown.
    pub fn unregister_user(&mut self, username: &String) -> (r: Result<(), ServiceError>)
        requires
            old(self).wf(),
        ensures
            final(self).wf(),
            Self::config_unchanged(*old(self), *final(self)),
            final(self).updates_seq() == old(self).updates_seq(),
            r is Ok <==> old(self).members_map().contains_key(username@),
            r is Err ==> r == Err::<(), ServiceError>(ServiceError::NotFound) && final(self)
                .members_seq() == old(self).members_seq() && final(self).requests_seq() == old(
                self,
            ).requests_seq(),
            r is Ok ==> final(self).members_map() == old(self).members_map().insert(
                username@,
                with_status(old(self).members_map()[username@], UserStatus::Offline),
            ),
            r is Ok ==> final(self).requests_seq() == old(self).requests_seq().filter(
                keep_non_notification_pred(username@),
            ).filter(keep_non_pending_to_pred(username@)),
    {
        let ghost s0 = self.members@;
        match self.find_member_idx(username) {
            Some(i) => {
                proof {
                    lemma_member_at(s0, i as int);
                }
                let mut e = self.members[i].clone();
                e.status = UserStatus::Offline;
                proof {
                    assert(e@ =~= with_status(
                        old(self).members_map()[username@],
                        UserStatus::Offline,
                    ));
                    lemma_members_update(s0, i as int, e);
                }
                self.members.set(i, e);
                self.clear_notifications_for_user(username);
                self.clear_pending_requests_to_user(username);
                Ok(())
            },
            None => Err(ServiceError::NotFound),
        }
    }

    /// The liveness sweep: flip every Online member whose heartbeat has
    /// aged past the timeout to Offline; touch nothing else.
    pub fn cleanup_inactive_users(&mut self, now: u64)
        requires
            old(self).wf(),
        ensures
            final(self).wf(),
            Self::config_unchanged(*old(self), *final(self)),
            final(self).requests_seq() == old(self).requests_seq(),
            final(self).updates_seq() == old(self).updates_seq(),
            final(self).members_seq().len() == old(self).members_seq().len(),
            forall|i: int|
                0 <= i < old(self).members_seq().len() ==> final(self).members_seq()[i]@
                    == sweep_entry(
                    #[trigger] old(self).members_seq()[i]@,
                    now,
                    old(self).heartbeat_timeout,
                ),
            final(self).members_map() == old(self).members_map().map_values(
                |v: UserEntryV| sweep_entry(v, now, old(self).heartbeat_timeout),
            ),
    {
        let ghost orig = self.members@;
        let ghost timeout = self.heartbeat_timeout;
        let n = self.members.len();
        let mut i: usize = 0;
        while i < n
            invariant
                n == self.members@.len(),
                n == orig.len(),
                i <= n,
                self.heartbeat_timeout == timeout,
                Self::config_unchanged(*old(self), *self),
                self.pending_requests@ == old(self).pending_requests@,
                self.pending_updates@ == old(self).pending_updates@,
                forall|j: int|
                    0 <= j < i ==> self.members@[j]@ == sweep_entry(
                        #[trigger] orig[j]@,
                        now,
                        timeout,
                    ),
                forall|j: int| i <= j < n ==> self.members@[j] == orig[j],
                forall|j: int| 0 <= j < n ==> self.members@[j].username@ == orig[j].username@,
            decreases n - i,
        {
            let stale = self.members[i].status == UserStatus::Online && !self.is_user_active(
                &self.members[i],
                now,
            );
            if stale {
                let mut e = self.members[i].clone();
                e.status = UserStatus::Offline;
                proof {
                    assert(e@ =~= sweep_entry(orig[i as int]@, now, timeout));
                }
                self.members.set(i, e);
            } else {
                proof {
                    assert(self.members@[i as int]@ =~= sweep_entry(orig[i as int]@, now, timeout));
                }
            }
            i = i + 1;
        }
        proof {
            let s1 = self.members@;
            assert(members_unique(s1)) by {
                assert forall|p: int, q: int| 0 <= p < q < s1.len() implies s1[p].username@
                    != s1[q].username@ by {
                    assert(orig[p].username@ != orig[q].username@);
                }
            }
            let f = |v: UserEntryV| sweep_entry(v, now, timeout);
            assert forall|k: Seq<char>| members_have(s1, k) implies members_have(orig, k) by {
                let w = choose|w: int| 0 <= w < s1.len() && s1[w].username@ == k;
                assert(orig[w].username@ == k);
            }
            assert forall|k: Seq<char>| members_have(orig, k) implies members_have(s1, k) by {
                let w = choose|w: int| 0 <= w < orig.len() && orig[w].username@ == k;
                assert(s1[w].username@ == k);
            }
            assert forall|k: Seq<char>| members_have(s1, k) implies s1[member_idx(s1, k)]@ == f(
                members_map_of(orig)[k],
            ) by {
                let w = member_idx(s1, k);
                assert(0 <= w < s1.len() && s1[w].username@ == k);
                lemma_member_at(s1, w);
                assert(orig[w].username@ == k);
                lemma_member_at(orig, w);
            }
            assert(members_map_of(s1) =~= members_map_of(orig).map_values(f));
        }
    }

    /// The replication merge: for each incoming member, keep whichever of
    /// the existing and the incoming entry has the newer heartbeat;
    /// incoming names never seen before are adopted as they are.
    pub fn receive_state_sync(&mut self, incoming: Vec<UserEntry>)
        requires
            old(self).wf(),
            members_unique(incoming@),
        ensures
            final(self).wf(),
            Self::config_unchanged(*old(self), *final(self)),
            final(self).requests_seq() == old(self).requests_seq(),
            final(self).updates_seq() == old(self).updates_seq(),
            final(self).members_map() == lww_merge(
                old(self).members_map(),
                members_map_of(incoming@),
            ),
    {
        let ghost orig_map = old(self).members_map();
        let n = incoming.len();
        let mut i: usize = 0;
        while i < n
            invariant
                self.wf(),
                Self::config_unchanged(*old(self), *self),
                self.pending_requests@ == old(self).pending_requests@,
                self.pending_updates@ == old(self).pending_updates@,
                n == incoming@.len(),
                members_unique(incoming@),
                i <= n,
                self.members_map() == lww_merge(orig_map, members_map_of(incoming@.take(i as int))),
            decreases n - i,
        {
            let ghost cur = self.members_map();
            let ghost mi = members_map_of(incoming@.take(i as int));
            let inc = incoming[i].clone();
            let ghost k = inc.username@;
            proof {
                assert(incoming@.take(i as int).push(incoming@[i as int]) =~= incoming@.take(
                    i as int + 1,
                ));
                assert(forall|j: int|
                    0 <= j < i ==> incoming@.take(i as int)[j].username@ != k) by {
                    assert(forall|j: int|
                        0 <= j < i ==> #[trigger] incoming@[j].username@ != incoming@[i as int].username@);
                }
                assert(!members_have(incoming@.take(i as int), k));
                lemma_members_push(incoming@.take(i as int), incoming[i as int]);
                assert(inc@ == incoming@[i as int]@);
                assert(members_map_of(incoming@.take(i as int + 1)) == mi.insert(
                    k,
                    incoming@[i as int]@,
                ));
            }
            let ghost s_before = self.members@;
            let ghost v = incoming@[i as int]@;
            let ghost goal = lww_merge(orig_map, mi.insert(k, v));
            proof {
                assert(lww_merge(orig_map, members_map_of(incoming@.take(i as int + 1))) == goal);
                assert(cur == members_map_of(s_before));
            }
            match self.find_member_idx(&inc.username) {
                Some(j) => {
                    proof {
                        lemma_member_at(s_before, j as int);
                        assert(s_before[j as int].username@ == k);
                        assert(cur.contains_key(k));
                        assert(!mi.contains_key(k));
                        assert(orig_map.contains_key(k));
                        assert(cur[k] == orig_map[k]);
                        assert(cur[k] == s_before[j as int]@);
                    }
                    if inc.last_heartbeat > self.members[j].last_heartbeat {
                        proof {
                            assert(v.last_heartbeat > cur[k].last_heartbeat);
                            lemma_members_update(s_before, j as int, inc);
                        }
                        self.members.set(j, inc);
                        proof {
                            assert(self.members_map() == cur.insert(k, v));
                            assert(lww_pick(orig_map[k], v) == v);
                            assert(self.members_map() =~= goal);
                        }
                    } else {
                        proof {
                            assert(v.last_heartbeat <= cur[k].last_heartbeat);
                            assert(lww_pick(orig_map[k], v) == cur[k]);
                            assert(self.members_map() =~= goal);
                        }
                    }
                },
                None => {
                    proof {
                        assert(!cur.contains_key(k));
                        assert(!orig_map.contains_key(k));
                        lemma_members_push(s_before, inc);
                    }
                    self.members.push(inc);
                    proof {
                        assert(self.members_map() == cur.insert(k, v));
                        assert(self.members_map() =~= goal);
                    }
                },
            }
            i = i + 1;
        }
        proof {
            assert(incoming@.take(n as int) =~= incoming@);
        }
    }

    /// Adopt a snapshot read back from stable storage: the three collections
    /// wholesale, with every member forced Offline until a fresh heartbeat
    /// proves liveness.
    pub fn install_snapshot(
        &mut self,
        members: Vec<UserEntry>,
        pending_requests: Vec<PendingRequest>,
        pending_updates: Vec<PendingPermissionUpdate>,
    )
        requires
            old(self).wf(),
            members_unique(members@),
            requests_unique(pending_requests@),
            updates_unique(pending_updates@),
        ensures
            final(self).wf(),
            Self::config_unchanged(*old(self), *final(self)),
            final(self).requests_seq() == pending_requests@,
            final(self).updates_seq() == pending_updates@,
            final(self).members_seq().len() == members@.len(),
            forall|i: int|
                0 <= i < members@.len() ==> final(self).members_seq()[i]@ == with_status(
                    #[trigger] members@[i]@,
                    UserStatus::Offline,
                ),
            final(self).members_map() == members_map_of(members@).map_values(
                |v: UserEntryV| with_status(v, UserStatus::Offline),
            ),
    {
        let ghost orig = members@;
        self.members = members;
        self.pending_requests = pending_requests;
        self.pending_updates = pending_updates;
        let n = self.members.len();
        let mut i: usize = 0;
        while i < n
            invariant
                n == self.members@.len(),
                n == orig.len(),
                i <= n,
                self.pending_requests@ == pending_requests@,
                self.pending_updates@ == pending_updates@,
                Self::config_unchanged(*old(self), *self),
                forall|j: int|
                    0 <= j < i ==> self.members@[j]@ == with_status(
                        #[trigger] orig[j]@,
                        UserStatus::Offline,
                    ),
                forall|j: int| i <= j < n ==> self.members@[j] == orig[j],
                forall|j: int| 0 <= j < n ==> self.members@[j].username@ == orig[j].username@,
            decreases n - i,
        {
            let mut e = self.members[i].clone();
            e.status = UserStatus::Offline;
            proof {
                assert(e@ =~= with_status(orig[i as int]@, UserStatus::Offline));
            }
            self.members.set(i, e);
            i = i + 1;
        }
        proof {
            let s1 = self.members@;
            assert(members_unique(s1)) by {
                assert forall|p: int, q: int| 0 <= p < q < s1.len() implies s1[p].username@
                    != s1[q].username@ by {
                    assert(orig[p].username@ != orig[q].username@);
                }
            }
            assert(requests_unique(pending_requests@));
            assert(updates_unique(pending_updates@));
            let f = |v: UserEntryV| with_status(v, UserStatus::Offline);
            assert forall|k: Seq<char>| members_have(s1, k) implies members_have(orig, k) by {
                let w = choose|w: int| 0 <= w < s1.len() && s1[w].username@ == k;
                assert(orig[w].username@ == k);
            }
            assert forall|k: Seq<char>| members_have(orig, k) implies members_have(s1, k) by {
                let w = choose|w: int| 0 <= w < orig.len() && orig[w].username@ == k;
                assert(s1[w].username@ == k);
            }
            assert forall|k: Seq<char>| members_have(s1, k) implies s1[member_idx(s1, k)]@ == f(
                members_map_of(orig)[k],
            ) by {
                let w = member_idx(s1, k);
                assert(0 <= w < s1.len() && s1[w].username@ == k);
                lemma_member_at(s1, w);
                assert(orig[w].username@ == k);
                lemma_member_at(orig, w);
            }
            assert(members_map_of(s1) =~= members_map_of(orig).map_values(f));
        }
    }
}


/// `r` with only its status replaced.
pub open spec fn req_with_status(r: PendingRequest, status: RequestStatus) -> PendingRequest {
    PendingRequest { status, ..r }
}

/// Relies on `uuid::Uuid::new_v4` and its `Display` form: a fresh random
/// version-4 identifier rendered hyphenated, which is always 36 characters.
#[verifier::external_body]
fn fresh_request_id() -> (r: String)
    ensures
        r@.len() == 36,
{
    uuid::Uuid::new_v4().to_string()
}

impl DirectoryServiceState {
    /// The index of the request with id `id`, searched linearly.
    fn find_request_idx(&self, id: &String) -> (r: Option<usize>)
        ensures
            match r {
                Some(i) => i < self.pending_requests@.len()
                    && self.pending_requests@[i as int].request_id@ == id@,
                None => !requests_have(self.pending_requests@, id@),
            },
    {
        let n = self.pending_requests.len();
        let mut i: usize = 0;
        while i < n
            invariant
                n == self.pending_requests@.len(),
                i <= n,
                forall|j: int| 0 <= j < i ==> self.pending_requests@[j].request_id@ != id@,
            decreases n - i,
        {
            if self.pending_requests[i].request_id == *id {
                return Some(i);
            }
            i = i + 1;
        }
        None
    }

    /// The index of the queued update keyed (owner, target, content),
    /// searched linearly.
    fn find_update_idx(&self, from_owner: &String, target_user: &String, image_id: &String) -> (r:
        Option<usize>)
        ensures
            match r {
                Some(i) => i < self.pending_updates@.len() && update_key_of(
                    self.pending_updates@[i as int]@,
                ) == (from_owner@, target_user@, image_id@),
                None => !updates_have(
                    self.pending_updates@,
                    (from_owner@, target_user@, image_id@),
                ),
            },
    {
        let n = self.pending_updates.len();
        let mut i: usize = 0;
        while i < n
            invariant
                n == self.pending_updates@.len(),
                i <= n,
                forall|j: int|
                    0 <= j < i ==> update_key_of(#[trigger] self.pending_updates@[j]@) != (
                        from_owner@,
                        target_user@,
                        image_id@,
                    ),
            decreases n - i,
        {
            let u = &self.pending_updates[i];
            if u.from_owner == *from_owner && u.target_user == *target_user && u.image_id
                == *image_id {
                return Some(i);
            }
            i = i + 1;
        }
        None
    }

    /// Record a request toward `to_user`, whatever their status: it always
    /// succeeds and hands back the fresh request id. The target sees it via
    /// `get_pending_requests_for_user` whenever they next ask.
    pub fn leave_request(
        &mut self,
        from_user: String,
        to_user: String,
        image_id: String,
        requested_views: u32,
        now: u64,
    ) -> (r: Result<String, ServiceError>)
        requires
            old(self).wf(),
        ensures
            final(self).wf(),
            Self::config_unchanged(*old(self), *final(self)),
            final(self).members_seq() == old(self).members_seq(),
            final(self).updates_seq() == old(self).updates_seq(),
            r is Ok,
            r matches Ok(id) ==> id@.len() == 36 && final(self).requests_map() == old(
                self,
            ).requests_map().insert(
                id@,
                (PendingRequest {
                    request_id: id,
                    from_user,
                    to_user,
                    image_id,
                    requested_views,
                    timestamp: now,
                    status: RequestStatus::Pending,
                }),
            ),
    {
        let id = fresh_request_id();
        let record = PendingRequest {
            request_id: id.clone(),
            from_user,
            to_user,
            image_id,
            requested_views,
            timestamp: now,
            status: RequestStatus::Pending,
        };
        let ghost s0 = self.pending_requests@;
        match self.find_request_idx(&id) {
            Some(i) => {
                proof {
                    lemma_requests_update(s0, i as int, record);
                }
                self.pending_requests.set(i, record);
            },
            None => {
                proof {
                    lemma_requests_push(s0, record);
                }
                self.pending_requests.push(record);
            },
        }
        Ok(id)
    }

    /// The requests still waiting for `username` to answer, as copies, in
    /// queue order.
    pub fn get_pending_requests_for_user(&self, username: &String) -> (r: Vec<PendingRequest>)
        requires
            self.wf(),
        ensures
            r@ == self.requests_seq().filter(pending_to_pred(username@)),
    {
        let ghost pred = pending_to_pred(username@);
        let ghost orig = self.pending_requests@;
        let mut r: Vec<PendingRequest> = Vec::new();
        proof {
            reveal(Seq::filter);
            assert(orig.take(0).filter(pred) =~= Seq::<PendingRequest>::empty());
        }
        let n = self.pending_requests.len();
        let mut i: usize = 0;
        while i < n
            invariant
                n == self.pending_requests@.len(),
                orig == self.pending_requests@,
                pred == pending_to_pred(username@),
                i <= n,
                r@ == orig.take(i as int).filter(pred),
            decreases n - i,
        {
            let e = &self.pending_requests[i];
            proof {
                assert((e.to_user@ == username@ && e.status is Pending) == pred(orig[i as int]));
                lemma_filter_take_step(orig, i as int, pred);
            }
            if e.to_user == *username && e.status == RequestStatus::Pending {
                r.push(e.clone());
            }
            i = i + 1;
        }
        proof {
            lemma_filter_take_all(orig, pred);
        }
        r
    }

    /// The answers to requests `username` themselves made: every request of
    /// theirs that has reached a terminal status, as copies, in queue order.
    pub fn get_notifications_for_user(&self, username: &String) -> (r: Vec<PendingRequest>)
        requires
            self.wf(),
        ensures
            r@ == self.requests_seq().filter(notification_pred(username@)),
    {
        let ghost pred = notification_pred(username@);
        let ghost orig = self.pending_requests@;
        let mut r: Vec<PendingRequest> = Vec::new();
        proof {
            reveal(Seq::filter);
            assert(orig.take(0).filter(pred) =~= Seq::<PendingRequest>::empty());
        }
        let n = self.pending_requests.len();
        let mut i: usize = 0;
        while i < n
            invariant
                n == self.pending_requests@.len(),
                orig == self.pending_requests@,
                pred == notification_pred(username@),
                i <= n,
                r@ == orig.take(i as int).filter(pred),
            decreases n - i,
        {
            let e = &self.pending_requests[i];
            proof {
                assert((e.from_user@ == username@ && (e.status is Accepted || e.status
                    is Rejected)) == pred(orig[i as int]));
                lemma_filter_take_step(orig, i as int, pred);
            }
            if e.from_user == *username && (e.status == RequestStatus::Accepted || e.status
                == RequestStatus::Rejected) {
                r.push(e.clone());
            }
            i = i + 1;
        }
        proof {
            lemma_filter_take_all(orig, pred);
        }
        r
    }

    /// Answer a request: only its target may, only while it is still
    /// Pending, and the answer sets the terminal status — exactly once —
    /// and hands back the finalized record. An unknown id fails NotFound;
    /// anyone but the target fails Unauthorized; a request already answered
    /// is no longer among the answerable ones, so a second answer fails
    /// NotFound and changes nothing.
    pub fn respond_to_request(&mut self, request_id: &String, owner: &String, accept: bool) -> (r:
        Result<PendingRequest, ServiceError>)
        requires
            old(self).wf(),
        ensures
            final(self).wf(),
            Self::config_unchanged(*old(self), *final(self)),
            final(self).members_seq() == old(self).members_seq(),
            final(self).updates_seq() == old(self).updates_seq(),
            !old(self).requests_map().contains_key(request_id@) ==> r == Err::<
                PendingRequest,
                ServiceError,
            >(ServiceError::NotFound) && final(self).requests_seq() == old(self).requests_seq(),
            old(self).requests_map().contains_key(request_id@) && old(self).requests_map()[
                request_id@
            ].to_user@ != owner@ ==> r == Err::<PendingRequest, ServiceError>(
                ServiceError::Unauthorized,
            ) && final(self).requests_seq() == old(self).requests_seq(),
            old(self).requests_map().contains_key(request_id@) && old(self).requests_map()[
                request_id@
            ].to_user@ == owner@ && !(old(self).requests_map()[request_id@].status is Pending)
                ==> r == Err::<PendingRequest, ServiceError>(ServiceError::NotFound)
                && final(self).requests_seq() == old(self).requests_seq(),
            old(self).requests_map().contains_key(request_id@) && old(self).requests_map()[
                request_id@
            ].to_user@ == owner@ && old(self).requests_map()[request_id@].status is Pending ==> r
                == Ok::<PendingRequest, ServiceError>(
                req_with_status(
                    old(self).requests_map()[request_id@],
                    if accept {
                        RequestStatus::Accepted
                    } else {
                        RequestStatus::Rejected
                    },
                ),
            ) && final(self).requests_map() == old(self).requests_map().insert(
                request_id@,
                req_with_status(
                    old(self).requests_map()[request_id@],
                    if accept {
                        RequestStatus::Accepted
                    } else {
                        RequestStatus::Rejected
                    },
                ),
            ),
    {
        let ghost s0 = self.pending_requests@;
        match self.find_request_idx(request_id) {
            Some(i) => {
                proof {
                    lemma_request_at(s0, i as int);
                }
                if self.pending_requests[i].to_user == *owner {
                    if !(self.pending_requests[i].status == RequestStatus::Pending) {
                        return Err(ServiceError::NotFound);
                    }
                    let mut e = self.pending_requests[i].clone();
                    e.status = if accept {
                        RequestStatus::Accepted
                    } else {
                        RequestStatus::Rejected
                    };
                    proof {
                        lemma_requests_update(s0, i as int, e);
                    }
                    self.pending_requests.set(i, e.clone());
                    Ok(e)
                } else {
                    Err(ServiceError::Unauthorized)
                }
            },
            None => Err(ServiceError::NotFound),
        }
    }

    /// Queue a permission update for `target_user`, keyed by (owner,
    /// target, content): a later update for the same key overwrites the
    /// earlier one that was never consumed. Returns the queue key rendered
    /// as "owner:target:content".
    pub fn store_pending_permission_update(
        &mut self,
        from_owner: &String,
        target_user: &String,
        image_id: &String,
        new_quota: u32,
        embedded_image: Option<Vec<u8>>,
        now: u64,
    ) -> (r: String)
        requires
            old(self).wf(),
        ensures
            final(self).wf(),
            Self::config_unchanged(*old(self), *final(self)),
            final(self).members_seq() == old(self).members_seq(),
            final(self).requests_seq() == old(self).requests_seq(),
            r@ == from_owner@ + ":"@ + target_user@ + ":"@ + image_id@,
            final(self).updates_map() == old(self).updates_map().insert(
                (from_owner@, target_user@, image_id@),
                (PendingPermissionUpdateV {
                    update_id: r@,
                    from_owner: from_owner@,
                    target_user: target_user@,
                    image_id: image_id@,
                    new_quota,
                    timestamp: now,
                    embedded_image: match embedded_image {
                        Some(b) => Some(b@),
                        None => None,
                    },
                }),
            ),
    {
        let update_id = from_owner.clone().concat(":").concat(target_user.as_str()).concat(
            ":",
        ).concat(image_id.as_str());
        let record = PendingPermissionUpdate {
            update_id: update_id.clone(),
            from_owner: from_owner.clone(),
            target_user: target_user.clone(),
            image_id: image_id.clone(),
            new_quota,
            timestamp: now,
            embedded_image,
        };
        let ghost s0 = self.pending_updates@;
        match self.find_update_idx(from_owner, target_user, image_id) {
            Some(i) => {
                proof {
                    lemma_updates_update(s0, i as int, record);
                }
                self.pending_updates.set(i, record);
            },
            None => {
                proof {
                    lemma_updates_push(s0, record);
                }
                self.pending_updates.push(record);
            },
        }
        update_id
    }

    /// Hand out and drop, in one step, every queued update addressed to
    /// `username`: at-most-once delivery. A second call straight after
    /// returns nothing.
    pub fn get_and_clear_pending_updates(&mut self, username: &String) -> (r: Vec<
        PendingPermissionUpdate,
    >)
        requires
            old(self).wf(),
        ensures
            final(self).wf(),
            Self::config_unchanged(*old(self), *final(self)),
            final(self).members_seq() == old(self).members_seq(),
            final(self).requests_seq() == old(self).requests_seq(),
            update_views(r@) == update_views(
                old(self).updates_seq().filter(update_for_pred(username@)),
            ),
            update_views(final(self).updates_seq()) == update_views(
                old(self).updates_seq().filter(update_not_for_pred(username@)),
            ),
    {
        let ghost take_pred = update_for_pred(username@);
        let ghost keep_pred = update_not_for_pred(username@);
        let ghost orig = self.pending_updates@;
        let mut taken: Vec<PendingPermissionUpdate> = Vec::new();
        let mut kept: Vec<PendingPermissionUpdate> = Vec::new();
        proof {
            reveal(Seq::filter);
            assert(orig.take(0).filter(take_pred) =~= Seq::<PendingPermissionUpdate>::empty());
            assert(orig.take(0).filter(keep_pred) =~= Seq::<PendingPermissionUpdate>::empty());
        }
        let n = self.pending_updates.len();
        let mut i: usize = 0;
        while i < n
            invariant
                n == self.pending_updates@.len(),
                orig == self.pending_updates@,
                take_pred == update_for_pred(username@),
                keep_pred == update_not_for_pred(username@),
                i <= n,
                update_views(taken@) == update_views(orig.take(i as int).filter(take_pred)),
                update_views(kept@) == update_views(orig.take(i as int).filter(keep_pred)),
            decreases n - i,
        {
            let e = &self.pending_updates[i];
            proof {
                assert((e.target_user@ == username@) == take_pred(orig[i as int]));
                assert((e.target_user@ != username@) == keep_pred(orig[i as int]));
                lemma_filter_take_step(orig, i as int, take_pred);
                lemma_filter_take_step(orig, i as int, keep_pred);
            }
            if e.target_user == *username {
                let c = e.clone();
                proof {
                    assert(c@ == orig[i as int]@);
                }
                taken.push(c);
                proof {
                    lemma_update_views_push(
                        orig.take(i as int).filter(take_pred),
                        orig[i as int],
                    );
                    assert(update_views(taken@) =~= update_views(
                        orig.take(i as int).filter(take_pred),
                    ).push(orig[i as int]@));
                }
            } else {
                let c = e.clone();
                proof {
                    assert(c@ == orig[i as int]@);
                }
                kept.push(c);
                proof {
                    lemma_update_views_push(
                        orig.take(i as int).filter(keep_pred),
                        orig[i as int],
                    );
                    assert(update_views(kept@) =~= update_views(
                        orig.take(i as int).filter(keep_pred),
                    ).push(orig[i as int]@));
                }
            }
            i = i + 1;
        }
        proof {
            lemma_filter_take_all(orig, take_pred);
            lemma_filter_take_all(orig, keep_pred);
            lemma_filter_distinct_keys(
                orig,
                keep_pred,
                |u: PendingPermissionUpdate| update_key_of(u@),
            );
            let f = orig.filter(keep_pred);
            assert forall|p: int, q: int| 0 <= p < q < kept@.len() implies update_key_of(
                kept@[p]@,
            ) != update_key_of(kept@[q]@) by {
                assert(update_views(kept@)[p] == update_views(f)[p]);
                assert(update_views(kept@)[q] == update_views(f)[q]);
            }
        }
        self.pending_updates = kept;
        taken
    }
}

/// Taking views distributes over appending one queued update.
pub proof fn lemma_update_views_push(s: Seq<PendingPermissionUpdate>, e: PendingPermissionUpdate)
    ensures
        update_views(s.push(e)) == update_views(s).push(e@),
{
    assert(update_views(s.push(e)) =~= update_views(s).push(e@));
}


/// Heartbeat freshness: a member whose heartbeat was refreshed at `t` is
/// left exactly as it is — Online — by a liveness sweep at any `now` still
/// inside the timeout window. A member that keeps heartbeating more often
/// than the timeout therefore remains Online through every sweep.
pub proof fn lemma_heartbeat_freshness(
    m: Map<Seq<char>, UserEntryV>,
    name: Seq<char>,
    t: u64,
    now: u64,
    timeout: u64,
)
    requires
        m.contains_key(name),
        t <= now,
        now - t < timeout,
    ensures
        ({
            let refreshed = m.insert(name, with_heartbeat(m[name], t));
            let swept = refreshed.map_values(|v: UserEntryV| sweep_entry(v, now, timeout));
            &&& swept[name] == refreshed[name]
            &&& swept[name].status is Online
        }),
{
}

/// One missed timeout window flips an Online member to Offline exactly
/// once: the sweep sets the status and a repeated sweep at the same instant
/// changes nothing further.
pub proof fn lemma_sweep_flips_once(v: UserEntryV, now: u64, timeout: u64)
    requires
        v.status is Online,
        !active_at(v, now, timeout),
    ensures
        sweep_entry(v, now, timeout).status is Offline,
        sweep_entry(sweep_entry(v, now, timeout), now, timeout) == sweep_entry(v, now, timeout),
{
}

/// Merging a member table with itself changes nothing.
pub proof fn lemma_merge_idempotent(m: Map<Seq<char>, UserEntryV>)
    ensures
        lww_merge(m, m) == m,
{
    assert(lww_merge(m, m) =~= m);
}

/// Merging the same incoming snapshot twice is a no-op: the second merge
/// finds every record already at least as new as the incoming one.
pub proof fn lemma_merge_twice(m: Map<Seq<char>, UserEntryV>, a: Map<Seq<char>, UserEntryV>)
    ensures
        lww_merge(lww_merge(m, a), a) == lww_merge(m, a),
{
    assert(lww_merge(lww_merge(m, a), a) =~= lww_merge(m, a));
}

/// Last-writer-wins merging is order-independent: applying snapshots `a`
/// and `b` in either order gives the same table, provided records the two
/// share a key for either differ in heartbeat timestamp or are the same
/// record (equal timestamps with different contents are the one case the
/// timestamp rule cannot order).
pub proof fn lemma_merge_commutes(
    m: Map<Seq<char>, UserEntryV>,
    a: Map<Seq<char>, UserEntryV>,
    b: Map<Seq<char>, UserEntryV>,
)
    requires
        forall|k: Seq<char>|
            a.contains_key(k) && b.contains_key(k) ==> a[k].last_heartbeat != b[k].last_heartbeat
                || a[k] == b[k],
    ensures
        lww_merge(lww_merge(m, a), b) == lww_merge(lww_merge(m, b), a),
{
    let ab = lww_merge(lww_merge(m, a), b);
    let ba = lww_merge(lww_merge(m, b), a);
    assert forall|k: Seq<char>| ab.contains_key(k) implies ab[k] == ba[k] by {
        if a.contains_key(k) && b.contains_key(k) {
            assert(a[k].last_heartbeat != b[k].last_heartbeat || a[k] == b[k]);
        }
    }
    assert(ab =~= ba);
}

/// Pull-and-clear: what a pull for `user` leaves behind contains nothing
/// addressed to them, so a second pull straight after returns the empty
/// sequence.
pub proof fn lemma_pull_and_clear(s: Seq<PendingPermissionUpdate>, user: Seq<char>)
    ensures
        s.filter(update_not_for_pred(user)).filter(update_for_pred(user)) == Seq::<
            PendingPermissionUpdate,
        >::empty(),
{
    let kept = s.filter(update_not_for_pred(user));
    crate::seqs::lemma_filter_elements(s, update_not_for_pred(user));
    assert forall|i: int| 0 <= i < kept.len() implies !(update_for_pred(user)(
        #[trigger] kept[i],
    )) by {
        assert(update_not_for_pred(user)(kept[i]));
    }
    lemma_filter_none(kept, update_for_pred(user));
}

} // verus!
