//! The embedded permission payload: the owner of a piece of content together
//! with the per-grantee view quotas. This record, not any server-side table,
//! is the authoritative access-control state; it travels with the content
//! itself. A quota of 0 means explicitly revoked, which is distinct from the
//! absence of an entry ("never granted"). The owner never appears as a quota
//! key and always has unlimited access.

use vstd::prelude::*;

verus! {

/// One grantee's remaining view quota, keyed by username.
pub type QuotaEntry = (String, u32);

/// True if some entry of `s` is keyed by `name`.
pub open spec fn quotas_have_key(s: Seq<QuotaEntry>, name: Seq<char>) -> bool {
    exists|i: int| 0 <= i < s.len() && s[i].0@ == name
}

/// The index of the entry of `s` keyed by `name` (meaningful only when
/// `quotas_have_key` holds and keys are unique).
pub open spec fn quota_key_idx(s: Seq<QuotaEntry>, name: Seq<char>) -> int {
    choose|i: int| 0 <= i < s.len() && s[i].0@ == name
}

/// No two entries of `s` share a key.
pub open spec fn quota_keys_unique(s: Seq<QuotaEntry>) -> bool {
    forall|i: int, j: int| 0 <= i < j < s.len() ==> s[i].0@ != s[j].0@
}

/// With unique keys, the entry at any index holding `name` is the entry that
/// `quota_key_idx` selects.
pub proof fn lemma_quota_entry_at(s: Seq<QuotaEntry>, j: int)
    requires
        quota_keys_unique(s),
        0 <= j < s.len(),
    ensures
        quota_key_idx(s, s[j].0@) == j,
{
    let name = s[j].0@;
    assert(quotas_have_key(s, name));
    let i = quota_key_idx(s, name);
    if i != j {
        if i < j {
            assert(s[i].0@ != s[j].0@);
        } else {
            assert(s[j].0@ != s[i].0@);
        }
    }
}

/// Access-control record embedded in a piece of content: the owning identity
/// and the map from grantee to remaining view quota.
pub struct ImagePermissions {
    pub owner: String,
    pub quotas: Vec<QuotaEntry>,
}

/// What a grant request decided.
#[derive(Debug, Clone, Copy, PartialEq, Eq, Structural)]
pub enum GrantDecision {
    /// The requester owns the content: nothing is recorded, access is
    /// unlimited.
    OwnerAccess,
    /// The requester's quota was set (not added) to the requested value.
    Granted,
}

/// What an attempt to view the content decided.
#[derive(Debug, Clone, Copy, PartialEq, Eq, Structural)]
pub enum ViewDecision {
    /// The viewer owns the content: unlimited access, nothing recorded.
    OwnerView,
    /// One view was spent; this many remain.
    Viewed { remaining: u32 },
    /// The viewer holds an explicit quota of 0.
    DeniedRevoked,
    /// The viewer holds no quota entry at all.
    DeniedNotAuthorized,
}

impl ImagePermissions {
    /// Well-formed: no grantee appears twice, and the owner holds no quota
    /// entry (the owner's access is unlimited and never recorded).
    pub open spec fn wf(self) -> bool {
        &&& quota_keys_unique(self.quotas@)
        &&& !quotas_have_key(self.quotas@, self.owner@)
    }

    /// The quotas as a map from grantee name to remaining views.
    pub open spec fn quotas_map(self) -> Map<Seq<char>, u32> {
        Map::new(
            |name: Seq<char>| quotas_have_key(self.quotas@, name),
            |name: Seq<char>| self.quotas@[quota_key_idx(self.quotas@, name)].1,
        )
    }

    /// The quota recorded for `name`, if any.
    pub open spec fn spec_quota_of(self, name: Seq<char>) -> Option<u32> {
        if self.quotas_map().contains_key(name) {
            Some(self.quotas_map()[name])
        } else {
            None
        }
    }

    /// A fresh record: `owner` owns the content and nobody holds a grant.
    pub fn new(owner: String) -> (r: Self)
        ensures
            r.wf(),
            r.owner == owner,
            r.quotas@.len() == 0,
            r.quotas_map() == Map::<Seq<char>, u32>::empty(),
    {
        let r = ImagePermissions { owner, quotas: Vec::new() };
        proof {
            assert(r.quotas_map() =~= Map::<Seq<char>, u32>::empty());
        }
        r
    }

    /// The index of `name`'s quota entry, searched linearly.
    fn find_quota_idx(&self, name: &String) -> (r: Option<usize>)
        ensures
            match r {
                Some(i) => i < self.quotas@.len() && self.quotas@[i as int].0@ == name@,
                None => !quotas_have_key(self.quotas@, name@),
            },
    {
        let n = self.quotas.len();
        let mut i: usize = 0;
        while i < n
            invariant
                n == self.quotas@.len(),
                i <= n,
                forall|j: int| 0 <= j < i ==> self.quotas@[j].0@ != name@,
            decreases n - i,
        {
            if self.quotas[i].0 == *name {
                return Some(i);
            }
            i = i + 1;
        }
        None
    }

    /// The quota recorded for `user`, if any.
    pub fn quota_of(&self, user: &String) -> (r: Option<u32>)
        requires
            self.wf(),
        ensures
            r == self.spec_quota_of(user@),
    {
        match self.find_quota_idx(user) {
            Some(i) => {
                proof {
                    lemma_quota_entry_at(self.quotas@, i as int);
                }
                Some(self.quotas[i].1)
            },
            None => None,
        }
    }

    /// Record exactly `views` remaining views for `user`, overwriting any
    /// prior entry. The caller must not name the owner: the owner's access
    /// is unlimited and never recorded.
    pub fn set_quota(&mut self, user: String, views: u32)
        requires
            old(self).wf(),
            user@ != old(self).owner@,
        ensures
            final(self).wf(),
            final(self).owner == old(self).owner,
            final(self).quotas_map() == old(self).quotas_map().insert(user@, views),
    {
        let ghost s0 = self.quotas@;
        match self.find_quota_idx(&user) {
            Some(i) => {
                proof {
                    lemma_quota_entry_at(s0, i as int);
                }
                self.quotas.set(i, (user, views));
                proof {
                    let s1 = self.quotas@;
                    assert forall|p: int, q: int| 0 <= p < q < s1.len() implies s1[p].0@
                        != s1[q].0@ by {
                        assert(s0[p].0@ != s0[q].0@);
                    }
                    assert forall|k: Seq<char>| quotas_have_key(s1, k) implies quotas_have_key(
                        s0,
                        k,
                    ) by {
                        let w = choose|w: int| 0 <= w < s1.len() && s1[w].0@ == k;
                        assert(s0[w].0@ == k);
                    }
                    assert forall|k: Seq<char>| quotas_have_key(s0, k) implies quotas_have_key(
                        s1,
                        k,
                    ) by {
                        let w = choose|w: int| 0 <= w < s0.len() && s0[w].0@ == k;
                        assert(s1[w].0@ == k);
                    }
                    assert forall|k: Seq<char>| quotas_have_key(s1, k) implies self.quotas@[
                        quota_key_idx(s1, k)].1 == old(self).quotas_map().insert(user@, views)[k] by {
                        let w = quota_key_idx(s1, k);
                        assert(0 <= w < s1.len() && s1[w].0@ == k);
                        lemma_quota_entry_at(s0, w);
                        if w == i as int {
                            assert(k == user@);
                        } else {
                            assert(s0[w] == s1[w]);
                        }
                    }
                    assert(self.quotas_map() =~= old(self).quotas_map().insert(user@, views));
                }
            },
            None => {
                self.quotas.push((user, views));
                proof {
                    let s1 = self.quotas@;
                    assert forall|p: int, q: int| 0 <= p < q < s1.len() implies s1[p].0@
                        != s1[q].0@ by {
                        if q < s0.len() {
                            assert(s0[p].0@ != s0[q].0@);
                        } else {
                            assert(s1[q].0@ == user@);
                            assert(s0[p].0@ != user@);
                        }
                    }
                    assert forall|k: Seq<char>| quotas_have_key(s1, k) && k != user@
                        implies quotas_have_key(s0, k) by {
                        let w = choose|w: int| 0 <= w < s1.len() && s1[w].0@ == k;
                        assert(w < s0.len());
                        assert(s0[w].0@ == k);
                    }
                    assert forall|k: Seq<char>| quotas_have_key(s0, k) implies quotas_have_key(
                        s1,
                        k,
                    ) by {
                        let w = choose|w: int| 0 <= w < s0.len() && s0[w].0@ == k;
                        assert(s1[w].0@ == k);
                    }
                    assert forall|k: Seq<char>| quotas_have_key(s1, k) implies self.quotas@[
                        quota_key_idx(s1, k)].1 == old(self).quotas_map().insert(user@, views)[k] by {
                        let w = quota_key_idx(s1, k);
                        assert(0 <= w < s1.len() && s1[w].0@ == k);
                        if w == s0.len() {
                            assert(k == user@);
                        } else {
                            lemma_quota_entry_at(s0, w);
                        }
                    }
                    assert(quotas_have_key(s1, user@)) by {
                        assert(s1[s0.len() as int].0@ == user@);
                    }
                    assert(self.quotas_map() =~= old(self).quotas_map().insert(user@, views));
                }
            },
        }
    }

    /// Decide a grant request: the owner passes through untouched; any
    /// other requester has their quota set — not added — to `views`,
    /// whatever stood there before. An explicit revocation (quota 0) stays
    /// revoked only when the grant passes 0 again.
    pub fn grant(&mut self, requester: &String, views: u32) -> (d: GrantDecision)
        requires
            old(self).wf(),
        ensures
            final(self).wf(),
            final(self).owner == old(self).owner,
            requester@ == old(self).owner@ ==> *final(self) == *old(self) && d
                == GrantDecision::OwnerAccess,
            requester@ != old(self).owner@ ==> final(self).quotas_map() == old(
                self,
            ).quotas_map().insert(requester@, views) && d == GrantDecision::Granted,
    {
        if *requester == self.owner {
            return GrantDecision::OwnerAccess;
        }
        self.set_quota(requester.clone(), views);
        GrantDecision::Granted
    }

    /// Decide an attempt to view: the owner always may; a grantee with views
    /// left spends one; a grantee at 0 or with no entry is denied and nothing
    /// changes.
    pub fn view_access(&mut self, user: &String) -> (d: ViewDecision)
        requires
            old(self).wf(),
        ensures
            final(self).wf(),
            final(self).owner == old(self).owner,
            user@ == old(self).owner@ ==> *final(self) == *old(self) && d
                == ViewDecision::OwnerView,
            user@ != old(self).owner@ ==> match old(self).spec_quota_of(user@) {
                Some(v) => if v > 0 {
                    final(self).quotas_map() == old(self).quotas_map().insert(user@, (v - 1) as u32)
                        && d == (ViewDecision::Viewed { remaining: (v - 1) as u32 })
                } else {
                    *final(self) == *old(self) && d == ViewDecision::DeniedRevoked
                },
                None => *final(self) == *old(self) && d == ViewDecision::DeniedNotAuthorized,
            },
    {
        if *user == self.owner {
            return ViewDecision::OwnerView;
        }
        match self.quota_of(user) {
            Some(v) => {
                if v > 0 {
                    self.set_quota(user.clone(), v - 1);
                    ViewDecision::Viewed { remaining: v - 1 }
                } else {
                    ViewDecision::DeniedRevoked
                }
            },
            None => ViewDecision::DeniedNotAuthorized,
        }
    }
}

/// Granting is an idempotent overwrite: granting `a` views and then `b`
/// views to the same requester leaves exactly `b` views — the amounts do
/// not add up.
pub proof fn lemma_grant_overwrites(
    before: ImagePermissions,
    mid: ImagePermissions,
    after: ImagePermissions,
    requester: Seq<char>,
    a: u32,
    b: u32,
)
    requires
        mid.quotas_map() == before.quotas_map().insert(requester, a),
        after.quotas_map() == mid.quotas_map().insert(requester, b),
    ensures
        after.quotas_map()[requester] == b,
        after.quotas_map() == before.quotas_map().insert(requester, b),
{
    assert(after.quotas_map() =~= before.quotas_map().insert(requester, b));
}

/// The owner is exempt: a grant request in the owner's own name never
/// creates or mutates a quota entry, so the record is left exactly as it
/// was — in particular the owner still holds no quota entry at all.
pub proof fn lemma_owner_exempt(before: ImagePermissions, after: ImagePermissions)
    requires
        before.wf(),
        after == before || (after.quotas_map() == before.quotas_map() && after.owner
            == before.owner),
    ensures
        after.quotas_map() == before.quotas_map(),
        !before.quotas_map().dom().contains(before.owner@),
{
    assert(!quotas_have_key(before.quotas@, before.owner@));
}

} // verus!
