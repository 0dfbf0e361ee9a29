use cloud_p2p::permissions::{GrantDecision, ImagePermissions, ViewDecision};

fn s(t: &str) -> String {
    t.to_string()
}

#[test]
fn grant_sets_quota_for_new_user() {
    let mut p = ImagePermissions::new(s("alice"));
    let d = p.grant(&s("bob"), 5);
    assert!(matches!(d, GrantDecision::Granted));
    assert_eq!(p.quota_of(&s("bob")), Some(5));
}

#[test]
fn grant_is_idempotent_overwrite_not_additive() {
    let mut p = ImagePermissions::new(s("alice"));
    let d1 = p.grant(&s("bob"), 5);
    let d2 = p.grant(&s("bob"), 2);
    assert!(matches!(d1, GrantDecision::Granted));
    assert!(matches!(d2, GrantDecision::Granted));
    assert_eq!(p.quota_of(&s("bob")), Some(2));
}

#[test]
fn owner_is_exempt_from_grants() {
    let mut p = ImagePermissions::new(s("alice"));
    let d = p.grant(&s("alice"), 5);
    assert!(matches!(d, GrantDecision::OwnerAccess));
    assert_eq!(p.quota_of(&s("alice")), None);
}

#[test]
fn grant_overwrites_an_explicit_revocation() {
    let mut p = ImagePermissions::new(s("alice"));
    p.set_quota(s("bob"), 0);
    let d = p.grant(&s("bob"), 9);
    assert!(matches!(d, GrantDecision::Granted));
    assert_eq!(p.quota_of(&s("bob")), Some(9));
    // Revocation stays only when the grant passes 0 again.
    let d0 = p.grant(&s("bob"), 0);
    assert!(matches!(d0, GrantDecision::Granted));
    assert_eq!(p.quota_of(&s("bob")), Some(0));
}

#[test]
fn set_quota_zero_is_distinct_from_absent() {
    let mut p = ImagePermissions::new(s("alice"));
    p.set_quota(s("bob"), 0);
    assert_eq!(p.quota_of(&s("bob")), Some(0));
    assert_eq!(p.quota_of(&s("carol")), None);
}

#[test]
fn viewing_spends_one_view() {
    let mut p = ImagePermissions::new(s("alice"));
    p.set_quota(s("bob"), 2);
    let d = p.view_access(&s("bob"));
    assert!(matches!(d, ViewDecision::Viewed { remaining: 1 }));
    assert_eq!(p.quota_of(&s("bob")), Some(1));
    let d2 = p.view_access(&s("bob"));
    assert!(matches!(d2, ViewDecision::Viewed { remaining: 0 }));
    let d3 = p.view_access(&s("bob"));
    assert!(matches!(d3, ViewDecision::DeniedRevoked));
    assert_eq!(p.quota_of(&s("bob")), Some(0));
}

#[test]
fn viewing_without_entry_is_not_authorized() {
    let mut p = ImagePermissions::new(s("alice"));
    let d = p.view_access(&s("mallory"));
    assert!(matches!(d, ViewDecision::DeniedNotAuthorized));
}

#[test]
fn owner_views_without_quota() {
    let mut p = ImagePermissions::new(s("alice"));
    let d = p.view_access(&s("alice"));
    assert!(matches!(d, ViewDecision::OwnerView));
    assert_eq!(p.quota_of(&s("alice")), None);
}
