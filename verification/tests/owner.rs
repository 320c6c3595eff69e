use ghcr_cleaner::client::PackageOwner;

#[test]
fn user_owner_is_scoped_under_users() {
    let owner = PackageOwner::parse(Some("alice".to_string()), None);
    assert_eq!(owner, PackageOwner::User("alice".to_string()));
    assert_eq!(owner.base_url(), "users/alice");
    assert_eq!(owner.to_string(), "alice");
}

#[test]
fn organization_owner_is_scoped_under_orgs() {
    let owner = PackageOwner::parse(None, Some("acme".to_string()));
    assert_eq!(owner, PackageOwner::Organizaion("acme".to_string()));
    assert_eq!(owner.base_url(), "orgs/acme");
    assert_eq!(owner.to_string(), "acme");
}

#[test]
fn user_wins_over_organization() {
    let owner = PackageOwner::parse(Some("alice".to_string()), Some("acme".to_string()));
    assert_eq!(owner, PackageOwner::User("alice".to_string()));
}

#[test]
fn owner_without_a_name_is_refused() {
    assert_eq!(PackageOwner::try_parse(None, None), None);
    assert_eq!(
        PackageOwner::try_parse(Some("alice".to_string()), None),
        Some(PackageOwner::User("alice".to_string()))
    );
    assert_eq!(
        PackageOwner::try_parse(None, Some("acme".to_string())),
        Some(PackageOwner::Organizaion("acme".to_string()))
    );
    assert_eq!(
        PackageOwner::try_parse(Some("alice".to_string()), Some("acme".to_string())),
        Some(PackageOwner::User("alice".to_string()))
    );
}

#[test]
fn empty_name_is_kept_as_it_is() {
    let owner = PackageOwner::parse(Some(String::new()), None);
    assert_eq!(owner.base_url(), "users/");
    assert_eq!(owner.to_string(), "");
}
