use profile_kit::error::ProfileKitError;
use profile_kit::model::{UserAttributes, UserProfile};
use profile_kit::repository::{InMemoryUserProfileRepository, UserProfileRepository};

fn sample_profile() -> UserProfile {
    UserProfile::new("u1".to_string(), "test@example.com".to_string())
}

#[test]
fn test_create_and_get() {
    let mut repo = InMemoryUserProfileRepository::new();
    let profile = sample_profile();
    repo.create(profile.clone()).unwrap();
    let fetched = repo.get_by_id("u1".to_string()).unwrap();
    assert_eq!(fetched, Some(profile));
}

#[test]
fn test_duplicate_create() {
    let mut repo = InMemoryUserProfileRepository::new();
    let profile = sample_profile();
    repo.create(profile.clone()).unwrap();
    let result = repo.create(profile);
    assert!(matches!(result, Err(ProfileKitError::AlreadyExists)));
}

#[test]
fn test_update_existing() {
    let mut repo = InMemoryUserProfileRepository::new();
    let mut profile = sample_profile();
    repo.create(profile.clone()).unwrap();

    let mut attr = UserAttributes::new();
    attr.set_first_name("Updated Name".to_string());

    profile.set_attributes(Some(attr));
    repo.update(profile.clone()).unwrap();

    let fetched = repo.get_by_id("u1".to_string()).unwrap();
    assert_eq!(fetched, Some(profile));
}

#[test]
fn test_update_nonexistent() {
    let mut repo = InMemoryUserProfileRepository::new();
    let profile = sample_profile();
    let result = repo.update(profile);
    assert!(matches!(result, Err(ProfileKitError::NotFound)));
}

#[test]
fn test_delete() {
    let mut repo = InMemoryUserProfileRepository::new();
    let profile = sample_profile();
    repo.create(profile.clone()).unwrap();
    repo.delete("u1".to_string()).unwrap();
    let fetched = repo.get_by_id("u1".to_string()).unwrap();
    assert!(fetched.is_none());
}

#[test]
fn test_delete_nonexistent() {
    let mut repo = InMemoryUserProfileRepository::new();
    let result = repo.delete("does_not_exist".to_string());
    assert!(matches!(result, Err(ProfileKitError::NotFound)));
}

#[test]
fn test_duplicate_create_keeps_first_record() {
    let mut repo = InMemoryUserProfileRepository::new();
    let first = sample_profile();
    repo.create(first.clone()).unwrap();

    let second = UserProfile::new("u1".to_string(), "other@example.com".to_string());
    let result = repo.create(second);
    assert!(matches!(result, Err(ProfileKitError::AlreadyExists)));

    let fetched = repo.get_by_id("u1".to_string()).unwrap();
    assert_eq!(fetched, Some(first));
}

#[test]
fn test_delete_then_fetch_is_not_present() {
    let mut repo = InMemoryUserProfileRepository::new();
    repo.create(sample_profile()).unwrap();
    repo.delete("u1".to_string()).unwrap();
    // "not present" is a normal outcome, not an error
    let fetched = repo.get_by_id("u1".to_string());
    assert!(matches!(fetched, Ok(None)));
}

#[test]
fn test_update_missing_ghost_id() {
    let mut repo = InMemoryUserProfileRepository::new();
    repo.create(sample_profile()).unwrap();
    let ghost_profile = UserProfile::new("ghost".to_string(), "g@example.com".to_string());
    let result = repo.update(ghost_profile);
    assert!(matches!(result, Err(ProfileKitError::NotFound)));
}
