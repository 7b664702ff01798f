use profile_kit::model::{UserAttributes, UserPreferences, UserProfile};
use profile_kit::object::{DocValue, FieldValue};
use profile_kit::error::ProfileKitError;

#[test]
fn test_user_profile_basic_setters_getters() {
    let mut profile = UserProfile::new("123".into(), "User@Email.COM".into());
    assert_eq!(profile.get_id(), "123");
    assert_eq!(profile.get_email(), "user@email.com"); // lowercase check

    profile.set_id("456".into());
    profile.set_email("Another@Email.com".into());

    assert_eq!(profile.get_id(), "456");
    assert_eq!(profile.get_email(), "another@email.com");
}

#[test]
fn test_user_attributes_setters_getters() {
    let mut attrs = UserAttributes::new();
    attrs.set_first_name("John".into());
    attrs.set_last_name("Doe".into());
    attrs.set_extra("age".to_string(), FieldValue::Other(serde_json::Value::from(30)));

    assert_eq!(attrs.get_first_name(), Some(&"John".to_string()));
    assert_eq!(attrs.get_last_name(), Some(&"Doe".to_string()));
    assert_eq!(
        attrs.get_extra("age"),
        Some(&FieldValue::Other(serde_json::Value::from(30)))
    );
}

#[test]
fn test_user_preferences_setters_getters() {
    let mut prefs = UserPreferences::new();
    prefs.set_newsletter_opt_in(true);
    prefs.set_language("en".into());
    prefs.set_currency("USD".into());
    prefs.set_extra("theme".to_string(), FieldValue::Text("dark".to_string()));

    assert!(prefs.get_newsletter_opt_in());
    assert_eq!(prefs.get_language(), Some(&"en".to_string()));
    assert_eq!(prefs.get_currency(), Some(&"USD".to_string()));
    assert_eq!(
        prefs.get_extra("theme"),
        Some(&FieldValue::Text("dark".to_string()))
    );
}

#[test]
fn test_user_profile_full_structure() {
    let mut attrs = UserAttributes::new();
    attrs.set_first_name("Alice".into());
    attrs.set_last_name("Smith".into());
    attrs.set_extra("nickname".to_string(), FieldValue::Text("Al".to_string()));

    let mut prefs = UserPreferences::new();
    prefs.set_newsletter_opt_in(true);
    prefs.set_language("id".into());
    prefs.set_currency("IDR".into());
    prefs.set_extra(
        "timezone".to_string(),
        FieldValue::Text("Asia/Jakarta".to_string()),
    );

    let mut profile = UserProfile::new("789".into(), "alice@example.com".into());
    profile.set_attributes(Some(attrs.clone()));
    profile.set_preferences(Some(prefs.clone()));

    assert_eq!(profile.get_attributes(), Some(&attrs));
    assert_eq!(profile.get_preferences(), Some(&prefs));
}

#[test]
fn test_serialization_deserialization() {
    let mut profile = UserProfile::new("321".into(), "Test@Example.com".into());
    let mut attrs = UserAttributes::new();
    attrs.set_first_name("Jane".into());
    attrs.set_extra(
        "extra_field".to_string(),
        FieldValue::Text("value".to_string()),
    );

    let mut prefs = UserPreferences::new();
    prefs.set_currency("EUR".into());

    profile.set_attributes(Some(attrs));
    profile.set_preferences(Some(prefs));

    let serialized = profile.to_object();
    let deserialized: UserProfile = UserProfile::from_object(serialized).unwrap();

    assert_eq!(profile, deserialized);
}

#[test]
fn test_round_trip_without_sections() {
    let profile = UserProfile::new("42".into(), "A@B.C".into());
    let deserialized = UserProfile::from_object(profile.to_object()).unwrap();
    assert_eq!(profile, deserialized);
    assert_eq!(deserialized.get_email(), "a@b.c");
}

#[test]
fn test_omission_of_absent_sections() {
    let profile = UserProfile::new("u9".into(), "x@y.z".into());
    let doc = profile.to_object();
    assert!(doc.get("attributes").is_none());
    assert!(doc.get("preferences").is_none());
    assert_eq!(doc.len(), 2);

    let mut with_attrs = UserProfile::new("u9".into(), "x@y.z".into());
    with_attrs.set_attributes(Some(UserAttributes::new()));
    let doc2 = with_attrs.to_object();
    assert!(doc2.get("attributes").is_some());
    assert!(doc2.get("preferences").is_none());
}

#[test]
fn test_extra_field_isolation() {
    let mut attrs = UserAttributes::new();
    attrs.set_first_name("John".into());
    attrs.set_extra("role".to_string(), FieldValue::Text("admin".to_string()));

    // the known fields are untouched
    assert_eq!(attrs.get_first_name(), Some(&"John".to_string()));
    assert_eq!(attrs.get_last_name(), None);
    // the extra entry is independently retrievable
    assert_eq!(
        attrs.get_extra("role"),
        Some(&FieldValue::Text("admin".to_string()))
    );
    // and independently present in the serialized form
    let obj = attrs.to_object();
    assert_eq!(obj.get("role"), Some(&FieldValue::Text("admin".to_string())));
    assert_eq!(
        obj.get("first_name"),
        Some(&FieldValue::Text("John".to_string()))
    );
    assert!(obj.get("last_name").is_none());
}

#[test]
fn test_concrete_scenario_serialized_form() {
    let mut profile = UserProfile::new("789".into(), "Alice@Example.COM".into());

    let mut attrs = UserAttributes::new();
    attrs.set_first_name("Alice".into());
    attrs.set_last_name("Smith".into());
    attrs.set_extra("nickname".to_string(), FieldValue::Text("Al".to_string()));
    profile.set_attributes(Some(attrs));

    let mut prefs = UserPreferences::new();
    prefs.set_newsletter_opt_in(true);
    prefs.set_language("id".into());
    prefs.set_currency("IDR".into());
    prefs.set_extra(
        "timezone".to_string(),
        FieldValue::Text("Asia/Jakarta".to_string()),
    );
    profile.set_preferences(Some(prefs));

    let doc = profile.to_object();
    assert_eq!(doc.len(), 4);
    assert_eq!(doc.get("id"), Some(&DocValue::Text("789".to_string())));
    assert_eq!(
        doc.get("email"),
        Some(&DocValue::Text("alice@example.com".to_string()))
    );

    let attrs_obj = match doc.get("attributes") {
        Some(DocValue::Object(o)) => o,
        other => panic!("attributes should be a nested object, got {:?}", other),
    };
    assert_eq!(attrs_obj.len(), 3);
    assert_eq!(
        attrs_obj.get("first_name"),
        Some(&FieldValue::Text("Alice".to_string()))
    );
    assert_eq!(
        attrs_obj.get("last_name"),
        Some(&FieldValue::Text("Smith".to_string()))
    );
    assert_eq!(
        attrs_obj.get("nickname"),
        Some(&FieldValue::Text("Al".to_string()))
    );

    let prefs_obj = match doc.get("preferences") {
        Some(DocValue::Object(o)) => o,
        other => panic!("preferences should be a nested object, got {:?}", other),
    };
    assert_eq!(prefs_obj.len(), 4);
    assert_eq!(
        prefs_obj.get("newsletter_opt_in"),
        Some(&FieldValue::Flag(true))
    );
    assert_eq!(
        prefs_obj.get("language"),
        Some(&FieldValue::Text("id".to_string()))
    );
    assert_eq!(
        prefs_obj.get("currency"),
        Some(&FieldValue::Text("IDR".to_string()))
    );
    assert_eq!(
        prefs_obj.get("timezone"),
        Some(&FieldValue::Text("Asia/Jakarta".to_string()))
    );
}

#[test]
fn test_from_object_missing_id_is_invalid() {
    let doc = profile_kit::object::DocObject::new();
    let result = UserProfile::from_object(doc);
    assert!(matches!(result, Err(ProfileKitError::InvalidInput(_))));
}

#[test]
fn test_from_object_wrong_type_is_invalid() {
    let mut doc = profile_kit::object::DocObject::new();
    doc.set(
        "id".to_string(),
        DocValue::Object(profile_kit::object::FlatObject::new()),
    );
    doc.set("email".to_string(), DocValue::Text("a@b.c".to_string()));
    let result = UserProfile::from_object(doc);
    assert!(matches!(result, Err(ProfileKitError::InvalidInput(_))));
}

#[test]
fn test_preferences_require_opt_in_field() {
    let obj = profile_kit::object::FlatObject::new();
    let result = UserPreferences::from_object(obj);
    assert!(matches!(result, Err(ProfileKitError::InvalidInput(_))));
}

#[test]
fn test_known_field_wins_on_deserialization() {
    let mut obj = profile_kit::object::FlatObject::new();
    obj.set(
        "first_name".to_string(),
        FieldValue::Text("Ada".to_string()),
    );
    obj.set("hobby".to_string(), FieldValue::Text("chess".to_string()));
    let attrs = UserAttributes::from_object(obj).unwrap();
    // the matching key populates the known field and is not duplicated
    // into the open map
    assert_eq!(attrs.get_first_name(), Some(&"Ada".to_string()));
    assert!(attrs.get_extra("first_name").is_none());
    assert_eq!(
        attrs.get_extra("hobby"),
        Some(&FieldValue::Text("chess".to_string()))
    );
}

#[test]
fn test_preferences_default_matches_new() {
    let by_default: UserPreferences = Default::default();
    assert_eq!(by_default, UserPreferences::new());
    assert!(!by_default.get_newsletter_opt_in());
    assert_eq!(by_default.get_language(), None);
    assert_eq!(by_default.get_currency(), None);
}

#[test]
fn test_clone_preserves_extras() {
    let mut attrs = UserAttributes::new();
    attrs.set_extra("age".to_string(), FieldValue::Other(serde_json::Value::from(30)));
    attrs.set_first_name("John".into());
    let copied = attrs.clone();
    assert_eq!(copied, attrs);
    assert_eq!(
        copied.get_extra("age"),
        Some(&FieldValue::Other(serde_json::Value::from(30)))
    );
}
