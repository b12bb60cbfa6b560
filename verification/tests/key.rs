use shush_rs::key::Key;
use uuid::Uuid;

#[test]
fn key_from_uuid_should_success() {
    let uuid = Uuid::new_v4();
    let key = Key::from(uuid.to_string());
    assert_eq!(Key::Id(uuid.as_u128()), key);
}

#[test]
fn key_from_arn_should_success() {
    let arn = format!(
        "arn:aws:kms:ap-southeast-1:874322187757:key/{}",
        Uuid::new_v4(),
    );
    let key = Key::from(arn.clone());
    assert_eq!(Key::Arn(arn), key);
}

#[test]
fn key_from_alias_should_be_alias() {
    let key = Key::from("alias/key");
    assert_eq!(Key::Alias(String::from("alias/key")), key);
}

#[test]
fn key_from_others_should_be_alias() {
    let key = Key::from("key");
    assert_eq!(Key::Alias(String::from("alias/key")), key);
}

#[test]
fn key_from_fixed_uuid_is_its_number() {
    let key = Key::from("550e8400-e29b-41d4-a716-446655440000");
    assert_eq!(Key::Id(0x550e8400e29b41d4a716446655440000), key);
}

#[test]
fn key_from_upper_case_uuid_is_written_back_in_lower_case() {
    let key = Key::from("550E8400-E29B-41D4-A716-446655440000");
    assert_eq!(Key::Id(0x550e8400e29b41d4a716446655440000), key);
    assert_eq!(String::from(key), "550e8400-e29b-41d4-a716-446655440000");
}

#[test]
fn key_from_unhyphenated_uuid_is_written_back_with_hyphens() {
    let key = Key::from("550e8400e29b41d4a716446655440000");
    assert_eq!(String::from(key), "550e8400-e29b-41d4-a716-446655440000");
}

#[test]
fn identifier_text_has_every_digit_in_place() {
    let text = String::from(Key::Id(0x0123456789abcdef_fedcba9876543210));
    assert_eq!(text, "01234567-89ab-cdef-fedc-ba9876543210");
    assert_eq!(String::from(Key::Id(0)), "00000000-0000-0000-0000-000000000000");
    assert_eq!(String::from(Key::Id(u128::MAX)), "ffffffff-ffff-ffff-ffff-ffffffffffff");
}

#[test]
fn resource_name_and_alias_are_written_back_unchanged() {
    let arn = "arn:aws:kms:eu-west-1:123456789012:key/abc";
    assert_eq!(String::from(Key::from(arn)), arn);
    assert_eq!(String::from(Key::from("alias/test-key")), "alias/test-key");
    assert_eq!(String::from(Key::from("test-key")), "alias/test-key");
}

#[test]
fn resource_name_prefix_is_case_sensitive() {
    assert_eq!(Key::from("ARN:AWS:KMS:x"), Key::Alias(String::from("alias/ARN:AWS:KMS:x")));
    assert_eq!(Key::from("arn:aws:kms"), Key::Arn(String::from("arn:aws:kms")));
    assert_eq!(Key::from("arn:aws:km"), Key::Alias(String::from("alias/arn:aws:km")));
}

#[test]
fn alias_prefix_is_added_once() {
    assert_eq!(Key::from("alias/"), Key::Alias(String::from("alias/")));
    assert_eq!(Key::from("alias"), Key::Alias(String::from("alias/alias")));
    assert_eq!(Key::from("Alias/key"), Key::Alias(String::from("alias/Alias/key")));
}

#[test]
fn empty_text_is_the_bare_alias_prefix() {
    assert_eq!(Key::from(""), Key::Alias(String::from("alias/")));
}

#[test]
fn classify_follows_the_given_parse() {
    assert_eq!(Key::classify(String::from("key"), Some(7)), Key::Id(7));
    assert_eq!(Key::classify(String::from("alias/key"), Some(7)), Key::Id(7));
    assert_eq!(
        Key::classify(String::from("arn:aws:kms:k"), Some(7)),
        Key::Arn(String::from("arn:aws:kms:k"))
    );
    assert_eq!(Key::classify(String::from("key"), None), Key::Alias(String::from("alias/key")));
    assert_eq!(Key::classify(String::from("alias/key"), None), Key::Alias(String::from("alias/key")));
}

#[test]
fn into_text_matches_the_conversion() {
    assert_eq!(Key::Id(1).into_text(), "00000000-0000-0000-0000-000000000001");
    assert_eq!(Key::Alias(String::from("alias/a")).into_text(), "alias/a");
}
