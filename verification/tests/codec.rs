use btrsnap::codec::{decode, encode, SnapshotIdentity};

fn identity(source_name: &str, created_at: i64) -> SnapshotIdentity {
    SnapshotIdentity { source_name: source_name.to_string(), created_at }
}

#[test]
fn encode_joins_name_and_epoch_seconds() {
    assert_eq!(encode("app", 1000), "app-1000");
    assert_eq!(encode("data", 0), "data-0");
    assert_eq!(encode("", 7), "-7");
    assert_eq!(encode("home", 1700000000), "home-1700000000");
    assert_eq!(encode("home", i64::MAX), "home-9223372036854775807");
}

#[test]
fn encode_writes_instants_before_the_epoch_with_a_sign() {
    assert_eq!(encode("app", -5), "app--5");
    assert_eq!(encode("app", i64::MIN), "app--9223372036854775808");
}

#[test]
fn decode_splits_at_the_last_separator() {
    assert_eq!(decode("app-1000"), Some(identity("app", 1000)));
    assert_eq!(decode("my-app-v2-1500"), Some(identity("my-app-v2", 1500)));
    assert_eq!(decode("app-123-1000"), Some(identity("app-123", 1000)));
    assert_eq!(decode("-42"), Some(identity("", 42)));
    assert_eq!(decode("app--5"), Some(identity("app-", 5)));
}

#[test]
fn decode_accepts_leading_zeros() {
    assert_eq!(decode("app-0001000"), Some(identity("app", 1000)));
    assert_eq!(decode("app-0000000000000000000000000000001"), Some(identity("app", 1)));
    assert_eq!(decode("app-0"), Some(identity("app", 0)));
}

#[test]
fn decode_without_separator_is_none() {
    assert_eq!(decode("not_a_snapshot"), None);
    assert_eq!(decode("1000"), None);
    assert_eq!(decode(""), None);
}

#[test]
fn decode_with_non_numeric_suffix_is_none() {
    assert_eq!(decode("not-a-snapshot"), None);
    assert_eq!(decode("app-"), None);
    assert_eq!(decode("app-12x"), None);
    assert_eq!(decode("app-+12"), None);
    assert_eq!(decode("app- 12"), None);
    assert_eq!(decode("app-１２"), None);
}

#[test]
fn decode_rejects_what_an_i64_cannot_hold() {
    assert_eq!(decode("app-9223372036854775807"), Some(identity("app", i64::MAX)));
    assert_eq!(decode("app-9223372036854775808"), None);
    assert_eq!(decode("app-99999999999999999999999"), None);
}

#[test]
fn decode_undoes_encode() {
    for name in ["app", "", "my-app", "app-123", "données", "a-b-c-"] {
        for instant in [0i64, 1, 9, 10, 1000, 1700000000, i64::MAX] {
            assert_eq!(decode(&encode(name, instant)), Some(identity(name, instant)));
        }
    }
}

#[test]
fn decode_keeps_names_that_are_not_ascii() {
    assert_eq!(decode("données-1500"), Some(identity("données", 1500)));
}
