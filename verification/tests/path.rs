use btrsnap::path::{name_or_unknown, source_name};

#[test]
fn source_name_is_the_last_segment() {
    assert_eq!(source_name("/mnt/data/app"), "app");
    assert_eq!(source_name("/mnt/data/app/"), "app");
    assert_eq!(source_name("home"), "home");
    assert_eq!(source_name("/mnt/my-app"), "my-app");
}

#[test]
fn source_name_of_a_path_without_one_is_unknown() {
    assert_eq!(source_name("/"), "unknown");
    assert_eq!(source_name(""), "unknown");
    assert_eq!(source_name("/mnt/.."), "unknown");
}

#[test]
fn name_or_unknown_keeps_a_name() {
    assert_eq!(name_or_unknown(Some("app".to_string())), "app");
    assert_eq!(name_or_unknown(Some(String::new())), "");
    assert_eq!(name_or_unknown(None), "unknown");
}
