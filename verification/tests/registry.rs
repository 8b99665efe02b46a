use btrsnap::codec::SnapshotIdentity;
use btrsnap::registry::Registry;
use btrsnap::utils::Entry;

fn entry(name: &str) -> Entry {
    Entry { path: format!("/snaps/{}", name), name: name.to_string(), depth: 1, is_dir: true }
}

fn names(entries: Vec<Entry>) -> Vec<String> {
    entries.into_iter().map(|e| e.name).collect()
}

#[test]
fn registry_holds_the_entries_that_decode() {
    let scanned = vec![entry("app-1000"), entry("lost+found"), entry("data-1500"), entry("tmp")];
    let registry = Registry::build(&scanned);
    assert_eq!(registry.len(), 2);
    assert_eq!(registry.get(0).unwrap().entry, entry("app-1000"));
    assert_eq!(
        registry.get(0).unwrap().identity,
        SnapshotIdentity { source_name: "app".to_string(), created_at: 1000 }
    );
    assert_eq!(registry.get(1).unwrap().entry, entry("data-1500"));
    assert_eq!(
        registry.get(1).unwrap().identity,
        SnapshotIdentity { source_name: "data".to_string(), created_at: 1500 }
    );
}

#[test]
fn registry_of_nothing_is_empty() {
    assert_eq!(Registry::build(&vec![]).len(), 0);
    assert_eq!(Registry::build(&vec![entry("plain"), entry("not-a-snapshot")]).len(), 0);
}

#[test]
fn older_than_is_strict() {
    let scanned = vec![entry("app-1599"), entry("app-1600"), entry("app-1601")];
    let registry = Registry::build(&scanned);
    assert_eq!(names(registry.older_than(1600)), vec!["app-1599"]);
    assert_eq!(names(registry.older_than(1601)), vec!["app-1599", "app-1600"]);
    assert_eq!(names(registry.older_than(1599)), Vec::<String>::new());
}

#[test]
fn older_than_keeps_the_order_of_the_scan() {
    let scanned = vec![entry("z-30"), entry("a-10"), entry("m-20"), entry("q-99")];
    let registry = Registry::build(&scanned);
    assert_eq!(names(registry.older_than(50)), vec!["z-30", "a-10", "m-20"]);
}

#[test]
fn older_than_a_cutoff_beyond_every_instant() {
    let scanned = vec![entry("app-0"), entry("app-9223372036854775807")];
    let registry = Registry::build(&scanned);
    assert_eq!(names(registry.older_than(i128::MAX)).len(), 2);
    assert_eq!(names(registry.older_than(0)).len(), 0);
    assert_eq!(names(registry.older_than(-5)).len(), 0);
}

#[test]
fn find_looks_a_snapshot_up_by_its_identity() {
    let scanned = vec![entry("app-1000"), entry("plain"), entry("data-1500"), entry("app-2000")];
    let registry = Registry::build(&scanned);
    let id = |name: &str, at: i64| SnapshotIdentity { source_name: name.to_string(), created_at: at };
    assert_eq!(registry.find(&id("app", 1000)), Some(0));
    assert_eq!(registry.find(&id("data", 1500)), Some(1));
    assert_eq!(registry.find(&id("app", 2000)), Some(2));
    assert_eq!(registry.find(&id("app", 1500)), None);
    assert_eq!(registry.find(&id("plain", 0)), None);
}

#[test]
fn find_gives_the_first_of_equal_identities() {
    let scanned = vec![entry("app-0010"), entry("app-10"), entry("app-010")];
    let registry = Registry::build(&scanned);
    let id = SnapshotIdentity { source_name: "app".to_string(), created_at: 10 };
    assert_eq!(registry.find(&id), Some(0));
    assert_eq!(registry.get(0).unwrap().entry.name, "app-0010");
    assert_eq!(registry.get(3), None);
}
