use btrsnap::error::Error;
use btrsnap::utils::{parse_path, resolve_snap_dir, scan_snapshots, Entry, PathProbe, Walked};

fn found(path: &str, canonical: &str) -> PathProbe {
    PathProbe { path: path.to_string(), exists: true, is_dir: true, canonical: Some(canonical.to_string()) }
}

fn missing(path: &str) -> PathProbe {
    PathProbe { path: path.to_string(), exists: false, is_dir: false, canonical: None }
}

fn entry(path: &str, name: &str, depth: usize, is_dir: bool) -> Entry {
    Entry { path: path.to_string(), name: name.to_string(), depth, is_dir }
}

#[test]
fn parse_path_gives_the_canonical_form() {
    assert_eq!(parse_path(found("snaps/../snaps", "/mnt/snaps")), Ok("/mnt/snaps".to_string()));
}

#[test]
fn parse_path_refuses_a_path_without_canonical_form() {
    assert_eq!(
        parse_path(missing("/nowhere")),
        Err(Error::InvalidPath { path: "/nowhere".to_string() })
    );
}

#[test]
fn resolve_snap_dir_prefers_the_command_line() {
    let cli = found("/cli", "/real/cli");
    let config = found("/config", "/real/config");
    assert_eq!(resolve_snap_dir(Some(cli), Some(config)), Ok("/real/cli".to_string()));
}

#[test]
fn resolve_snap_dir_falls_back_to_the_configuration() {
    let config = found("/config", "/real/config");
    assert_eq!(resolve_snap_dir(None, Some(config)), Ok("/real/config".to_string()));
}

#[test]
fn resolve_snap_dir_needs_a_directory() {
    assert_eq!(resolve_snap_dir(None, None), Err(Error::SnapDirNotSpecified));
}

#[test]
fn resolve_snap_dir_needs_the_directory_to_exist() {
    assert_eq!(
        resolve_snap_dir(Some(missing("/gone")), None),
        Err(Error::RootNotFound { path: "/gone".to_string() })
    );
}

#[test]
fn resolve_snap_dir_does_not_fall_back_when_the_command_line_is_wrong() {
    let config = found("/config", "/real/config");
    assert_eq!(
        resolve_snap_dir(Some(missing("/gone")), Some(config)),
        Err(Error::RootNotFound { path: "/gone".to_string() })
    );
}

#[test]
fn resolve_snap_dir_needs_a_canonical_form() {
    let odd = PathProbe { path: "/odd".to_string(), exists: true, is_dir: true, canonical: None };
    assert_eq!(
        resolve_snap_dir(Some(odd), None),
        Err(Error::NotCanonical { path: "/odd".to_string() })
    );
}

#[test]
fn scan_keeps_the_directories_right_below_the_root() {
    let walked = vec![
        Walked::Entry(entry("/snaps", "snaps", 0, true)),
        Walked::Entry(entry("/snaps/app-1000", "app-1000", 1, true)),
        Walked::Entry(entry("/snaps/notes.txt", "notes.txt", 1, false)),
        Walked::Unreadable,
        Walked::Entry(entry("/snaps/app-1000/etc", "etc", 2, true)),
        Walked::Entry(entry("/snaps/data-1500", "data-1500", 1, true)),
    ];
    assert_eq!(
        scan_snapshots(&walked),
        vec![
            entry("/snaps/app-1000", "app-1000", 1, true),
            entry("/snaps/data-1500", "data-1500", 1, true),
        ]
    );
}

#[test]
fn scan_keeps_the_order_of_the_walk() {
    let walked = vec![
        Walked::Entry(entry("/snaps/z-3", "z-3", 1, true)),
        Walked::Entry(entry("/snaps/a-1", "a-1", 1, true)),
        Walked::Entry(entry("/snaps/m-2", "m-2", 1, true)),
    ];
    let names: Vec<String> = scan_snapshots(&walked).into_iter().map(|e| e.name).collect();
    assert_eq!(names, vec!["z-3", "a-1", "m-2"]);
}

#[test]
fn scan_leaves_out_the_root_itself() {
    let walked = vec![Walked::Entry(entry("/snaps", "snaps", 0, true))];
    assert_eq!(scan_snapshots(&walked), vec![]);
}

#[test]
fn scan_of_nothing_finds_nothing() {
    assert_eq!(scan_snapshots(&vec![]), vec![]);
    assert_eq!(scan_snapshots(&vec![Walked::Unreadable, Walked::Unreadable]), vec![]);
}

#[test]
fn one_unreadable_entry_does_not_hide_the_rest() {
    let walked = vec![
        Walked::Unreadable,
        Walked::Entry(entry("/snaps/app-1000", "app-1000", 1, true)),
        Walked::Unreadable,
        Walked::Entry(entry("/snaps/app-2000", "app-2000", 1, true)),
    ];
    assert_eq!(scan_snapshots(&walked).len(), 2);
}

#[test]
fn resolve_snap_dir_needs_a_directory_at_the_path() {
    let file = PathProbe {
        path: "/etc/fstab".to_string(),
        exists: true,
        is_dir: false,
        canonical: Some("/etc/fstab".to_string()),
    };
    assert_eq!(
        resolve_snap_dir(Some(file), None),
        Err(Error::RootNotFound { path: "/etc/fstab".to_string() })
    );
}

#[test]
fn parse_path_takes_files_too() {
    let file = PathProbe {
        path: "fstab".to_string(),
        exists: true,
        is_dir: false,
        canonical: Some("/etc/fstab".to_string()),
    };
    assert_eq!(parse_path(file), Ok("/etc/fstab".to_string()));
}
