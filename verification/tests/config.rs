use btrsnap::config::{load, ConfigFile, Resolved};
use btrsnap::error::Error;
use btrsnap::retention::Retention;
use btrsnap::utils::PathProbe;

fn s(text: &str) -> String {
    text.to_string()
}

fn found(path: &str, canonical: &str) -> Option<PathProbe> {
    Some(PathProbe { path: s(path), exists: true, is_dir: true, canonical: Some(s(canonical)) })
}

fn missing(path: &str) -> Option<PathProbe> {
    Some(PathProbe { path: s(path), exists: false, is_dir: false, canonical: None })
}

#[test]
fn no_file_says_nothing() {
    assert_eq!(
        load(None),
        Ok(ConfigFile { snap_dir: None, subvol_base: None, subvol_names: vec![], keep: None })
    );
}

#[test]
fn load_reads_every_setting() {
    let text = "snap-dir = \"/snaps\"\nsubvol-base = \"/mnt\"\nsubvol-names = [\"home\", \"srv\"]\n\n[cleanup]\nkeep = \"7d\"\n";
    assert_eq!(
        load(Some(text)),
        Ok(ConfigFile {
            snap_dir: Some(s("/snaps")),
            subvol_base: Some(s("/mnt")),
            subvol_names: vec![s("home"), s("srv")],
            keep: Some(Retention { seconds: 604800 }),
        })
    );
}

#[test]
fn load_needs_no_more_than_a_snapshot_directory() {
    assert_eq!(
        load(Some("snap-dir = \"/snaps\"\n")),
        Ok(ConfigFile {
            snap_dir: Some(s("/snaps")),
            subvol_base: None,
            subvol_names: vec![],
            keep: None
        })
    );
}

#[test]
fn load_refuses_what_is_not_toml() {
    assert_eq!(load(Some("snap-dir = ")), Err(Error::InvalidToml));
    assert_eq!(load(Some("[[[")), Err(Error::InvalidToml));
}

#[test]
fn load_needs_a_snapshot_directory() {
    assert_eq!(load(Some("")), Err(Error::MissingSnapDir));
    assert_eq!(load(Some("subvol-base = \"/mnt\"\n")), Err(Error::MissingSnapDir));
    assert_eq!(load(Some("snap-dir = 7\n")), Err(Error::MissingSnapDir));
    assert_eq!(load(Some("[snap-dir]\npath = \"/snaps\"\n")), Err(Error::MissingSnapDir));
}

#[test]
fn load_needs_a_base_where_names_are_listed() {
    let text = "snap-dir = \"/snaps\"\nsubvol-names = [\"home\"]\n";
    assert_eq!(load(Some(text)), Err(Error::MissingSubvolBase));
    let text = "snap-dir = \"/snaps\"\nsubvol-names = [\"home\"]\nsubvol-base = 3\n";
    assert_eq!(load(Some(text)), Err(Error::MissingSubvolBase));
}

#[test]
fn load_does_not_look_at_the_base_where_no_names_are_listed() {
    let text = "snap-dir = \"/snaps\"\nsubvol-names = []\n";
    assert_eq!(load(Some(text)).unwrap().subvol_base, None);
    let text = "snap-dir = \"/snaps\"\nsubvol-base = \"/mnt\"\n";
    assert_eq!(load(Some(text)).unwrap().subvol_base, None);
    let text = "snap-dir = \"/snaps\"\nsubvol-names = \"home\"\n";
    assert_eq!(load(Some(text)).unwrap().subvol_names, Vec::<String>::new());
}

#[test]
fn load_keeps_the_names_that_are_strings() {
    let text =
        "snap-dir = \"/snaps\"\nsubvol-base = \"/mnt\"\nsubvol-names = [\"home\", 3, \"srv\", true, [\"x\"]]\n";
    assert_eq!(load(Some(text)).unwrap().subvol_names, vec![s("home"), s("srv")]);
    let text = "snap-dir = \"/snaps\"\nsubvol-names = [1, 2]\n";
    assert_eq!(load(Some(text)).unwrap().subvol_names, Vec::<String>::new());
}

#[test]
fn load_refuses_a_keep_that_is_no_duration() {
    let text = "snap-dir = \"/snaps\"\n[cleanup]\nkeep = \"soon\"\n";
    assert_eq!(load(Some(text)), Err(Error::InvalidKeep { text: s("soon") }));
    let text = "snap-dir = \"/snaps\"\n[cleanup]\nkeep = \"123456789012s\"\n";
    assert_eq!(load(Some(text)), Err(Error::InvalidKeep { text: s("123456789012s") }));
}

#[test]
fn load_passes_over_a_keep_that_is_no_string() {
    let text = "snap-dir = \"/snaps\"\n[cleanup]\nkeep = 7\n";
    assert_eq!(load(Some(text)).unwrap().keep, None);
    let text = "snap-dir = \"/snaps\"\ncleanup = \"7d\"\n";
    assert_eq!(load(Some(text)).unwrap().keep, None);
    let text = "snap-dir = \"/snaps\"\nkeep = \"7d\"\n";
    assert_eq!(load(Some(text)).unwrap().keep, None);
}

#[test]
fn load_reports_the_first_fault() {
    let text = "subvol-names = [\"home\"]\n[cleanup]\nkeep = \"soon\"\n";
    assert_eq!(load(Some(text)), Err(Error::MissingSnapDir));
    let text = "snap-dir = \"/snaps\"\nsubvol-names = [\"home\"]\n[cleanup]\nkeep = \"soon\"\n";
    assert_eq!(load(Some(text)), Err(Error::MissingSubvolBase));
}

#[test]
fn resolve_joins_each_name_to_the_canonical_base() {
    let config = ConfigFile {
        snap_dir: Some(s("snaps")),
        subvol_base: Some(s("mnt")),
        subvol_names: vec![s("home"), s("srv")],
        keep: Some(Retention { seconds: 60 }),
    };
    assert_eq!(
        config.resolve(found("snaps", "/real/snaps"), found("mnt", "/real/mnt")),
        Ok(Resolved {
            snap_dir: Some(s("/real/snaps")),
            subvols: vec![s("/real/mnt/home"), s("/real/mnt/srv")],
            keep: Some(Retention { seconds: 60 }),
        })
    );
}

#[test]
fn resolve_of_nothing_is_nothing() {
    let config = load(None).unwrap();
    assert_eq!(
        config.resolve(None, None),
        Ok(Resolved { snap_dir: None, subvols: vec![], keep: None })
    );
}

#[test]
fn resolve_looks_only_at_what_the_configuration_names() {
    let config = load(None).unwrap();
    assert_eq!(
        config.resolve(found("/a", "/a"), found("/b", "/b")),
        Ok(Resolved { snap_dir: None, subvols: vec![], keep: None })
    );
    let config = load(Some("snap-dir = \"/snaps\"\nsubvol-base = \"/gone\"\n")).unwrap();
    assert_eq!(
        config.resolve(found("/snaps", "/snaps"), missing("/gone")),
        Ok(Resolved { snap_dir: Some(s("/snaps")), subvols: vec![], keep: None })
    );
}

#[test]
fn resolve_needs_a_canonical_snapshot_directory() {
    let config = load(Some("snap-dir = \"/gone\"\n")).unwrap();
    assert_eq!(
        config.clone().resolve(missing("/gone"), None),
        Err(Error::InvalidSnapDir { path: s("/gone") })
    );
    assert_eq!(config.resolve(None, None), Err(Error::InvalidSnapDir { path: s("/gone") }));
}

#[test]
fn resolve_needs_a_canonical_base() {
    let text = "snap-dir = \"/snaps\"\nsubvol-base = \"/gone\"\nsubvol-names = [\"home\"]\n";
    let config = load(Some(text)).unwrap();
    assert_eq!(
        config.resolve(found("/snaps", "/snaps"), missing("/gone")),
        Err(Error::InvalidSubvolBase { path: s("/gone") })
    );
}

#[test]
fn resolve_needs_a_base_where_names_are_listed() {
    let config = ConfigFile {
        snap_dir: None,
        subvol_base: None,
        subvol_names: vec![s("home")],
        keep: None,
    };
    assert_eq!(config.resolve(None, found("/mnt", "/mnt")), Err(Error::MissingSubvolBase));
}
