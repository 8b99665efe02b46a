use btrsnap::cleanup::Cleanup;
use btrsnap::command::Commands;
use btrsnap::create::Create;
use btrsnap::delete::Delete;
use btrsnap::error::Error;
use btrsnap::list::List;
use btrsnap::retention::Retention;
use btrsnap::store::{Action, Reply, SubvolumeInfo};
use btrsnap::utils::{Entry, PathProbe, Walked};

fn s(text: &str) -> String {
    text.to_string()
}

fn snaps() -> Option<PathProbe> {
    Some(PathProbe { path: s("/snaps"), exists: true, is_dir: true, canonical: Some(s("/snaps")) })
}

fn home() -> Vec<String> {
    vec![s("/mnt/home")]
}

fn at_once() -> Option<Retention> {
    Some(Retention { seconds: 0 })
}

#[test]
fn create_takes_directory_and_subvolumes_from_the_defaults() {
    let command = Commands::Create(Create { subvol: vec![], snap_dir: None });
    let (operation, action) = command.execute(snaps(), home(), at_once());
    assert_eq!(action, Action::Get { path: s("/mnt/home") });
    let (operation, action) = operation.step(Reply::Found);
    let destination = match action {
        Action::Snapshot { source, destination } => {
            assert_eq!(source, "/mnt/home");
            assert!(destination.starts_with("/snaps/home-"));
            destination
        }
        other => panic!("{:?}", other),
    };
    assert_eq!(operation.notice(&Reply::Done), Some(format!("Created snapshot: {}", destination)));
    let (operation, action) = operation.step(Reply::Done);
    assert_eq!(action, Action::Mark { path: format!("{}/.ignore", destination) });
    let (_, action) = operation.step(Reply::Done);
    assert_eq!(action, Action::Done);
}

#[test]
fn delete_takes_nothing_from_the_defaults() {
    let command = Commands::Delete(Delete { snapshot: vec![] });
    let (_, action) = command.execute(snaps(), home(), at_once());
    assert_eq!(action, Action::Fail(Error::NoTargets));
    let command = Commands::Delete(Delete { snapshot: vec![s("/snaps/a-1")] });
    let (operation, action) = command.execute(None, vec![], None);
    assert_eq!(action, Action::Get { path: s("/snaps/a-1") });
    let (operation, action) = operation.step(Reply::Found);
    assert_eq!(action, Action::Delete { path: s("/snaps/a-1") });
    assert_eq!(operation.notice(&Reply::Done), Some(s("Deleted: /snaps/a-1")));
    let (_, action) = operation.step(Reply::Done);
    assert_eq!(action, Action::Done);
}

#[test]
fn list_takes_the_directory_from_the_defaults() {
    let command = Commands::List(List { snap_dir: None });
    let (operation, action) = command.execute(snaps(), home(), at_once());
    assert_eq!(action, Action::Scan { root: s("/snaps") });
    let walked = vec![Walked::Entry(Entry {
        path: s("/snaps/a-1"),
        name: s("a-1"),
        depth: 1,
        is_dir: true,
    })];
    let (operation, action) = operation.step(Reply::Entries(walked));
    assert_eq!(action, Action::Get { path: s("/snaps/a-1") });
    let (operation, action) = operation.step(Reply::Found);
    assert_eq!(action, Action::Info { path: s("/snaps/a-1") });
    let info = Reply::Info(SubvolumeInfo { generation: 9, otransid: 8 });
    assert_eq!(operation.notice(&info), Some(s("/snaps/a-1: gen=9, otime=8")));
    let (_, action) = operation.step(info);
    assert_eq!(action, Action::Done);
}

#[test]
fn cleanup_takes_directory_and_retention_from_the_defaults() {
    let command = Commands::Cleanup(Cleanup { snap_dir: None, keep: None });
    let (operation, action) = command.execute(snaps(), home(), at_once());
    assert_eq!(action, Action::Scan { root: s("/snaps") });
    let walked = vec![Walked::Entry(Entry {
        path: s("/snaps/a-1"),
        name: s("a-1"),
        depth: 1,
        is_dir: true,
    })];
    let (operation, action) = operation.step(Reply::Entries(walked));
    assert_eq!(action, Action::Get { path: s("/snaps/a-1") });
    let (operation, action) = operation.step(Reply::Found);
    assert_eq!(action, Action::Delete { path: s("/snaps/a-1") });
    assert_eq!(operation.notice(&Reply::Done), Some(s("Cleaned: /snaps/a-1")));
    let (_, action) = operation.step(Reply::Done);
    assert_eq!(action, Action::Done);
}

#[test]
fn commands_without_defaults_say_what_is_missing() {
    let (_, action) =
        Commands::Create(Create { subvol: vec![], snap_dir: None }).execute(None, vec![], None);
    assert_eq!(action, Action::Fail(Error::SnapDirNotSpecified));
    let (_, action) = Commands::List(List { snap_dir: None }).execute(None, vec![], None);
    assert_eq!(action, Action::Fail(Error::SnapDirNotSpecified));
    let (_, action) =
        Commands::Cleanup(Cleanup { snap_dir: None, keep: None }).execute(None, vec![], None);
    assert_eq!(action, Action::Fail(Error::SnapDirNotSpecified));
    let (_, action) =
        Commands::Cleanup(Cleanup { snap_dir: None, keep: None }).execute(snaps(), home(), None);
    assert_eq!(action, Action::Fail(Error::RetentionNotSpecified));
    let (_, action) = Commands::Create(Create { subvol: vec![], snap_dir: None })
        .execute(snaps(), vec![], at_once());
    assert_eq!(action, Action::Fail(Error::SubvolumesNotSpecified));
}
