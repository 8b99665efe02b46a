use btrsnap::cleanup::{Cleanup, CleanupReport, Failure};
use btrsnap::error::Error;
use btrsnap::retention::Retention;
use btrsnap::store::{Action, Reply};
use btrsnap::utils::{Entry, PathProbe, Walked};

struct World {
    walked: Vec<Walked>,
    subvolumes: Vec<String>,
    undeletable: Vec<String>,
    calls: Vec<Action>,
}

impl World {
    fn new(names: &[&str]) -> World {
        World {
            walked: names.iter().map(|name| dir(name)).collect(),
            subvolumes: names.iter().map(|name| format!("/snaps/{}", name)).collect(),
            undeletable: vec![],
            calls: vec![],
        }
    }

    fn perform(&mut self, action: &Action) -> Reply {
        self.calls.push(action.clone());
        match action {
            Action::Scan { .. } => Reply::Entries(self.walked.clone()),
            Action::Get { path } => {
                if self.subvolumes.contains(path) {
                    Reply::Found
                } else {
                    Reply::NotASnapshot
                }
            }
            Action::Delete { path } => {
                if self.undeletable.contains(path) {
                    Reply::Failed("device busy".to_string())
                } else {
                    self.subvolumes.retain(|known| known != path);
                    Reply::Done
                }
            }
            other => panic!("a sweep never asks for {:?}", other),
        }
    }

    fn deleted(&self) -> Vec<String> {
        let mut paths = vec![];
        for call in &self.calls {
            if let Action::Delete { path } = call {
                paths.push(path.clone());
            }
        }
        paths
    }

    fn asked(&self) -> Vec<String> {
        let mut paths = vec![];
        for call in &self.calls {
            if let Action::Get { path } = call {
                paths.push(path.clone());
            }
        }
        paths
    }
}

fn dir(name: &str) -> Walked {
    Walked::Entry(Entry {
        path: format!("/snaps/{}", name),
        name: name.to_string(),
        depth: 1,
        is_dir: true,
    })
}

fn root() -> Option<PathProbe> {
    Some(PathProbe {
        path: "/snaps".to_string(),
        exists: true,
        is_dir: true,
        canonical: Some("/snaps".to_string()),
    })
}

fn keep(seconds: u64) -> Option<Retention> {
    Some(Retention { seconds })
}

fn sweep(world: &mut World, now: i64, seconds: u64) -> (Action, CleanupReport, Vec<String>) {
    let request = Cleanup { snap_dir: root(), keep: keep(seconds) };
    let (mut run, mut action) = request.execute_at(None, None, now);
    let mut printed = vec![];
    let mut turns = 0;
    while !action.ends() {
        let reply = world.perform(&action);
        if let Some(line) = run.notice(&reply) {
            printed.push(line);
        }
        let (next, asked) = run.step(reply);
        run = next;
        action = asked;
        turns += 1;
        assert!(turns < 1000);
    }
    assert!(run.is_finished());
    (action, run.report(), printed)
}

fn paths(names: &[&str]) -> Vec<String> {
    names.iter().map(|name| format!("/snaps/{}", name)).collect()
}

#[test]
fn sweep_deletes_what_is_older_than_the_cutoff() {
    let mut world = World::new(&["app-1000", "app-2000", "data-1500", "not-a-snapshot"]);
    let (last, report, printed) = sweep(&mut world, 2600, 1000);
    assert_eq!(last, Action::Done);
    assert_eq!(world.deleted(), paths(&["app-1000", "data-1500"]));
    assert_eq!(report.cleaned, paths(&["app-1000", "data-1500"]));
    assert_eq!(report.failures, vec![]);
    assert_eq!(world.asked(), paths(&["app-1000", "data-1500"]));
    assert_eq!(world.subvolumes, paths(&["app-2000", "not-a-snapshot"]));
    assert_eq!(printed, vec!["Cleaned: /snaps/app-1000", "Cleaned: /snaps/data-1500"]);
}

#[test]
fn sweep_begins_with_a_scan_of_the_root() {
    let request = Cleanup { snap_dir: root(), keep: keep(1000) };
    let (run, action) = request.execute_at(None, None, 2600);
    assert_eq!(action, Action::Scan { root: "/snaps".to_string() });
    assert!(!run.is_finished());
}

#[test]
fn sweep_keeps_the_entry_at_the_cutoff() {
    let mut world = World::new(&["app-1599", "app-1600", "app-1601"]);
    let (last, report, _) = sweep(&mut world, 2600, 1000);
    assert_eq!(last, Action::Done);
    assert_eq!(report.cleaned, paths(&["app-1599"]));
    assert_eq!(world.subvolumes, paths(&["app-1600", "app-1601"]));
}

#[test]
fn sweep_never_asks_for_what_does_not_decode() {
    let mut world = World::new(&["not-a-snapshot", "plain", "app-", "app-12x", "-"]);
    let (last, report, _) = sweep(&mut world, i64::MAX, 0);
    assert_eq!(last, Action::Done);
    assert_eq!(world.asked(), Vec::<String>::new());
    assert_eq!(world.deleted(), Vec::<String>::new());
    assert_eq!(report.cleaned, Vec::<String>::new());
}

#[test]
fn sweep_passes_over_what_the_volume_store_does_not_know() {
    let mut world = World::new(&["app-1000", "data-1500"]);
    world.subvolumes = paths(&["data-1500"]);
    let (last, report, _) = sweep(&mut world, 2600, 1000);
    assert_eq!(last, Action::Done);
    assert_eq!(world.asked(), paths(&["app-1000", "data-1500"]));
    assert_eq!(world.deleted(), paths(&["data-1500"]));
    assert_eq!(report.cleaned, paths(&["data-1500"]));
    assert_eq!(report.failures, vec![]);
}

#[test]
fn sweep_goes_on_after_a_deletion_fails() {
    let mut world = World::new(&["app-1000", "app-1100", "app-1200"]);
    world.undeletable = paths(&["app-1000", "app-1100"]);
    let (last, report, printed) = sweep(&mut world, 2600, 1000);
    assert_eq!(last, Action::Done);
    assert_eq!(world.deleted(), paths(&["app-1000", "app-1100", "app-1200"]));
    assert_eq!(report.cleaned, paths(&["app-1200"]));
    assert_eq!(
        report.failures,
        vec![
            Failure { path: "/snaps/app-1000".to_string(), reason: "device busy".to_string() },
            Failure { path: "/snaps/app-1100".to_string(), reason: "device busy".to_string() },
        ]
    );
    assert_eq!(printed, vec!["Cleaned: /snaps/app-1200"]);
}

#[test]
fn sweep_of_an_empty_root_ends_at_once() {
    let mut world = World::new(&[]);
    let (last, report, _) = sweep(&mut world, 2600, 1000);
    assert_eq!(last, Action::Done);
    assert_eq!(world.calls, vec![Action::Scan { root: "/snaps".to_string() }]);
    assert_eq!(report.cleaned, Vec::<String>::new());
}

#[test]
fn sweep_leaves_files_and_deeper_entries_alone() {
    let mut world = World::new(&[]);
    world.walked = vec![
        Walked::Entry(Entry {
            path: "/snaps".to_string(),
            name: "snaps-1".to_string(),
            depth: 0,
            is_dir: true,
        }),
        Walked::Entry(Entry {
            path: "/snaps/file-1".to_string(),
            name: "file-1".to_string(),
            depth: 1,
            is_dir: false,
        }),
        Walked::Entry(Entry {
            path: "/snaps/app-1/deep-1".to_string(),
            name: "deep-1".to_string(),
            depth: 2,
            is_dir: true,
        }),
        Walked::Unreadable,
    ];
    world.subvolumes =
        vec!["/snaps".to_string(), "/snaps/file-1".to_string(), "/snaps/app-1/deep-1".to_string()];
    let (last, _, _) = sweep(&mut world, 2600, 1000);
    assert_eq!(last, Action::Done);
    assert_eq!(world.asked(), Vec::<String>::new());
    assert_eq!(world.deleted(), Vec::<String>::new());
}

#[test]
fn sweep_with_a_retention_longer_than_time_deletes_nothing() {
    let mut world = World::new(&["app-0", "app-1000"]);
    let (last, report, _) = sweep(&mut world, 500, 1000);
    assert_eq!(last, Action::Done);
    assert_eq!(world.deleted(), Vec::<String>::new());
    assert_eq!(report.cleaned, Vec::<String>::new());
}

#[test]
fn sweep_needs_a_retention() {
    let request = Cleanup { snap_dir: root(), keep: None };
    let (run, action) = request.execute_at(None, None, 2600);
    assert_eq!(action, Action::Fail(Error::RetentionNotSpecified));
    assert!(run.is_finished());
}

#[test]
fn sweep_needs_a_snapshot_directory() {
    let request = Cleanup { snap_dir: None, keep: keep(10) };
    let (run, action) = request.execute_at(None, None, 2600);
    assert_eq!(action, Action::Fail(Error::SnapDirNotSpecified));
    assert!(run.is_finished());
}

#[test]
fn sweep_needs_the_root_to_exist() {
    let gone = PathProbe { path: "/gone".to_string(), exists: false, is_dir: false, canonical: None };
    let request = Cleanup { snap_dir: Some(gone), keep: keep(10) };
    let (_, action) = request.execute_at(root(), None, 2600);
    assert_eq!(action, Action::Fail(Error::RootNotFound { path: "/gone".to_string() }));
}

#[test]
fn sweep_prefers_its_own_parameters_to_the_defaults() {
    let own = PathProbe {
        path: "/own".to_string(),
        exists: true,
        is_dir: true,
        canonical: Some("/real/own".to_string()),
    };
    let request = Cleanup { snap_dir: Some(own), keep: keep(100) };
    let (run, action) = request.execute_at(root(), keep(5000), 2600);
    assert_eq!(action, Action::Scan { root: "/real/own".to_string() });
    let (run, action) = run.step(Reply::Entries(vec![dir("app-2400"), dir("app-2500")]));
    assert_eq!(action, Action::Get { path: "/snaps/app-2400".to_string() });
    let (_, action) = run.step(Reply::NotASnapshot);
    assert_eq!(action, Action::Done);
}

#[test]
fn sweep_falls_back_to_the_defaults() {
    let request = Cleanup { snap_dir: None, keep: None };
    let (run, action) = request.execute_at(root(), keep(1000), 2600);
    assert_eq!(action, Action::Scan { root: "/snaps".to_string() });
    let (_, action) = run.step(Reply::Entries(vec![dir("app-1599"), dir("app-1600")]));
    assert_eq!(action, Action::Get { path: "/snaps/app-1599".to_string() });
}

#[test]
fn sweep_refuses_a_reply_out_of_turn() {
    let request = Cleanup { snap_dir: root(), keep: keep(1000) };
    let (run, _) = request.execute_at(None, None, 2600);
    let (run, action) = run.step(Reply::Found);
    assert_eq!(action, Action::Fail(Error::OutOfTurn));
    assert!(run.is_finished());
    let (_, action) = run.step(Reply::Entries(vec![dir("app-1")]));
    assert_eq!(action, Action::Fail(Error::OutOfTurn));
}

#[test]
fn sweep_never_deletes_without_the_volume_store_finding_the_entry() {
    let request = Cleanup { snap_dir: root(), keep: keep(1000) };
    let (run, _) = request.execute_at(None, None, 2600);
    let (run, action) = run.step(Reply::Entries(vec![dir("app-1000")]));
    assert_eq!(action, Action::Get { path: "/snaps/app-1000".to_string() });
    let (run, action) = run.step(Reply::Done);
    assert_eq!(action, Action::Fail(Error::OutOfTurn));
    assert_eq!(run.report().cleaned, Vec::<String>::new());
}

#[test]
fn sweep_reads_the_clock_itself() {
    let mut world = World::new(&["app-1000", "app-99999999999"]);
    let request = Cleanup { snap_dir: root(), keep: keep(3600) };
    let (mut run, mut action) = request.execute(None, None);
    while !action.ends() {
        let reply = world.perform(&action);
        let (next, asked) = run.step(reply);
        run = next;
        action = asked;
    }
    assert_eq!(action, Action::Done);
    assert_eq!(world.deleted(), paths(&["app-1000"]));
}

fn alphabet() -> Vec<Reply> {
    vec![
        Reply::Entries(vec![
            dir("app-1000"),
            dir("app-1600"),
            dir("not-a-snapshot"),
            dir("data-1500"),
            Walked::Unreadable,
            dir("app-2000"),
        ]),
        Reply::Found,
        Reply::NotASnapshot,
        Reply::Done,
        Reply::Failed("busy".to_string()),
        Reply::Info(btrsnap::store::SubvolumeInfo { generation: 1, otransid: 1 }),
    ]
}

#[test]
fn whatever_the_replies_a_sweep_deletes_only_expired_snapshots() {
    let letters = alphabet();
    let expired = paths(&["app-1000", "data-1500"]);
    let length = 6;
    let mut word = vec![0usize; length];
    let mut checked = 0;
    loop {
        let request = Cleanup { snap_dir: root(), keep: keep(1000) };
        let (mut run, mut action) = request.execute_at(None, None, 2600);
        for &letter in &word {
            let reply = letters[letter].clone();
            let before = action.clone();
            let (next, asked) = run.step(reply.clone());
            if let Action::Delete { path } = &asked {
                assert!(expired.contains(path));
                assert_eq!(before, Action::Get { path: path.clone() });
                assert_eq!(reply, Reply::Found);
                checked += 1;
            }
            assert!(!matches!(asked, Action::Snapshot { .. } | Action::Mark { .. }));
            run = next;
            action = asked;
        }
        let mut at = 0;
        while at < length && word[at] == letters.len() - 1 {
            word[at] = 0;
            at += 1;
        }
        if at == length {
            break;
        }
        word[at] += 1;
    }
    assert!(checked > 0);
}

#[test]
fn whatever_fails_a_sweep_asks_for_every_expired_snapshot() {
    let outcomes = [Reply::NotASnapshot, Reply::Found];
    let deletions = [Reply::Done, Reply::Failed("busy".to_string())];
    for first in 0..4 {
        for second in 0..4 {
            let request = Cleanup { snap_dir: root(), keep: keep(1000) };
            let (run, _) = request.execute_at(None, None, 2600);
            let (mut run, mut action) = run.step(alphabet()[0].clone());
            let mut asked = vec![];
            for choice in [first, second] {
                match &action {
                    Action::Get { path } => asked.push(path.clone()),
                    other => panic!("{:?}", other),
                }
                let (next, then) = run.step(outcomes[choice / 2].clone());
                run = next;
                action = then;
                if choice / 2 == 1 {
                    assert!(matches!(action, Action::Delete { .. }));
                    let (next, then) = run.step(deletions[choice % 2].clone());
                    run = next;
                    action = then;
                }
            }
            assert_eq!(action, Action::Done);
            assert_eq!(asked, paths(&["app-1000", "data-1500"]));
        }
    }
}
