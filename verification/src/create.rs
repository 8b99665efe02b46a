//! Create: one snapshot of each named subvolume.
//!
//! The instant is taken once and shared by every snapshot of the
//! invocation, so that a batch can be told as one point in time.  Each
//! subvolume is resolved through the volume store, snapshotted to
//! `<root>/<source_name>-<instant>`, and given an empty marker file.  The
//! first thing that goes wrong stops the operation: a subvolume that the
//! operator expected to be snapshotted is never skipped in silence.

use crate::clock::now;
use crate::codec::{decoded, encode, encoded, lemma_decode_encode};
use crate::error::Error;
use crate::path::{final_component, join, joined, source_name, source_name_of};
use crate::store::{Action, Reply};
use crate::utils::{resolve_snap_dir, resolved_snap_dir, PathProbe};
use vstd::prelude::*;
use vstd::string::*;

verus! {

/// A request to snapshot subvolumes.
#[derive(Clone, Debug, PartialEq, Eq)]
pub struct Create {
    /// The paths of the subvolumes to snapshot, where the invocation names
    /// any.
    pub subvol: Vec<String>,
    /// The snapshot directory, where the invocation names one.
    pub snap_dir: Option<PathProbe>,
}

/// The name of the empty file that is put into every new snapshot.
pub open spec fn marker_name() -> Seq<char> {
    ".ignore"@
}

/// One snapshot to take.
#[derive(Clone, Debug, PartialEq, Eq)]
pub struct Target {
    /// The path of the subvolume.
    pub source: String,
    /// The path of the snapshot.
    pub destination: String,
    /// The path of the marker file inside the snapshot.
    pub marker: String,
}

/// The name of the entry that a snapshot of `source` taken at `instant`
/// gets.
pub open spec fn entry_name(source: Seq<char>, instant: i64) -> Seq<char> {
    encoded(source_name_of(final_component(source)), instant as int)
}

/// Whether `target` is the snapshot of `source` under `root` at `instant`.
pub open spec fn planned(root: Seq<char>, source: String, instant: i64, target: Target) -> bool {
    &&& target.source == source
    &&& target.destination@ == joined(root, entry_name(source@, instant))
    &&& target.marker@ == joined(target.destination@, marker_name())
}

/// Where a creation stands.
#[derive(Clone, Copy, Debug, PartialEq, Eq)]
pub enum Stage {
    /// The volume store's word on the subvolume under the cursor is awaited.
    Getting,
    /// The snapshot of the subvolume under the cursor is awaited.
    Snapshotting,
    /// The marker file of the snapshot just taken is awaited.
    Marking,
    /// The operation has ended.
    Finished,
}

/// A creation, as the laws below speak of it.
pub struct CreateState {
    pub stage: Stage,
    /// The snapshots to take, in the order given.
    pub targets: Seq<Target>,
    /// How many targets are dealt with.
    pub cursor: int,
    /// The paths of the snapshots taken so far.
    pub created: Seq<String>,
}

impl CreateState {
    /// What holds of every creation: the cursor is within the targets, and
    /// an awaited reply is about one of them.
    pub open spec fn wf(self) -> bool {
        &&& 0 <= self.cursor <= self.targets.len()
        &&& !(self.stage is Finished) ==> self.cursor < self.targets.len()
    }

    /// A creation that ended before it began.
    pub open spec fn ended() -> CreateState {
        CreateState {
            stage: Stage::Finished,
            targets: Seq::empty(),
            cursor: 0,
            created: Seq::empty(),
        }
    }

    /// The creation, stopped where it stands.
    pub open spec fn halted(self) -> CreateState {
        CreateState { stage: Stage::Finished, ..self }
    }

    /// Turns to the target under the cursor: asks the volume store for its
    /// subvolume, or ends the operation where no target is left.
    pub open spec fn seek(self) -> (CreateState, Action) {
        if 0 <= self.cursor < self.targets.len() {
            (
                CreateState { stage: Stage::Getting, ..self },
                Action::Get { path: self.targets[self.cursor].source },
            )
        } else {
            (self.halted(), Action::Done)
        }
    }

    /// What the creation makes of a reply: the state it is in afterwards,
    /// and what it asks for next.
    pub open spec fn step(self, reply: Reply) -> (CreateState, Action) {
        let target = self.targets[self.cursor];
        match (self.stage, reply) {
            (Stage::Getting, Reply::Found) => (
                CreateState { stage: Stage::Snapshotting, ..self },
                Action::Snapshot { source: target.source, destination: target.destination },
            ),
            (Stage::Getting, Reply::NotASnapshot) => (
                self.halted(),
                Action::Fail(Error::NotASubvolume { path: target.source }),
            ),
            (Stage::Snapshotting, Reply::Done) => (
                CreateState {
                    stage: Stage::Marking,
                    created: self.created.push(target.destination),
                    ..self
                },
                Action::Mark { path: target.marker },
            ),
            (Stage::Snapshotting, Reply::Failed(reason)) => (
                self.halted(),
                Action::Fail(
                    Error::SnapshotFailed {
                        source: target.source,
                        destination: target.destination,
                        reason,
                    },
                ),
            ),
            (Stage::Marking, Reply::Done) => CreateState {
                cursor: self.cursor + 1,
                ..self
            }.seek(),
            (Stage::Marking, Reply::Failed(reason)) => (
                self.halted(),
                Action::Fail(Error::MarkerFailed { snapshot: target.destination, reason }),
            ),
            _ => (self.halted(), Action::Fail(Error::OutOfTurn)),
        }
    }

    /// What is to be printed when `reply` comes in: a line for every
    /// snapshot taken.
    pub open spec fn notice(self, reply: Reply) -> Option<Seq<char>> {
        match (self.stage, reply) {
            (Stage::Snapshotting, Reply::Done) => Some(
                "Created snapshot: "@ + self.targets[self.cursor].destination@,
            ),
            _ => None,
        }
    }

    /// The creation after it has taken `replies` one by one.
    pub open spec fn after(self, replies: Seq<Reply>) -> CreateState
        decreases replies.len(),
    {
        if replies.len() == 0 {
            self
        } else {
            self.after(replies.drop_last()).step(replies.last()).0
        }
    }

    /// What the creation asks for on the last of `replies`, having taken the
    /// ones before.
    pub open spec fn answer(self, replies: Seq<Reply>) -> Action {
        self.after(replies.drop_last()).step(replies.last()).1
    }
}

impl Create {
    /// The subvolumes of the invocation: its own where it names any, else
    /// the configuration's.
    pub open spec fn chosen_sources(self, subvols: Vec<String>) -> Seq<String> {
        if self.subvol@.len() > 0 {
            self.subvol@
        } else {
            subvols@
        }
    }

    /// Whether `state` and `action` are how a creation begins at `now`:
    /// with the first subvolume, every snapshot planned under the one
    /// instant `now`; or with the reason why nothing will be created.
    pub open spec fn begins(
        self,
        snap_dir: Option<PathProbe>,
        subvols: Vec<String>,
        now: i64,
        state: CreateState,
        action: Action,
    ) -> bool {
        match resolved_snap_dir(self.snap_dir, snap_dir) {
            Err(error) => state == CreateState::ended() && action == Action::Fail(error),
            Ok(root) => {
                let sources = self.chosen_sources(subvols);
                if sources.len() == 0 {
                    state == CreateState::ended() && action == Action::Fail(
                        Error::SubvolumesNotSpecified,
                    )
                } else {
                    &&& state.stage is Getting
                    &&& state.cursor == 0
                    &&& state.created == Seq::<String>::empty()
                    &&& state.targets.len() == sources.len()
                    &&& forall|i: int|
                        0 <= i < sources.len() ==> planned(
                            root@,
                            sources[i],
                            now,
                            #[trigger] state.targets[i],
                        )
                    &&& action == Action::Get { path: sources[0] }
                }
            },
        }
    }

    /// Begins the creation at the current instant.
    ///
    /// `snap_dir` and `subvols` are the configuration's defaults; what the
    /// invocation itself names takes precedence.  The clock is read once, and
    /// every snapshot of the invocation carries that one reading.
    pub fn execute(self, snap_dir: Option<PathProbe>, subvols: Vec<String>) -> (r: (
        CreateRun,
        Action,
    ))
        ensures
            exists|now: i64| #[trigger] self.begins(snap_dir, subvols, now, r.0@, r.1),
            r.0@.wf(),
    {
        let now = now();
        self.execute_at(snap_dir, subvols, now)
    }

    /// Begins the creation as of `now`, in seconds since the epoch.
    pub fn execute_at(self, snap_dir: Option<PathProbe>, subvols: Vec<String>, now: i64) -> (r: (
        CreateRun,
        Action,
    ))
        ensures
            self.begins(snap_dir, subvols, now, r.0@, r.1),
            r.0@.wf(),
    {
        let root = match resolve_snap_dir(self.snap_dir, snap_dir) {
            Ok(root) => root,
            Err(error) => {
                return (CreateRun::ended(), Action::Fail(error));
            },
        };
        let sources = if self.subvol.len() > 0 {
            self.subvol
        } else {
            subvols
        };
        if sources.len() == 0 {
            return (CreateRun::ended(), Action::Fail(Error::SubvolumesNotSpecified));
        }
        let mut targets: Vec<Target> = Vec::new();
        let mut i: usize = 0;
        while i < sources.len()
            invariant
                i <= sources.len(),
                targets@.len() == i,
                forall|k: int|
                    0 <= k < i ==> planned(root@, sources@[k], now, #[trigger] targets@[k]),
            decreases sources.len() - i,
        {
            targets.push(plan_target(root.as_str(), sources[i].clone(), now));
            i += 1;
        }
        let path = sources[0].clone();
        (
            CreateRun { stage: Stage::Getting, targets, cursor: 0, created: Vec::new() },
            Action::Get { path },
        )
    }
}

/// Plans the snapshot of `source` under `root` at `instant`.
pub fn plan_target(root: &str, source: String, instant: i64) -> (target: Target)
    ensures
        planned(root@, source, instant, target),
{
    let name = source_name(source.as_str());
    let entry = encode(name.as_str(), instant);
    let destination = join(root, entry.as_str());
    let marker = join(destination.as_str(), ".ignore");
    Target { source, destination, marker }
}

/// A creation in progress.
pub struct CreateRun {
    stage: Stage,
    targets: Vec<Target>,
    cursor: usize,
    created: Vec<String>,
}

impl View for CreateRun {
    type V = CreateState;

    closed spec fn view(&self) -> CreateState {
        CreateState {
            stage: self.stage,
            targets: self.targets@,
            cursor: self.cursor as int,
            created: self.created@,
        }
    }
}

impl CreateRun {
    #[verifier::type_invariant]
    spec fn inv(self) -> bool {
        self@.wf()
    }

    fn ended() -> (run: CreateRun)
        ensures
            run@ == CreateState::ended(),
            run@.wf(),
    {
        CreateRun { stage: Stage::Finished, targets: Vec::new(), cursor: 0, created: Vec::new() }
    }

    /// Takes the reply to the action last handed out, and hands out the next.
    ///
    /// A reply that does not answer that action ends the operation with
    /// `Error::OutOfTurn`, and nothing more is asked for.
    pub fn step(self, reply: Reply) -> (r: (CreateRun, Action))
        ensures
            (r.0@, r.1) == self@.step(reply),
            r.0@.wf(),
    {
        proof {
            use_type_invariant(&self);
        }
        let CreateRun { stage, targets, cursor, mut created } = self;
        let next: usize = if cursor < targets.len() {
            cursor + 1
        } else {
            cursor
        };
        match (stage, reply) {
            (Stage::Getting, Reply::Found) => {
                let source = targets[cursor].source.clone();
                let destination = targets[cursor].destination.clone();
                (
                    CreateRun { stage: Stage::Snapshotting, targets, cursor, created },
                    Action::Snapshot { source, destination },
                )
            },
            (Stage::Getting, Reply::NotASnapshot) => {
                let path = targets[cursor].source.clone();
                (
                    CreateRun { stage: Stage::Finished, targets, cursor, created },
                    Action::Fail(Error::NotASubvolume { path }),
                )
            },
            (Stage::Snapshotting, Reply::Done) => {
                let destination = targets[cursor].destination.clone();
                let path = targets[cursor].marker.clone();
                created.push(destination);
                (
                    CreateRun { stage: Stage::Marking, targets, cursor, created },
                    Action::Mark { path },
                )
            },
            (Stage::Snapshotting, Reply::Failed(reason)) => {
                let source = targets[cursor].source.clone();
                let destination = targets[cursor].destination.clone();
                (
                    CreateRun { stage: Stage::Finished, targets, cursor, created },
                    Action::Fail(Error::SnapshotFailed { source, destination, reason }),
                )
            },
            (Stage::Marking, Reply::Done) => {
                if next < targets.len() {
                    let path = targets[next].source.clone();
                    (
                        CreateRun { stage: Stage::Getting, targets, cursor: next, created },
                        Action::Get { path },
                    )
                } else {
                    (
                        CreateRun { stage: Stage::Finished, targets, cursor: next, created },
                        Action::Done,
                    )
                }
            },
            (Stage::Marking, Reply::Failed(reason)) => {
                let snapshot = targets[cursor].destination.clone();
                (
                    CreateRun { stage: Stage::Finished, targets, cursor, created },
                    Action::Fail(Error::MarkerFailed { snapshot, reason }),
                )
            },
            _ => (
                CreateRun { stage: Stage::Finished, targets, cursor, created },
                Action::Fail(Error::OutOfTurn),
            ),
        }
    }

    /// What to print when `reply` comes in, before it is taken.
    pub fn notice(&self, reply: &Reply) -> (line: Option<String>)
        ensures
            match line {
                Some(line) => self@.notice(*reply) == Some(line@),
                None => self@.notice(*reply) is None,
            },
    {
        proof {
            use_type_invariant(self);
        }
        match (self.stage, reply) {
            (Stage::Snapshotting, Reply::Done) => {
                let mut line = String::from_str("Created snapshot: ");
                line.append(self.targets[self.cursor].destination.as_str());
                Some(line)
            },
            _ => None,
        }
    }

    /// Whether the operation has ended.
    pub fn is_finished(&self) -> (finished: bool)
        ensures
            finished == (self@.stage is Finished),
    {
        match self.stage {
            Stage::Finished => true,
            _ => false,
        }
    }

    /// The paths of the snapshots taken so far.
    pub fn report(self) -> (created: Vec<String>)
        ensures
            created@ == self@.created,
    {
        self.created
    }
}

/// A creation begins with nothing created: either it asks the volume store
/// for the first subvolume, or it has ended with the reason why it cannot
/// begin.
pub proof fn lemma_creation_begins_clean(
    create: Create,
    snap_dir: Option<PathProbe>,
    subvols: Vec<String>,
    now: i64,
    state: CreateState,
    action: Action,
)
    requires
        create.begins(snap_dir, subvols, now, state, action),
    ensures
        state.wf(),
        state.cursor == 0,
        state.created.len() == 0,
        if action is Get {
            state.stage is Getting && state.targets.len() == create.chosen_sources(subvols).len()
        } else {
            state.stage is Finished && action is Fail
        },
{
}

/// A step of a creation leaves it a creation, and never changes what was
/// planned.
pub proof fn lemma_step_keeps_wf(state: CreateState, reply: Reply)
    requires
        state.wf(),
    ensures
        state.step(reply).0.wf(),
        state.step(reply).0.targets == state.targets,
{
}

/// Whatever replies a creation takes, it stays a creation of the same
/// targets.
pub proof fn lemma_after_keeps_wf(start: CreateState, replies: Seq<Reply>)
    requires
        start.wf(),
    ensures
        start.after(replies).wf(),
        start.after(replies).targets == start.targets,
    decreases replies.len(),
{
    if replies.len() > 0 {
        lemma_after_keeps_wf(start, replies.drop_last());
        lemma_step_keeps_wf(start.after(replies.drop_last()), replies.last());
    }
}

/// Every snapshot of one invocation carries the same instant.
///
/// Of the targets planned under one root at one instant, each lies under
/// that root, and its entry name is the source's name, the separator, and
/// the text of that one instant; from the epoch on, it decodes to that name
/// and that instant.  Two subvolumes snapshotted together thus get entries
/// with the identical timestamp suffix.
pub proof fn lemma_entries_share_the_instant(
    root: Seq<char>,
    sources: Seq<String>,
    instant: i64,
    targets: Seq<Target>,
    i: int,
)
    requires
        targets.len() == sources.len(),
        forall|k: int|
            0 <= k < sources.len() ==> planned(root, sources[k], instant, #[trigger] targets[k]),
        0 <= i < sources.len(),
    ensures
        targets[i].destination@ == joined(root, entry_name(sources[i]@, instant)),
        entry_name(sources[i]@, instant) == source_name_of(final_component(sources[i]@))
            + seq![crate::codec::SEPARATOR] + crate::codec::instant_text(instant as int),
        instant >= 0 ==> decoded(entry_name(sources[i]@, instant)) == Some(
            (source_name_of(final_component(sources[i]@)), instant),
        ),
{
    if instant >= 0 {
        lemma_decode_encode(source_name_of(final_component(sources[i]@)), instant);
    }
}

/// A creation asks for snapshots of its planned targets only, each only
/// after the volume store has found the subvolume, and each to the
/// destination planned for it.
pub proof fn lemma_snapshots_only_planned(start: CreateState, replies: Seq<Reply>)
    requires
        start.wf(),
        replies.len() > 0,
        start.answer(replies) is Snapshot,
    ensures
        replies.last() is Found,
        exists|i: int|
            0 <= i < start.targets.len() && start.answer(replies) == (Action::Snapshot {
                source: (#[trigger] start.targets[i]).source,
                destination: start.targets[i].destination,
            }),
{
    let state = start.after(replies.drop_last());
    lemma_after_keeps_wf(start, replies.drop_last());
    assert(start.answer(replies) == (Action::Snapshot {
        source: start.targets[state.cursor].source,
        destination: start.targets[state.cursor].destination,
    }));
}

/// The first failure aborts what remains: after a subvolume that the volume
/// store does not know, a snapshot that it refuses, or a marker file that
/// cannot be made, the operation has ended with an error, and nothing that
/// was still to come is attempted.
pub proof fn lemma_failure_is_fatal(state: CreateState, reply: Reply)
    requires
        state.wf(),
        (state.stage is Getting && reply is NotASnapshot) || (state.stage is Snapshotting
            && reply is Failed) || (state.stage is Marking && reply is Failed),
    ensures
        state.step(reply).0.stage is Finished,
        state.step(reply).1 is Fail,
{
}


/// Once a creation has ended it stays ended: whatever comes in, it asks for
/// nothing more.  With the law before, a failure thus leaves every
/// subvolume behind the one that failed unattempted.
pub proof fn lemma_ended_stays_ended(start: CreateState, replies: Seq<Reply>)
    requires
        start.stage is Finished,
        replies.len() > 0,
    ensures
        start.after(replies).stage is Finished,
        start.after(replies).created == start.created,
        start.answer(replies) == Action::Fail(Error::OutOfTurn),
    decreases replies.len(),
{
    if replies.len() > 1 {
        lemma_ended_stays_ended(start, replies.drop_last());
    }
}

/// The destinations of `targets`, in their order.
pub open spec fn destinations(targets: Seq<Target>) -> Seq<String> {
    targets.map_values(|target: Target| target.destination)
}

/// What a creation has created is the snapshots of what came first among
/// its targets, in their order: it never skips a subvolume.  When it stops
/// at a failure, nothing has been done for the targets behind the one that
/// failed.
pub proof fn lemma_created_come_first(start: CreateState, replies: Seq<Reply>)
    requires
        start.wf(),
        start.cursor == 0,
        start.created.len() == 0,
        start.stage is Getting || start.stage is Finished,
    ensures
        ({
            let end = start.after(replies);
            &&& end.wf()
            &&& end.targets == start.targets
            &&& end.cursor <= end.created.len() <= end.cursor + 1
            &&& end.created.len() <= end.targets.len()
            &&& end.created == destinations(end.targets.take(end.created.len() as int))
            &&& (end.stage is Getting || end.stage is Snapshotting) ==> end.created.len()
                == end.cursor
            &&& end.stage is Marking ==> end.created.len() == end.cursor + 1
        }),
    decreases replies.len(),
{
    assert(start.created =~= destinations(start.targets.take(0)));
    if replies.len() > 0 {
        lemma_created_come_first(start, replies.drop_last());
        let end = start.after(replies);
        assert(end.created =~= destinations(end.targets.take(end.created.len() as int)));
    }
}

} // verus!
