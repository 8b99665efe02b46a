//! Cleanup: the retention sweep.
//!
//! A sweep scans the snapshot directory once, picks the entries that are
//! snapshots taken strictly before the cutoff, and for each of them in turn
//! asks the volume store whether it is a genuine subvolume and, if so, has it
//! deleted.  An entry whose name does not decode is never touched, and
//! neither is one that the volume store does not know.  A deletion that
//! fails is noted and the sweep goes on: it runs unattended, and is there to
//! make as much progress as it can.

use crate::clock::now;
use crate::error::Error;
use crate::registry::{
    expired,
    is_expired,
    lemma_expired_are_expired,
    lemma_expired_of_recognized,
    Registry,
};
use crate::retention::{cutoff, cutoff_at, Retention};
use crate::store::{Action, Reply};
use crate::utils::{
    candidates,
    resolve_snap_dir,
    resolved_snap_dir,
    scan_snapshots,
    Entry,
    PathProbe,
};
use vstd::prelude::*;
use vstd::string::*;

verus! {

/// A request to delete the snapshots that are older than a duration.
#[derive(Clone, Debug, PartialEq, Eq)]
pub struct Cleanup {
    /// The snapshot directory to sweep, where the invocation names one.
    pub snap_dir: Option<PathProbe>,
    /// How long snapshots are kept, where the invocation says so.
    pub keep: Option<Retention>,
}

/// Where a sweep stands.
#[derive(Clone, Copy, Debug, PartialEq, Eq)]
pub enum Stage {
    /// The scan of the snapshot directory is awaited.
    Scanning,
    /// The volume store's word on the entry under the cursor is awaited.
    Getting,
    /// The deletion of the entry under the cursor is awaited.
    Deleting,
    /// The sweep has ended.
    Finished,
}

/// A deletion that the volume store refused.
#[derive(Clone, Debug, PartialEq, Eq)]
pub struct Failure {
    pub path: String,
    pub reason: String,
}

/// A sweep, as the laws below speak of it.
pub struct CleanupState {
    pub stage: Stage,
    /// The instant before which a snapshot is old enough to delete.
    pub cutoff: int,
    /// The entries to try, in the order of the scan.
    pub plan: Seq<Entry>,
    /// How many entries of the plan are dealt with.
    pub cursor: int,
    /// The paths deleted so far.
    pub cleaned: Seq<String>,
    /// The deletions refused so far.
    pub failures: Seq<Failure>,
}

impl CleanupState {
    /// What holds of every sweep: the cursor is within the plan, an awaited
    /// reply is about an entry of the plan, and the plan holds nothing but
    /// snapshots taken before the cutoff.
    pub open spec fn wf(self) -> bool {
        &&& 0 <= self.cursor <= self.plan.len()
        &&& (self.stage is Getting || self.stage is Deleting) ==> self.cursor < self.plan.len()
        &&& forall|i: int|
            0 <= i < self.plan.len() ==> is_expired(#[trigger] self.plan[i], self.cutoff)
    }

    /// A sweep that ended before it began.
    pub open spec fn ended() -> CleanupState {
        CleanupState {
            stage: Stage::Finished,
            cutoff: 0,
            plan: Seq::empty(),
            cursor: 0,
            cleaned: Seq::empty(),
            failures: Seq::empty(),
        }
    }

    /// The sweep, stopped where it stands.
    pub open spec fn halted(self) -> CleanupState {
        CleanupState { stage: Stage::Finished, ..self }
    }

    /// Turns to the entry under the cursor: asks the volume store for it, or
    /// ends the sweep where the plan is used up.
    pub open spec fn seek(self) -> (CleanupState, Action) {
        if 0 <= self.cursor < self.plan.len() {
            (
                CleanupState { stage: Stage::Getting, ..self },
                Action::Get { path: self.plan[self.cursor].path },
            )
        } else {
            (self.halted(), Action::Done)
        }
    }

    /// The sweep with the entry under the cursor behind it.
    pub open spec fn passed(self) -> CleanupState {
        CleanupState { cursor: self.cursor + 1, ..self }
    }

    /// What the sweep makes of a reply: the state it is in afterwards, and
    /// what it asks for next.
    pub open spec fn step(self, reply: Reply) -> (CleanupState, Action) {
        match (self.stage, reply) {
            (Stage::Scanning, Reply::Entries(walked)) => CleanupState {
                plan: expired(candidates(walked@), self.cutoff),
                cursor: 0,
                ..self
            }.seek(),
            (Stage::Getting, Reply::Found) => (
                CleanupState { stage: Stage::Deleting, ..self },
                Action::Delete { path: self.plan[self.cursor].path },
            ),
            (Stage::Getting, Reply::NotASnapshot) => self.passed().seek(),
            (Stage::Deleting, Reply::Done) => CleanupState {
                cleaned: self.cleaned.push(self.plan[self.cursor].path),
                ..self
            }.passed().seek(),
            (Stage::Deleting, Reply::Failed(reason)) => CleanupState {
                failures: self.failures.push(
                    Failure { path: self.plan[self.cursor].path, reason },
                ),
                ..self
            }.passed().seek(),
            _ => (self.halted(), Action::Fail(Error::OutOfTurn)),
        }
    }

    /// What is to be printed when `reply` comes in: a line for every
    /// snapshot deleted.
    pub open spec fn notice(self, reply: Reply) -> Option<Seq<char>> {
        match (self.stage, reply) {
            (Stage::Deleting, Reply::Done) => Some("Cleaned: "@ + self.plan[self.cursor].path@),
            _ => None,
        }
    }

    /// Whether `reply` answers what the sweep is waiting for.
    pub open spec fn expects(self, reply: Reply) -> bool {
        match self.stage {
            Stage::Scanning => reply is Entries,
            Stage::Getting => reply is Found || reply is NotASnapshot,
            Stage::Deleting => reply is Done || reply is Failed,
            Stage::Finished => false,
        }
    }

    /// The sweep after it has taken `replies` one by one.
    pub open spec fn after(self, replies: Seq<Reply>) -> CleanupState
        decreases replies.len(),
    {
        if replies.len() == 0 {
            self
        } else {
            self.after(replies.drop_last()).step(replies.last()).0
        }
    }

    /// What the sweep asks for on the last of `replies`, having taken the
    /// ones before.
    pub open spec fn answer(self, replies: Seq<Reply>) -> Action {
        self.after(replies.drop_last()).step(replies.last()).1
    }

    /// Whether each of `replies` answers what the sweep was waiting for when
    /// it came.
    pub open spec fn in_turn(self, replies: Seq<Reply>) -> bool {
        forall|k: int|
            0 <= k < replies.len() ==> (#[trigger] self.after(replies.take(k))).expects(replies[k])
    }
}

impl Cleanup {
    /// The retention of the invocation: its own where it has one, else the
    /// configuration's.
    pub open spec fn chosen_keep(self, keep_duration: Option<Retention>) -> Option<Retention> {
        match self.keep {
            Some(keep) => Some(keep),
            None => keep_duration,
        }
    }

    /// How a sweep begins at `now`: with a scan of the snapshot directory,
    /// or with the reason why there will be none.
    pub open spec fn started(
        self,
        snap_dir: Option<PathProbe>,
        keep_duration: Option<Retention>,
        now: i64,
    ) -> (CleanupState, Action) {
        match resolved_snap_dir(self.snap_dir, snap_dir) {
            Err(error) => (CleanupState::ended(), Action::Fail(error)),
            Ok(root) => match self.chosen_keep(keep_duration) {
                None => (CleanupState::ended(), Action::Fail(Error::RetentionNotSpecified)),
                Some(keep) => (
                    CleanupState {
                        stage: Stage::Scanning,
                        cutoff: cutoff_at(now, keep),
                        plan: Seq::empty(),
                        cursor: 0,
                        cleaned: Seq::empty(),
                        failures: Seq::empty(),
                    },
                    Action::Scan { root },
                ),
            },
        }
    }

    /// Begins a sweep at the current instant.
    ///
    /// `snap_dir` and `keep_duration` are the configuration's defaults; what
    /// the invocation itself names takes precedence.  The clock is read once,
    /// and the cutoff is that reading less the retention.
    pub fn execute(self, snap_dir: Option<PathProbe>, keep_duration: Option<Retention>) -> (r: (
        CleanupRun,
        Action,
    ))
        ensures
            exists|now: i64| (r.0@, r.1) == #[trigger] self.started(snap_dir, keep_duration, now),
            r.0@.wf(),
    {
        let now = now();
        self.execute_at(snap_dir, keep_duration, now)
    }

    /// Begins a sweep as of `now`, in seconds since the epoch.
    pub fn execute_at(
        self,
        snap_dir: Option<PathProbe>,
        keep_duration: Option<Retention>,
        now: i64,
    ) -> (r: (CleanupRun, Action))
        ensures
            (r.0@, r.1) == self.started(snap_dir, keep_duration, now),
            r.0@.wf(),
    {
        let root = match resolve_snap_dir(self.snap_dir, snap_dir) {
            Ok(root) => root,
            Err(error) => {
                return (CleanupRun::ended(), Action::Fail(error));
            },
        };
        let keep = match self.keep {
            Some(keep) => Some(keep),
            None => keep_duration,
        };
        match keep {
            None => (CleanupRun::ended(), Action::Fail(Error::RetentionNotSpecified)),
            Some(keep) => (
                CleanupRun {
                    stage: Stage::Scanning,
                    cutoff: cutoff(now, keep),
                    plan: Vec::new(),
                    cursor: 0,
                    cleaned: Vec::new(),
                    failures: Vec::new(),
                },
                Action::Scan { root },
            ),
        }
    }
}

/// What a sweep did.
#[derive(Clone, Debug, PartialEq, Eq)]
pub struct CleanupReport {
    /// The paths that were deleted.
    pub cleaned: Vec<String>,
    /// The deletions that the volume store refused.
    pub failures: Vec<Failure>,
}

/// A sweep in progress.
pub struct CleanupRun {
    stage: Stage,
    cutoff: i128,
    plan: Vec<Entry>,
    cursor: usize,
    cleaned: Vec<String>,
    failures: Vec<Failure>,
}

impl View for CleanupRun {
    type V = CleanupState;

    closed spec fn view(&self) -> CleanupState {
        CleanupState {
            stage: self.stage,
            cutoff: self.cutoff as int,
            plan: self.plan@,
            cursor: self.cursor as int,
            cleaned: self.cleaned@,
            failures: self.failures@,
        }
    }
}

impl CleanupRun {
    #[verifier::type_invariant]
    spec fn inv(self) -> bool {
        self@.wf()
    }

    fn ended() -> (run: CleanupRun)
        ensures
            run@ == CleanupState::ended(),
    {
        CleanupRun {
            stage: Stage::Finished,
            cutoff: 0,
            plan: Vec::new(),
            cursor: 0,
            cleaned: Vec::new(),
            failures: Vec::new(),
        }
    }

    fn seek(
        cutoff: i128,
        plan: Vec<Entry>,
        cursor: usize,
        cleaned: Vec<String>,
        failures: Vec<Failure>,
    ) -> (r: (CleanupRun, Action))
        requires
            cursor <= plan.len(),
            forall|i: int| 0 <= i < plan@.len() ==> is_expired(#[trigger] plan@[i], cutoff as int),
        ensures
            (r.0@, r.1) == (CleanupState {
                stage: Stage::Scanning,
                cutoff: cutoff as int,
                plan: plan@,
                cursor: cursor as int,
                cleaned: cleaned@,
                failures: failures@,
            }).seek(),
    {
        if cursor < plan.len() {
            let path = plan[cursor].path.clone();
            (
                CleanupRun { stage: Stage::Getting, cutoff, plan, cursor, cleaned, failures },
                Action::Get { path },
            )
        } else {
            (
                CleanupRun { stage: Stage::Finished, cutoff, plan, cursor, cleaned, failures },
                Action::Done,
            )
        }
    }

    /// Takes the reply to the action last handed out, and hands out the next.
    ///
    /// A reply that does not answer that action ends the sweep with
    /// `Error::OutOfTurn`, and nothing more is asked for.
    pub fn step(self, reply: Reply) -> (r: (CleanupRun, Action))
        ensures
            (r.0@, r.1) == self@.step(reply),
            r.0@.wf(),
    {
        proof {
            use_type_invariant(&self);
        }
        let CleanupRun { stage, cutoff, plan, cursor, mut cleaned, mut failures } = self;
        let next: usize = if cursor < plan.len() {
            cursor + 1
        } else {
            cursor
        };
        match (stage, reply) {
            (Stage::Scanning, Reply::Entries(walked)) => {
                let found = scan_snapshots(&walked);
                let registry = Registry::build(&found);
                let plan = registry.older_than(cutoff);
                proof {
                    lemma_expired_of_recognized(found@, cutoff as int);
                    assert forall|i: int| 0 <= i < plan@.len() implies is_expired(
                        #[trigger] plan@[i],
                        cutoff as int,
                    ) by {
                        lemma_expired_are_expired(found@, cutoff as int, i);
                    }
                }
                Self::seek(cutoff, plan, 0, cleaned, failures)
            },
            (Stage::Getting, Reply::Found) => {
                let path = plan[cursor].path.clone();
                (
                    CleanupRun { stage: Stage::Deleting, cutoff, plan, cursor, cleaned, failures },
                    Action::Delete { path },
                )
            },
            (Stage::Getting, Reply::NotASnapshot) => {
                Self::seek(cutoff, plan, next, cleaned, failures)
            },
            (Stage::Deleting, Reply::Done) => {
                let path = plan[cursor].path.clone();
                cleaned.push(path);
                Self::seek(cutoff, plan, next, cleaned, failures)
            },
            (Stage::Deleting, Reply::Failed(reason)) => {
                let path = plan[cursor].path.clone();
                failures.push(Failure { path, reason });
                Self::seek(cutoff, plan, next, cleaned, failures)
            },
            _ => (
                CleanupRun { stage: Stage::Finished, cutoff, plan, cursor, cleaned, failures },
                Action::Fail(Error::OutOfTurn),
            ),
        }
    }

    /// What to print when `reply` comes in, before it is taken.
    pub fn notice(&self, reply: &Reply) -> (line: Option<String>)
        ensures
            match line {
                Some(line) => self@.notice(*reply) == Some(line@),
                None => self@.notice(*reply) is None,
            },
    {
        proof {
            use_type_invariant(self);
        }
        match (self.stage, reply) {
            (Stage::Deleting, Reply::Done) => {
                let mut line = String::from_str("Cleaned: ");
                line.append(self.plan[self.cursor].path.as_str());
                Some(line)
            },
            _ => None,
        }
    }

    /// Whether the sweep has ended.
    pub fn is_finished(&self) -> (finished: bool)
        ensures
            finished == (self@.stage is Finished),
    {
        match self.stage {
            Stage::Finished => true,
            _ => false,
        }
    }

    /// What the sweep has done so far.
    pub fn report(self) -> (report: CleanupReport)
        ensures
            report.cleaned@ == self@.cleaned,
            report.failures@ == self@.failures,
    {
        CleanupReport { cleaned: self.cleaned, failures: self.failures }
    }
}

/// A sweep begins with nothing done: either it asks for the scan and waits
/// for it, or it has ended with the reason why it cannot begin.
pub proof fn lemma_sweep_begins_clean(
    cleanup: Cleanup,
    snap_dir: Option<PathProbe>,
    keep_duration: Option<Retention>,
    now: i64,
)
    ensures
        ({
            let (state, action) = cleanup.started(snap_dir, keep_duration, now);
            &&& state.wf()
            &&& state.cleaned.len() == 0
            &&& state.failures.len() == 0
            &&& if action is Scan {
                state.stage is Scanning && state.cutoff == now - cleanup.chosen_keep(
                    keep_duration,
                )->0.seconds
            } else {
                state.stage is Finished && action is Fail
            }
        }),
{
}

/// A step of a sweep leaves it a sweep.
pub proof fn lemma_step_keeps_wf(state: CleanupState, reply: Reply)
    requires
        state.wf(),
    ensures
        state.step(reply).0.wf(),
        !(state.step(reply).0.stage is Scanning),
{
    if let (Stage::Scanning, Reply::Entries(walked)) = (state.stage, reply) {
        let plan = expired(candidates(walked@), state.cutoff);
        assert forall|i: int| 0 <= i < plan.len() implies is_expired(
            #[trigger] plan[i],
            state.cutoff,
        ) by {
            lemma_expired_are_expired(candidates(walked@), state.cutoff, i);
        }
    }
}

/// Whatever replies a sweep takes, it stays a sweep, and its cutoff stays
/// what it was.
pub proof fn lemma_after_keeps_wf(start: CleanupState, replies: Seq<Reply>)
    requires
        start.wf(),
    ensures
        start.after(replies).wf(),
        start.after(replies).cutoff == start.cutoff,
        replies.len() > 0 ==> !(start.after(replies).stage is Scanning),
    decreases replies.len(),
{
    if replies.len() > 0 {
        lemma_after_keeps_wf(start, replies.drop_last());
        lemma_step_keeps_wf(start.after(replies.drop_last()), replies.last());
    }
}

/// A sweep asks for a deletion in one case only: it had asked the volume
/// store for the entry under the cursor, and the volume store has found it.
/// That entry is a snapshot taken strictly before the cutoff.
pub proof fn lemma_delete_follows_found(state: CleanupState, reply: Reply)
    requires
        state.wf(),
        state.step(reply).1 is Delete,
    ensures
        state.stage is Getting,
        reply is Found,
        state.step(reply).1 == (Action::Delete { path: state.plan[state.cursor].path }),
        is_expired(state.plan[state.cursor], state.cutoff),
{
}

/// While a sweep waits for the volume store's word on an entry, or for its
/// deletion, what it asked for on the reply before was that entry.
pub proof fn lemma_get_precedes(state: CleanupState, reply: Reply)
    requires
        state.wf(),
        state.step(reply).0.stage is Getting,
    ensures
        state.step(reply).1 == (Action::Get {
            path: state.step(reply).0.plan[state.step(reply).0.cursor].path,
        }),
{
}

/// A refused deletion does not end a sweep: the refusal is noted, and the
/// sweep turns to the next entry of its plan, or ends well where there is
/// none.
pub proof fn lemma_failure_is_passed_over(state: CleanupState, reason: String)
    requires
        state.wf(),
        state.stage is Deleting,
    ensures
        ({
            let (next, action) = state.step(Reply::Failed(reason));
            &&& next.cursor == state.cursor + 1
            &&& next.plan == state.plan
            &&& next.cleaned == state.cleaned
            &&& next.failures == state.failures.push(
                Failure { path: state.plan[state.cursor].path, reason },
            )
            &&& if next.cursor < next.plan.len() {
                action == (Action::Get { path: next.plan[next.cursor].path })
            } else {
                action is Done
            }
        }),
{
}

/// From its scan on, the plan of a sweep is the scanned candidates that are
/// snapshots taken strictly before the cutoff, and it never changes.
pub proof fn lemma_plan_is_fixed(start: CleanupState, replies: Seq<Reply>)
    requires
        start.wf(),
        start.stage is Scanning,
        replies.len() > 0,
        !(start.after(replies).stage is Finished),
    ensures
        replies[0] is Entries,
        start.after(replies).plan == expired(candidates(replies[0]->Entries_0@), start.cutoff),
    decreases replies.len(),
{
    let earlier = replies.drop_last();
    lemma_after_keeps_wf(start, earlier);
    if earlier.len() > 0 {
        assert(earlier[0] == replies[0]);
        lemma_plan_is_fixed(start, earlier);
    }
}

/// Cleanup never deletes an entry that it ought to keep.
///
/// Take a sweep from its start and hand it any replies at all, in turn or
/// not.  If it then asks for the deletion of a path, that path is the one of
/// a scanned candidate whose name decodes to an instant strictly before the
/// cutoff; the sweep had just asked the volume store for that very path, and
/// the volume store had found it.  So an entry at or after the cutoff, an
/// entry whose name does not decode, and an entry that the volume store does
/// not know are never deleted.
pub proof fn lemma_sweep_deletes_only_expired_snapshots(start: CleanupState, replies: Seq<Reply>)
    requires
        start.wf(),
        start.stage is Scanning,
        replies.len() > 0,
        start.answer(replies) is Delete,
    ensures
        replies.len() >= 2,
        replies[0] is Entries,
        replies.last() is Found,
        start.answer(replies.drop_last()) == (Action::Get {
            path: start.answer(replies)->Delete_path,
        }),
        exists|i: int|
            0 <= i < candidates(replies[0]->Entries_0@).len() && (#[trigger] candidates(
                replies[0]->Entries_0@,
            )[i]).path == start.answer(replies)->Delete_path && is_expired(
                candidates(replies[0]->Entries_0@)[i],
                start.cutoff,
            ),
{
    let earlier = replies.drop_last();
    let state = start.after(earlier);
    lemma_after_keeps_wf(start, earlier);
    lemma_delete_follows_found(state, replies.last());
    assert(earlier.len() > 0);
    assert(earlier[0] == replies[0]);
    lemma_plan_is_fixed(start, earlier);
    lemma_after_keeps_wf(start, earlier.drop_last());
    lemma_get_precedes(start.after(earlier.drop_last()), earlier.last());
    let found = candidates(replies[0]->Entries_0@);
    lemma_expired_are_expired(found, start.cutoff, state.cursor);
    let target = state.plan[state.cursor];
    let i = choose|i: int| 0 <= i < found.len() && found[i] == target;
    assert(found[i].path == start.answer(replies)->Delete_path);
}

impl CleanupState {
    /// Whether the sweep, while it took `replies`, asked the volume store
    /// for `path`.
    pub open spec fn tried(self, replies: Seq<Reply>, path: String) -> bool {
        exists|k: int|
            1 <= k <= replies.len() && #[trigger] self.answer(replies.take(k)) == (Action::Get {
                path,
            })
    }

    /// How far a sweep has come: the plan is settled, and every entry up to
    /// the cursor has been asked for.
    pub open spec fn progress(self, replies: Seq<Reply>, plan: Seq<Entry>) -> bool {
        let state = self.after(replies);
        &&& state.wf()
        &&& state.plan == plan
        &&& !(state.stage is Scanning)
        &&& state.stage is Finished ==> state.cursor == plan.len()
        &&& forall|i: int|
            0 <= i < plan.len() && (i < state.cursor || (i == state.cursor && !(state.stage
                is Finished))) ==> self.tried(replies, (#[trigger] plan[i]).path)
    }
}

proof fn lemma_tried_extends(start: CleanupState, replies: Seq<Reply>, path: String)
    requires
        replies.len() > 0,
        start.tried(replies.drop_last(), path),
    ensures
        start.tried(replies, path),
{
    let earlier = replies.drop_last();
    let k = choose|k: int|
        1 <= k <= earlier.len() && #[trigger] start.answer(earlier.take(k)) == (Action::Get {
            path,
        });
    assert(replies.take(k) =~= earlier.take(k));
}

proof fn lemma_in_turn_earlier(start: CleanupState, replies: Seq<Reply>)
    requires
        replies.len() > 0,
        start.in_turn(replies),
    ensures
        start.in_turn(replies.drop_last()),
        start.after(replies.drop_last()).expects(replies.last()),
{
    let earlier = replies.drop_last();
    assert forall|k: int| 0 <= k < earlier.len() implies (#[trigger] start.after(
        earlier.take(k),
    )).expects(earlier[k]) by {
        assert(replies.take(k) =~= earlier.take(k));
        assert(start.after(replies.take(k)).expects(replies[k]));
    }
    assert(replies.take(replies.len() - 1) =~= earlier);
    assert(start.after(replies.take(replies.len() - 1)).expects(replies[replies.len() - 1]));
}

proof fn lemma_sweep_progress(start: CleanupState, replies: Seq<Reply>)
    requires
        start.wf(),
        start.stage is Scanning,
        replies.len() > 0,
        start.in_turn(replies),
    ensures
        replies[0] is Entries,
        start.progress(replies, expired(candidates(replies[0]->Entries_0@), start.cutoff)),
        !(start.answer(replies) is Fail),
    decreases replies.len(),
{
    let earlier = replies.drop_last();
    let last = replies.last();
    let before = start.after(earlier);
    let state = start.after(replies);
    lemma_in_turn_earlier(start, replies);
    lemma_after_keeps_wf(start, earlier);
    lemma_step_keeps_wf(before, last);
    assert(replies.take(replies.len() as int) =~= replies);
    if earlier.len() == 0 {
        let plan = expired(candidates(replies[0]->Entries_0@), start.cutoff);
        assert(state.plan == plan);
        if plan.len() > 0 {
            assert(start.answer(replies.take(1)) == (Action::Get { path: plan[0].path }));
        }
    } else {
        assert(earlier[0] == replies[0]);
        lemma_sweep_progress(start, earlier);
        let plan = expired(candidates(replies[0]->Entries_0@), start.cutoff);
        assert forall|i: int|
            0 <= i < plan.len() && (i < state.cursor || (i == state.cursor && !(state.stage
                is Finished))) implies start.tried(replies, (#[trigger] plan[i]).path) by {
            if i < before.cursor || (i == before.cursor && !(before.stage is Finished)) {
                lemma_tried_extends(start, replies, plan[i].path);
            } else {
                assert(start.answer(replies.take(replies.len() as int)) == (Action::Get {
                    path: plan[i].path,
                }));
            }
        }
    }
}

/// Cleanup goes on after a deletion fails.
///
/// Take a sweep from its start, and let every reply answer what the sweep
/// had asked; let deletions fail as they may.  The sweep never ends in an
/// error, and once it has ended it has asked the volume store for every
/// scanned candidate that is a snapshot taken strictly before the cutoff:
/// no failure on one entry keeps it from the others.
pub proof fn lemma_sweep_tries_every_expired_snapshot(
    start: CleanupState,
    replies: Seq<Reply>,
    i: int,
)
    requires
        start.wf(),
        start.stage is Scanning,
        replies.len() > 0,
        start.in_turn(replies),
        start.after(replies).stage is Finished,
        0 <= i < expired(candidates(replies[0]->Entries_0@), start.cutoff).len(),
    ensures
        replies[0] is Entries,
        !(start.answer(replies) is Fail),
        start.tried(replies, expired(candidates(replies[0]->Entries_0@), start.cutoff)[i].path),
{
    lemma_sweep_progress(start, replies);
}

/// A sweep whose replies come in turn never ends in an error.
pub proof fn lemma_sweep_never_fails(start: CleanupState, replies: Seq<Reply>)
    requires
        start.wf(),
        start.stage is Scanning,
        replies.len() > 0,
        start.in_turn(replies),
    ensures
        !(start.answer(replies) is Fail),
{
    lemma_sweep_progress(start, replies);
}


/// Whether `cleaned` are the paths of the entries of the plan that `picks`
/// picks, in the order of the plan.
pub open spec fn cleaned_follow(plan: Seq<Entry>, picks: Seq<int>, cleaned: Seq<String>) -> bool {
    &&& picks.len() == cleaned.len()
    &&& forall|j: int|
        0 <= j < picks.len() ==> 0 <= #[trigger] picks[j] < plan.len() && cleaned[j]
            == plan[picks[j]].path
    &&& forall|j: int, k: int| 0 <= j < k < picks.len() ==> picks[j] < picks[k]
}

/// What a sweep reports as cleaned follows the order of the scan: each path
/// is the one of an entry of the plan, which is a snapshot taken strictly
/// before the cutoff; none is reported twice, and an entry scanned earlier
/// is reported earlier.
pub proof fn lemma_cleaned_follow_the_plan(start: CleanupState, replies: Seq<Reply>) -> (picks:
    Seq<int>)
    requires
        start.wf(),
        start.stage is Scanning,
        start.cleaned.len() == 0,
    ensures
        start.after(replies).wf(),
        start.after(replies).stage is Scanning ==> start.after(replies).cleaned.len() == 0,
        cleaned_follow(start.after(replies).plan, picks, start.after(replies).cleaned),
        forall|j: int| 0 <= j < picks.len() ==> picks[j] < start.after(replies).cursor,
    decreases replies.len(),
{
    if replies.len() == 0 {
        Seq::empty()
    } else {
        let earlier = lemma_cleaned_follow_the_plan(start, replies.drop_last());
        let before = start.after(replies.drop_last());
        let end = start.after(replies);
        lemma_step_keeps_wf(before, replies.last());
        if before.stage is Deleting && replies.last() is Done {
            let picks = earlier.push(before.cursor);
            assert forall|j: int| 0 <= j < picks.len() implies 0 <= #[trigger] picks[j]
                < end.plan.len() && end.cleaned[j] == end.plan[picks[j]].path by {
                if j < earlier.len() {
                    assert(picks[j] == earlier[j]);
                }
            }
            assert forall|j: int, k: int| 0 <= j < k < picks.len() implies picks[j]
                < picks[k] by {
                if k < earlier.len() {
                    assert(picks[j] == earlier[j] && picks[k] == earlier[k]);
                } else {
                    assert(picks[j] == earlier[j]);
                }
            }
            picks
        } else {
            earlier
        }
    }
}

} // verus!
