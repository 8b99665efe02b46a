//! The four operations under one roof.

use crate::cleanup::{Cleanup, CleanupRun, CleanupState};
use crate::create::{Create, CreateRun, CreateState};
use crate::delete::{Delete, DeleteRun, DeleteState};
use crate::list::{List, ListRun, ListState};
use crate::retention::Retention;
use crate::store::{Action, Reply};
use crate::utils::PathProbe;
use vstd::prelude::*;

verus! {

/// What an invocation asks for.
#[derive(Clone, Debug, PartialEq, Eq)]
pub enum Commands {
    /// Create a snapshot of the given subvolumes.
    Create(Create),
    /// Delete specific snapshots.
    Delete(Delete),
    /// List snapshots with what the volume store knows of them.
    List(List),
    /// Delete the snapshots older than a duration.
    Cleanup(Cleanup),
}

/// An operation in progress.
pub enum Operation {
    Create(CreateRun),
    Delete(DeleteRun),
    List(ListRun),
    Cleanup(CleanupRun),
}

/// An operation in progress, as its own laws speak of it.
pub enum OperationState {
    Create(CreateState),
    Delete(DeleteState),
    List(ListState),
    Cleanup(CleanupState),
}

impl View for Operation {
    type V = OperationState;

    open spec fn view(&self) -> OperationState {
        match self {
            Operation::Create(run) => OperationState::Create(run@),
            Operation::Delete(run) => OperationState::Delete(run@),
            Operation::List(run) => OperationState::List(run@),
            Operation::Cleanup(run) => OperationState::Cleanup(run@),
        }
    }
}

impl OperationState {
    /// What the operation makes of a reply: what the operation that it is
    /// makes of it.
    pub open spec fn step(self, reply: Reply) -> (OperationState, Action) {
        match self {
            OperationState::Create(state) => (
                OperationState::Create(state.step(reply).0),
                state.step(reply).1,
            ),
            OperationState::Delete(state) => (
                OperationState::Delete(state.step(reply).0),
                state.step(reply).1,
            ),
            OperationState::List(state) => (
                OperationState::List(state.step(reply).0),
                state.step(reply).1,
            ),
            OperationState::Cleanup(state) => (
                OperationState::Cleanup(state.step(reply).0),
                state.step(reply).1,
            ),
        }
    }

    /// What is to be printed when `reply` comes in.
    pub open spec fn notice(self, reply: Reply) -> Option<Seq<char>> {
        match self {
            OperationState::Create(state) => state.notice(reply),
            OperationState::Delete(state) => state.notice(reply),
            OperationState::List(state) => state.notice(reply),
            OperationState::Cleanup(state) => state.notice(reply),
        }
    }
}

impl Commands {
    /// Whether `state` and `action` are how the command begins at `now`,
    /// with the configuration's defaults as given: how the operation that it
    /// asks for begins.
    pub open spec fn begins(
        self,
        snap_dir: Option<PathProbe>,
        subvols: Vec<String>,
        keep: Option<Retention>,
        now: i64,
        state: OperationState,
        action: Action,
    ) -> bool {
        match self {
            Commands::Create(create) => state matches OperationState::Create(state)
                && create.begins(snap_dir, subvols, now, state, action),
            Commands::Delete(delete) => state matches OperationState::Delete(state) && (
            state,
            action,
            ) == delete.started(),
            Commands::List(list) => state matches OperationState::List(state) && (state, action)
                == list.started(snap_dir),
            Commands::Cleanup(cleanup) => state matches OperationState::Cleanup(state) && (
            state,
            action,
            ) == cleanup.started(snap_dir, keep, now),
        }
    }

    /// Begins the operation that the command asks for, and hands out its
    /// first action.
    ///
    /// `snap_dir`, `subvols` and `keep` are the configuration's defaults.
    /// Each operation takes the ones it has a use for, and whatever the
    /// invocation itself names takes precedence over them.
    pub fn execute(
        self,
        snap_dir: Option<PathProbe>,
        subvols: Vec<String>,
        keep: Option<Retention>,
    ) -> (r: (Operation, Action))
        ensures
            exists|now: i64| #[trigger] self.begins(snap_dir, subvols, keep, now, r.0@, r.1),
    {
        match self {
            Commands::Create(create) => {
                let (run, action) = create.execute(snap_dir, subvols);
                let ghost now = choose|now: i64| #[trigger]
                    create.begins(snap_dir, subvols, now, run@, action);
                let r = (Operation::Create(run), action);
                assert(self.begins(snap_dir, subvols, keep, now, r.0@, r.1));
                r
            },
            Commands::Delete(delete) => {
                let (run, action) = delete.execute();
                let r = (Operation::Delete(run), action);
                assert(self.begins(snap_dir, subvols, keep, 0, r.0@, r.1));
                r
            },
            Commands::List(list) => {
                let (run, action) = list.execute(snap_dir);
                let r = (Operation::List(run), action);
                assert(self.begins(snap_dir, subvols, keep, 0, r.0@, r.1));
                r
            },
            Commands::Cleanup(cleanup) => {
                let (run, action) = cleanup.execute(snap_dir, keep);
                let ghost now = choose|now: i64|
                    (run@, action) == #[trigger] cleanup.started(snap_dir, keep, now);
                let r = (Operation::Cleanup(run), action);
                assert(self.begins(snap_dir, subvols, keep, now, r.0@, r.1));
                r
            },
        }
    }
}

impl Operation {
    /// Takes the reply to the action last handed out, and hands out the next.
    pub fn step(self, reply: Reply) -> (r: (Operation, Action))
        ensures
            (r.0@, r.1) == self@.step(reply),
    {
        match self {
            Operation::Create(run) => {
                let (run, action) = run.step(reply);
                (Operation::Create(run), action)
            },
            Operation::Delete(run) => {
                let (run, action) = run.step(reply);
                (Operation::Delete(run), action)
            },
            Operation::List(run) => {
                let (run, action) = run.step(reply);
                (Operation::List(run), action)
            },
            Operation::Cleanup(run) => {
                let (run, action) = run.step(reply);
                (Operation::Cleanup(run), action)
            },
        }
    }

    /// What to print when `reply` comes in, before it is taken.
    pub fn notice(&self, reply: &Reply) -> (line: Option<String>)
        ensures
            match line {
                Some(line) => self@.notice(*reply) == Some(line@),
                None => self@.notice(*reply) is None,
            },
    {
        match self {
            Operation::Create(run) => run.notice(reply),
            Operation::Delete(run) => run.notice(reply),
            Operation::List(run) => run.notice(reply),
            Operation::Cleanup(run) => run.notice(reply),
        }
    }
}

} // verus!
