//! Delete: the explicit removal of named snapshots.
//!
//! Each target is resolved through the volume store and then deleted, in the
//! order given.  An operator has named these snapshots one by one, so the
//! first thing that goes wrong stops the operation: what was deleted stays
//! deleted, what was still to come is left alone, and the error says which
//! path it was.  A deletion with no targets is refused outright; it never
//! means "delete everything".

use crate::error::Error;
use crate::store::{Action, Reply};
use vstd::prelude::*;
use vstd::string::*;

verus! {

/// A request to delete snapshots.
#[derive(Clone, Debug, PartialEq, Eq)]
pub struct Delete {
    /// The paths of the snapshots to delete.
    pub snapshot: Vec<String>,
}

/// Where a deletion stands.
#[derive(Clone, Copy, Debug, PartialEq, Eq)]
pub enum Stage {
    /// The volume store's word on the target under the cursor is awaited.
    Getting,
    /// The deletion of the target under the cursor is awaited.
    Deleting,
    /// The operation has ended.
    Finished,
}

/// A deletion, as the laws below speak of it.
pub struct DeleteState {
    pub stage: Stage,
    /// The paths to delete, in the order given.
    pub targets: Seq<String>,
    /// How many targets are dealt with.
    pub cursor: int,
    /// The paths deleted so far.
    pub deleted: Seq<String>,
}

impl DeleteState {
    /// What holds of every deletion: the cursor is within the targets, and
    /// an awaited reply is about one of them.
    pub open spec fn wf(self) -> bool {
        &&& 0 <= self.cursor <= self.targets.len()
        &&& !(self.stage is Finished) ==> self.cursor < self.targets.len()
    }

    /// The deletion, stopped where it stands.
    pub open spec fn halted(self) -> DeleteState {
        DeleteState { stage: Stage::Finished, ..self }
    }

    /// Turns to the target under the cursor: asks the volume store for it,
    /// or ends the operation where no target is left.
    pub open spec fn seek(self) -> (DeleteState, Action) {
        if 0 <= self.cursor < self.targets.len() {
            (
                DeleteState { stage: Stage::Getting, ..self },
                Action::Get { path: self.targets[self.cursor] },
            )
        } else {
            (self.halted(), Action::Done)
        }
    }

    /// What the deletion makes of a reply: the state it is in afterwards,
    /// and what it asks for next.
    pub open spec fn step(self, reply: Reply) -> (DeleteState, Action) {
        match (self.stage, reply) {
            (Stage::Getting, Reply::Found) => (
                DeleteState { stage: Stage::Deleting, ..self },
                Action::Delete { path: self.targets[self.cursor] },
            ),
            (Stage::Getting, Reply::NotASnapshot) => (
                self.halted(),
                Action::Fail(Error::NotASubvolume { path: self.targets[self.cursor] }),
            ),
            (Stage::Deleting, Reply::Done) => DeleteState {
                cursor: self.cursor + 1,
                deleted: self.deleted.push(self.targets[self.cursor]),
                ..self
            }.seek(),
            (Stage::Deleting, Reply::Failed(reason)) => (
                self.halted(),
                Action::Fail(Error::DeleteFailed { path: self.targets[self.cursor], reason }),
            ),
            _ => (self.halted(), Action::Fail(Error::OutOfTurn)),
        }
    }

    /// What is to be printed when `reply` comes in: a line for every
    /// snapshot deleted.
    pub open spec fn notice(self, reply: Reply) -> Option<Seq<char>> {
        match (self.stage, reply) {
            (Stage::Deleting, Reply::Done) => Some("Deleted: "@ + self.targets[self.cursor]@),
            _ => None,
        }
    }

    /// The deletion after it has taken `replies` one by one.
    pub open spec fn after(self, replies: Seq<Reply>) -> DeleteState
        decreases replies.len(),
    {
        if replies.len() == 0 {
            self
        } else {
            self.after(replies.drop_last()).step(replies.last()).0
        }
    }

    /// What the deletion asks for on the last of `replies`, having taken the
    /// ones before.
    pub open spec fn answer(self, replies: Seq<Reply>) -> Action {
        self.after(replies.drop_last()).step(replies.last()).1
    }
}

impl Delete {
    /// How a deletion begins: with the first target, or with the refusal of
    /// an empty set.
    pub open spec fn started(self) -> (DeleteState, Action) {
        let fresh = DeleteState {
            stage: Stage::Finished,
            targets: self.snapshot@,
            cursor: 0,
            deleted: Seq::empty(),
        };
        if self.snapshot@.len() == 0 {
            (fresh, Action::Fail(Error::NoTargets))
        } else {
            fresh.seek()
        }
    }

    /// Begins the deletion of the named snapshots.
    ///
    /// With no snapshot named, the operation ends at once with
    /// `Error::NoTargets`, before anything is asked of the volume store.
    pub fn execute(self) -> (r: (DeleteRun, Action))
        ensures
            (r.0@, r.1) == self.started(),
            r.0@.wf(),
            self.snapshot@.len() == 0 ==> r.1 == Action::Fail(Error::NoTargets),
    {
        let targets = self.snapshot;
        if targets.len() == 0 {
            (
                DeleteRun { stage: Stage::Finished, targets, cursor: 0, deleted: Vec::new() },
                Action::Fail(Error::NoTargets),
            )
        } else {
            DeleteRun::seek(targets, 0, Vec::new())
        }
    }
}

/// A deletion in progress.
pub struct DeleteRun {
    stage: Stage,
    targets: Vec<String>,
    cursor: usize,
    deleted: Vec<String>,
}

impl View for DeleteRun {
    type V = DeleteState;

    closed spec fn view(&self) -> DeleteState {
        DeleteState {
            stage: self.stage,
            targets: self.targets@,
            cursor: self.cursor as int,
            deleted: self.deleted@,
        }
    }
}

impl DeleteRun {
    #[verifier::type_invariant]
    spec fn inv(self) -> bool {
        self@.wf()
    }

    fn seek(targets: Vec<String>, cursor: usize, deleted: Vec<String>) -> (r: (DeleteRun, Action))
        requires
            cursor <= targets.len(),
        ensures
            (r.0@, r.1) == (DeleteState {
                stage: Stage::Finished,
                targets: targets@,
                cursor: cursor as int,
                deleted: deleted@,
            }).seek(),
            r.0@.wf(),
    {
        if cursor < targets.len() {
            let path = targets[cursor].clone();
            (DeleteRun { stage: Stage::Getting, targets, cursor, deleted }, Action::Get { path })
        } else {
            (DeleteRun { stage: Stage::Finished, targets, cursor, deleted }, Action::Done)
        }
    }

    /// Takes the reply to the action last handed out, and hands out the next.
    ///
    /// A reply that does not answer that action ends the operation with
    /// `Error::OutOfTurn`, and nothing more is asked for.
    pub fn step(self, reply: Reply) -> (r: (DeleteRun, Action))
        ensures
            (r.0@, r.1) == self@.step(reply),
            r.0@.wf(),
    {
        proof {
            use_type_invariant(&self);
        }
        let DeleteRun { stage, targets, cursor, mut deleted } = self;
        let next: usize = if cursor < targets.len() {
            cursor + 1
        } else {
            cursor
        };
        match (stage, reply) {
            (Stage::Getting, Reply::Found) => {
                let path = targets[cursor].clone();
                (
                    DeleteRun { stage: Stage::Deleting, targets, cursor, deleted },
                    Action::Delete { path },
                )
            },
            (Stage::Getting, Reply::NotASnapshot) => {
                let path = targets[cursor].clone();
                (
                    DeleteRun { stage: Stage::Finished, targets, cursor, deleted },
                    Action::Fail(Error::NotASubvolume { path }),
                )
            },
            (Stage::Deleting, Reply::Done) => {
                let path = targets[cursor].clone();
                deleted.push(path);
                Self::seek(targets, next, deleted)
            },
            (Stage::Deleting, Reply::Failed(reason)) => {
                let path = targets[cursor].clone();
                (
                    DeleteRun { stage: Stage::Finished, targets, cursor, deleted },
                    Action::Fail(Error::DeleteFailed { path, reason }),
                )
            },
            _ => (
                DeleteRun { stage: Stage::Finished, targets, cursor, deleted },
                Action::Fail(Error::OutOfTurn),
            ),
        }
    }

    /// What to print when `reply` comes in, before it is taken.
    pub fn notice(&self, reply: &Reply) -> (line: Option<String>)
        ensures
            match line {
                Some(line) => self@.notice(*reply) == Some(line@),
                None => self@.notice(*reply) is None,
            },
    {
        proof {
            use_type_invariant(self);
        }
        match (self.stage, reply) {
            (Stage::Deleting, Reply::Done) => {
                let mut line = String::from_str("Deleted: ");
                line.append(self.targets[self.cursor].as_str());
                Some(line)
            },
            _ => None,
        }
    }

    /// Whether the operation has ended.
    pub fn is_finished(&self) -> (finished: bool)
        ensures
            finished == (self@.stage is Finished),
    {
        match self.stage {
            Stage::Finished => true,
            _ => false,
        }
    }

    /// The paths deleted so far.
    pub fn report(self) -> (deleted: Vec<String>)
        ensures
            deleted@ == self@.deleted,
    {
        self.deleted
    }
}

/// A deletion begins with nothing deleted: either it asks the volume store
/// for the first target, or it has ended because there is none.
pub proof fn lemma_deletion_begins_clean(delete: Delete)
    ensures
        ({
            let (state, action) = delete.started();
            &&& state.wf()
            &&& state.targets == delete.snapshot@
            &&& state.cursor == 0
            &&& state.deleted.len() == 0
            &&& if delete.snapshot@.len() > 0 {
                state.stage is Getting && action == (Action::Get { path: delete.snapshot@[0] })
            } else {
                state.stage is Finished && action == Action::Fail(Error::NoTargets)
            }
        }),
{
}

/// A step of a deletion leaves it a deletion, and never changes what was
/// to be deleted.
pub proof fn lemma_step_keeps_wf(state: DeleteState, reply: Reply)
    requires
        state.wf(),
    ensures
        state.step(reply).0.wf(),
        state.step(reply).0.targets == state.targets,
{
}

/// Whatever replies a deletion takes, it stays a deletion of the same
/// targets.
pub proof fn lemma_after_keeps_wf(start: DeleteState, replies: Seq<Reply>)
    requires
        start.wf(),
    ensures
        start.after(replies).wf(),
        start.after(replies).targets == start.targets,
    decreases replies.len(),
{
    if replies.len() > 0 {
        lemma_after_keeps_wf(start, replies.drop_last());
        lemma_step_keeps_wf(start.after(replies.drop_last()), replies.last());
    }
}

/// Once a deletion has ended it stays ended: whatever comes in, it asks for
/// nothing and says so.
pub proof fn lemma_ended_stays_ended(start: DeleteState, replies: Seq<Reply>)
    requires
        start.stage is Finished,
        replies.len() > 0,
    ensures
        start.after(replies).stage is Finished,
        start.after(replies).deleted == start.deleted,
        start.answer(replies) == Action::Fail(Error::OutOfTurn),
    decreases replies.len(),
{
    if replies.len() > 1 {
        lemma_ended_stays_ended(start, replies.drop_last());
    }
}

/// A deletion with an empty target set fails fast: it ends at once with
/// `Error::NoTargets`, and whatever is handed to it afterwards, it never
/// asks anything of the volume store.
pub proof fn lemma_no_targets_no_calls(delete: Delete, replies: Seq<Reply>)
    requires
        delete.snapshot@.len() == 0,
    ensures
        delete.started().1 == Action::Fail(Error::NoTargets),
        !delete.started().1.is_store_call(),
        replies.len() > 0 ==> !delete.started().0.answer(replies).is_store_call(),
{
    if replies.len() > 0 {
        lemma_ended_stays_ended(delete.started().0, replies);
    }
}

/// A deletion asks the volume store to delete named targets only, each only
/// after the volume store has found it.
pub proof fn lemma_deletes_only_targets(start: DeleteState, replies: Seq<Reply>)
    requires
        start.wf(),
        replies.len() > 0,
        start.answer(replies) is Delete,
    ensures
        replies.last() is Found,
        start.targets.contains(start.answer(replies)->Delete_path),
{
    let state = start.after(replies.drop_last());
    lemma_after_keeps_wf(start, replies.drop_last());
    assert(state.targets[state.cursor] == start.answer(replies)->Delete_path);
}

/// The first failure aborts what remains: after a target that the volume
/// store does not know, or a deletion that it refuses, the operation has
/// ended with the error that names the path.
pub proof fn lemma_failure_is_fatal(state: DeleteState, reply: Reply)
    requires
        state.wf(),
        (state.stage is Getting && reply is NotASnapshot) || (state.stage is Deleting && reply
            is Failed),
    ensures
        state.step(reply).0.stage is Finished,
        state.step(reply).0.deleted == state.deleted,
        state.stage is Getting ==> state.step(reply).1 == Action::Fail(
            Error::NotASubvolume { path: state.targets[state.cursor] },
        ),
        state.stage is Deleting ==> state.step(reply).1 == Action::Fail(
            Error::DeleteFailed {
                path: state.targets[state.cursor],
                reason: reply->Failed_0,
            },
        ),
{
}


/// What a deletion has deleted is what came first among its targets, in
/// their order: it never skips a target, and never deletes one it was not
/// given.  When it stops at a failure, the targets from the cursor on are
/// untouched.
pub proof fn lemma_deleted_come_first(delete: Delete, replies: Seq<Reply>)
    ensures
        ({
            let end = delete.started().0.after(replies);
            &&& end.wf()
            &&& end.targets == delete.snapshot@
            &&& end.deleted == end.targets.take(end.cursor)
        }),
    decreases replies.len(),
{
    let start = delete.started().0;
    assert(start.deleted =~= start.targets.take(0));
    if replies.len() > 0 {
        lemma_deleted_come_first(delete, replies.drop_last());
        let end = start.after(replies);
        assert(end.deleted =~= end.targets.take(end.cursor));
    }
}

} // verus!
