//! List: what the volume store knows of the snapshots under a root.
//!
//! The root is scanned once.  Each candidate is resolved through the volume
//! store; one that the volume store does not know is passed over in
//! silence, and for each of the others the volume store is asked for its
//! generation and the transaction it came from.  Listing changes nothing on
//! disk.

use crate::codec::{decimal_text, push_decimal};
use crate::error::Error;
use crate::store::{Action, Reply, SubvolumeInfo};
use crate::utils::{candidates, chosen_snap_dir, scan_snapshots, Entry, PathProbe};
use vstd::prelude::*;
use vstd::string::*;

verus! {

/// A request to list the snapshots under a root.
#[derive(Clone, Debug, PartialEq, Eq)]
pub struct List {
    /// The snapshot directory, where the invocation names one.
    pub snap_dir: Option<PathProbe>,
}

/// One listed snapshot.
#[derive(Clone, Debug, PartialEq, Eq)]
pub struct Record {
    pub path: String,
    /// The snapshot's generation counter.
    pub generation: u64,
    /// The transaction in which the snapshot came to be.
    pub otransid: u64,
}

impl Record {
    /// The line that lists the record.
    pub open spec fn text(self) -> Seq<char> {
        self.path@ + ": gen="@ + decimal_text(self.generation as nat) + ", otime="@ + decimal_text(
            self.otransid as nat,
        )
    }

    /// The line that lists the record.
    pub fn line(&self) -> (line: String)
        ensures
            line@ == self.text(),
    {
        let mut line = self.path.clone();
        line.append(": gen=");
        push_decimal(&mut line, self.generation);
        line.append(", otime=");
        push_decimal(&mut line, self.otransid);
        line
    }
}

/// Where a listing stands.
#[derive(Clone, Copy, Debug, PartialEq, Eq)]
pub enum Stage {
    /// The scan of the root is awaited.
    Scanning,
    /// The volume store's word on the candidate under the cursor is awaited.
    Getting,
    /// What the volume store knows of the candidate under the cursor is
    /// awaited.
    Inspecting,
    /// The operation has ended.
    Finished,
}

/// A listing, as the laws below speak of it.
pub struct ListState {
    pub stage: Stage,
    /// The candidates to look at, in the order of the scan.
    pub candidates: Seq<Entry>,
    /// How many candidates are dealt with.
    pub cursor: int,
    /// The records made so far.
    pub records: Seq<Record>,
}

impl ListState {
    /// What holds of every listing: the cursor is within the candidates, and
    /// an awaited reply is about one of them.
    pub open spec fn wf(self) -> bool {
        &&& 0 <= self.cursor <= self.candidates.len()
        &&& (self.stage is Getting || self.stage is Inspecting) ==> self.cursor
            < self.candidates.len()
    }

    /// A listing that has not been handed its scan.
    pub open spec fn fresh(stage: Stage) -> ListState {
        ListState { stage, candidates: Seq::empty(), cursor: 0, records: Seq::empty() }
    }

    /// The listing, stopped where it stands.
    pub open spec fn halted(self) -> ListState {
        ListState { stage: Stage::Finished, ..self }
    }

    /// Turns to the candidate under the cursor: asks the volume store for
    /// it, or ends the operation where no candidate is left.
    pub open spec fn seek(self) -> (ListState, Action) {
        if 0 <= self.cursor < self.candidates.len() {
            (
                ListState { stage: Stage::Getting, ..self },
                Action::Get { path: self.candidates[self.cursor].path },
            )
        } else {
            (self.halted(), Action::Done)
        }
    }

    /// The listing with the candidate under the cursor behind it.
    pub open spec fn passed(self) -> ListState {
        ListState { cursor: self.cursor + 1, ..self }
    }

    /// The record of the candidate under the cursor.
    pub open spec fn record(self, info: SubvolumeInfo) -> Record {
        Record {
            path: self.candidates[self.cursor].path,
            generation: info.generation,
            otransid: info.otransid,
        }
    }

    /// What the listing makes of a reply: the state it is in afterwards, and
    /// what it asks for next.
    pub open spec fn step(self, reply: Reply) -> (ListState, Action) {
        match (self.stage, reply) {
            (Stage::Scanning, Reply::Entries(walked)) => ListState {
                candidates: candidates(walked@),
                cursor: 0,
                ..self
            }.seek(),
            (Stage::Getting, Reply::Found) => (
                ListState { stage: Stage::Inspecting, ..self },
                Action::Info { path: self.candidates[self.cursor].path },
            ),
            (Stage::Getting, Reply::NotASnapshot) => self.passed().seek(),
            (Stage::Inspecting, Reply::Info(info)) => ListState {
                records: self.records.push(self.record(info)),
                ..self
            }.passed().seek(),
            (Stage::Inspecting, Reply::Failed(reason)) => (
                self.halted(),
                Action::Fail(
                    Error::InfoFailed { path: self.candidates[self.cursor].path, reason },
                ),
            ),
            _ => (self.halted(), Action::Fail(Error::OutOfTurn)),
        }
    }

    /// What is to be printed when `reply` comes in: a line for every record
    /// made.
    pub open spec fn notice(self, reply: Reply) -> Option<Seq<char>> {
        match (self.stage, reply) {
            (Stage::Inspecting, Reply::Info(info)) => Some(self.record(info).text()),
            _ => None,
        }
    }

    /// The listing after it has taken `replies` one by one.
    pub open spec fn after(self, replies: Seq<Reply>) -> ListState
        decreases replies.len(),
    {
        if replies.len() == 0 {
            self
        } else {
            self.after(replies.drop_last()).step(replies.last()).0
        }
    }

    /// What the listing asks for on the last of `replies`, having taken the
    /// ones before.
    pub open spec fn answer(self, replies: Seq<Reply>) -> Action {
        self.after(replies.drop_last()).step(replies.last()).1
    }
}

impl List {
    /// How a listing begins: with a scan of the root, or with the reason
    /// why there will be none.  The root is the directory that the
    /// invocation names, else the configuration's; it must exist and be a
    /// directory.
    pub open spec fn started(self, snap_dir: Option<PathProbe>) -> (ListState, Action) {
        match chosen_snap_dir(self.snap_dir, snap_dir) {
            None => (ListState::fresh(Stage::Finished), Action::Fail(Error::SnapDirNotSpecified)),
            Some(probe) => if !probe.is_root() {
                (
                    ListState::fresh(Stage::Finished),
                    Action::Fail(Error::RootNotFound { path: probe.path }),
                )
            } else {
                (ListState::fresh(Stage::Scanning), Action::Scan { root: probe.path })
            },
        }
    }

    /// Begins the listing.  `snap_dir` is the configuration's default; what
    /// the invocation itself names takes precedence.
    pub fn execute(self, snap_dir: Option<PathProbe>) -> (r: (ListRun, Action))
        ensures
            (r.0@, r.1) == self.started(snap_dir),
            r.0@.wf(),
    {
        let chosen = match self.snap_dir {
            Some(probe) => Some(probe),
            None => snap_dir,
        };
        match chosen {
            None => (ListRun::fresh(Stage::Finished), Action::Fail(Error::SnapDirNotSpecified)),
            Some(probe) => {
                if !(probe.exists && probe.is_dir) {
                    (
                        ListRun::fresh(Stage::Finished),
                        Action::Fail(Error::RootNotFound { path: probe.path }),
                    )
                } else {
                    (ListRun::fresh(Stage::Scanning), Action::Scan { root: probe.path })
                }
            },
        }
    }
}

/// A listing in progress.
pub struct ListRun {
    stage: Stage,
    candidates: Vec<Entry>,
    cursor: usize,
    records: Vec<Record>,
}

impl View for ListRun {
    type V = ListState;

    closed spec fn view(&self) -> ListState {
        ListState {
            stage: self.stage,
            candidates: self.candidates@,
            cursor: self.cursor as int,
            records: self.records@,
        }
    }
}

impl ListRun {
    #[verifier::type_invariant]
    spec fn inv(self) -> bool {
        self@.wf()
    }

    fn fresh(stage: Stage) -> (run: ListRun)
        requires
            stage is Scanning || stage is Finished,
        ensures
            run@ == ListState::fresh(stage),
            run@.wf(),
    {
        ListRun { stage, candidates: Vec::new(), cursor: 0, records: Vec::new() }
    }

    fn seek(candidates: Vec<Entry>, cursor: usize, records: Vec<Record>) -> (r: (ListRun, Action))
        requires
            cursor <= candidates.len(),
        ensures
            (r.0@, r.1) == (ListState {
                stage: Stage::Finished,
                candidates: candidates@,
                cursor: cursor as int,
                records: records@,
            }).seek(),
            r.0@.wf(),
    {
        if cursor < candidates.len() {
            let path = candidates[cursor].path.clone();
            (
                ListRun { stage: Stage::Getting, candidates, cursor, records },
                Action::Get { path },
            )
        } else {
            (ListRun { stage: Stage::Finished, candidates, cursor, records }, Action::Done)
        }
    }

    /// Takes the reply to the action last handed out, and hands out the next.
    ///
    /// A reply that does not answer that action ends the operation with
    /// `Error::OutOfTurn`, and nothing more is asked for.
    pub fn step(self, reply: Reply) -> (r: (ListRun, Action))
        ensures
            (r.0@, r.1) == self@.step(reply),
            r.0@.wf(),
    {
        proof {
            use_type_invariant(&self);
        }
        let ListRun { stage, candidates, cursor, mut records } = self;
        let next: usize = if cursor < candidates.len() {
            cursor + 1
        } else {
            cursor
        };
        match (stage, reply) {
            (Stage::Scanning, Reply::Entries(walked)) => {
                let found = scan_snapshots(&walked);
                Self::seek(found, 0, records)
            },
            (Stage::Getting, Reply::Found) => {
                let path = candidates[cursor].path.clone();
                (
                    ListRun { stage: Stage::Inspecting, candidates, cursor, records },
                    Action::Info { path },
                )
            },
            (Stage::Getting, Reply::NotASnapshot) => Self::seek(candidates, next, records),
            (Stage::Inspecting, Reply::Info(info)) => {
                let path = candidates[cursor].path.clone();
                records.push(
                    Record { path, generation: info.generation, otransid: info.otransid },
                );
                Self::seek(candidates, next, records)
            },
            (Stage::Inspecting, Reply::Failed(reason)) => {
                let path = candidates[cursor].path.clone();
                (
                    ListRun { stage: Stage::Finished, candidates, cursor, records },
                    Action::Fail(Error::InfoFailed { path, reason }),
                )
            },
            _ => (
                ListRun { stage: Stage::Finished, candidates, cursor, records },
                Action::Fail(Error::OutOfTurn),
            ),
        }
    }

    /// What to print when `reply` comes in, before it is taken.
    pub fn notice(&self, reply: &Reply) -> (line: Option<String>)
        ensures
            match line {
                Some(line) => self@.notice(*reply) == Some(line@),
                None => self@.notice(*reply) is None,
            },
    {
        proof {
            use_type_invariant(self);
        }
        match (self.stage, reply) {
            (Stage::Inspecting, Reply::Info(info)) => {
                let record = Record {
                    path: self.candidates[self.cursor].path.clone(),
                    generation: info.generation,
                    otransid: info.otransid,
                };
                Some(record.line())
            },
            _ => None,
        }
    }

    /// Whether the operation has ended.
    pub fn is_finished(&self) -> (finished: bool)
        ensures
            finished == (self@.stage is Finished),
    {
        match self.stage {
            Stage::Finished => true,
            _ => false,
        }
    }

    /// The records made so far, in the order of the scan.
    pub fn report(self) -> (records: Vec<Record>)
        ensures
            records@ == self@.records,
    {
        self.records
    }
}

/// A listing begins with nothing recorded: either it asks for the scan and
/// waits for it, or it has ended with the reason why it cannot begin.
pub proof fn lemma_listing_begins_clean(list: List, snap_dir: Option<PathProbe>)
    ensures
        ({
            let (state, action) = list.started(snap_dir);
            &&& state.wf()
            &&& state.records.len() == 0
            &&& if action is Scan {
                state.stage is Scanning
            } else {
                state.stage is Finished && action is Fail
            }
        }),
{
}

/// A step of a listing leaves it a listing.
pub proof fn lemma_step_keeps_wf(state: ListState, reply: Reply)
    requires
        state.wf(),
    ensures
        state.step(reply).0.wf(),
{
}

/// Whatever replies a listing takes, it stays a listing.
pub proof fn lemma_after_keeps_wf(start: ListState, replies: Seq<Reply>)
    requires
        start.wf(),
    ensures
        start.after(replies).wf(),
    decreases replies.len(),
{
    if replies.len() > 0 {
        lemma_after_keeps_wf(start, replies.drop_last());
        lemma_step_keeps_wf(start.after(replies.drop_last()), replies.last());
    }
}

/// Listing never mutates: whatever replies it takes, a listing asks for
/// nothing that changes anything on disk.
pub proof fn lemma_listing_never_mutates(start: ListState, replies: Seq<Reply>)
    requires
        replies.len() > 0,
    ensures
        !start.answer(replies).mutates(),
{
}

/// A listing makes a record in one case only: the volume store had found
/// the candidate under the cursor, and now says what it knows of it.  The
/// record carries that candidate's path, and the generation and transaction
/// that the volume store gave.  A candidate that the volume store does not
/// know gets no record, and the listing goes on with the next.
pub proof fn lemma_records_what_the_store_knows(state: ListState, reply: Reply)
    requires
        state.wf(),
    ensures
        ({
            let next = state.step(reply).0;
            if state.stage is Inspecting && reply is Info {
                next.records == state.records.push(
                    Record {
                        path: state.candidates[state.cursor].path,
                        generation: reply->Info_0.generation,
                        otransid: reply->Info_0.otransid,
                    },
                )
            } else {
                next.records == state.records
            }
        }),
        state.stage is Getting && reply is NotASnapshot ==> state.step(reply)
            == state.passed().seek(),
        state.step(reply).1 is Info ==> state.stage is Getting && reply is Found,
{
}


/// Whether `records` are the records of the candidates that `picks` picks,
/// in the order of the scan.
pub open spec fn records_follow(
    candidates: Seq<Entry>,
    picks: Seq<int>,
    records: Seq<Record>,
) -> bool {
    &&& picks.len() == records.len()
    &&& forall|j: int|
        0 <= j < picks.len() ==> 0 <= #[trigger] picks[j] < candidates.len() && records[j].path
            == candidates[picks[j]].path
    &&& forall|j: int, k: int| 0 <= j < k < picks.len() ==> picks[j] < picks[k]
}

/// The records of a listing follow the order of the scan: each is the
/// record of a scanned candidate, none is recorded twice, and a candidate
/// scanned earlier is recorded earlier.
pub proof fn lemma_records_follow_the_scan(start: ListState, replies: Seq<Reply>) -> (picks: Seq<
    int,
>)
    requires
        start.wf(),
        start.stage is Scanning,
        start.records.len() == 0,
    ensures
        start.after(replies).wf(),
        start.after(replies).stage is Scanning ==> start.after(replies).records.len() == 0,
        records_follow(start.after(replies).candidates, picks, start.after(replies).records),
        forall|j: int| 0 <= j < picks.len() ==> picks[j] < start.after(replies).cursor,
    decreases replies.len(),
{
    if replies.len() == 0 {
        Seq::empty()
    } else {
        let earlier = lemma_records_follow_the_scan(start, replies.drop_last());
        let before = start.after(replies.drop_last());
        let end = start.after(replies);
        if before.stage is Inspecting && replies.last() is Info {
            let picks = earlier.push(before.cursor);
            assert forall|j: int| 0 <= j < picks.len() implies 0 <= #[trigger] picks[j]
                < end.candidates.len() && end.records[j].path
                == end.candidates[picks[j]].path by {
                if j < earlier.len() {
                    assert(picks[j] == earlier[j]);
                }
            }
            assert forall|j: int, k: int| 0 <= j < k < picks.len() implies picks[j]
                < picks[k] by {
                if k < earlier.len() {
                    assert(picks[j] == earlier[j] && picks[k] == earlier[k]);
                } else {
                    assert(picks[j] == earlier[j]);
                }
            }
            picks
        } else {
            earlier
        }
    }
}

} // verus!
