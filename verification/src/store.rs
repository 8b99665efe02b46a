//! The protocol between an operation and the world around it.
//!
//! An operation decides; it does not act.  Each of its steps hands out one
//! [`Action`], the caller carries it out against the file system and the
//! volume store, and hands back what came of it as a [`Reply`].  The volume
//! store is the copy-on-write capability with its four calls: resolve a path
//! to a subvolume, snapshot one, delete one, and query one.  Each call is
//! atomic by itself and none spans another, so an operation that stops
//! half-way leaves the file system consistent.

use crate::error::Error;
use crate::utils::Walked;
use vstd::prelude::*;

verus! {

/// What the volume store knows of a subvolume.
#[derive(Clone, Copy, Debug, PartialEq, Eq)]
pub struct SubvolumeInfo {
    /// The subvolume's generation counter.
    pub generation: u64,
    /// The transaction in which the subvolume came to be.
    pub otransid: u64,
}

/// What an operation asks its caller to do next.
#[derive(Clone, Debug, PartialEq, Eq)]
pub enum Action {
    /// Walk `root`, no deeper than its immediate children.
    Scan { root: String },
    /// Ask the volume store for the subvolume at `path`.
    Get { path: String },
    /// Have the volume store snapshot the subvolume last resolved, which is
    /// the one at `source`, to `destination`.
    Snapshot { source: String, destination: String },
    /// Create the empty marker file at `path`, inside a new snapshot.
    Mark { path: String },
    /// Have the volume store delete the subvolume last resolved, which is the
    /// one at `path`.
    Delete { path: String },
    /// Ask the volume store about the subvolume last resolved, which is the
    /// one at `path`.
    Info { path: String },
    /// Nothing: the operation has ended well.
    Done,
    /// Nothing: the operation has ended, and this is why.
    Fail(Error),
}

/// What came of an [`Action`].
#[derive(Clone, Debug, PartialEq, Eq)]
pub enum Reply {
    /// To `Scan`: what the walk came by, in its order.
    Entries(Vec<Walked>),
    /// To `Get`: there is a subvolume at the path.
    Found,
    /// To `Get`: the path is no subvolume of the volume store.
    NotASnapshot,
    /// To `Snapshot`, `Mark` or `Delete`: it is done.
    Done,
    /// To `Snapshot`, `Mark`, `Delete` or `Info`: it could not be done.
    Failed(String),
    /// To `Info`: what the volume store knows.
    Info(SubvolumeInfo),
}

impl Action {
    /// Whether the action is one of the volume store's four calls.
    pub open spec fn is_store_call(self) -> bool {
        self is Get || self is Snapshot || self is Delete || self is Info
    }

    /// Whether carrying the action out changes anything on disk.
    pub open spec fn mutates(self) -> bool {
        self is Snapshot || self is Mark || self is Delete
    }

    /// Whether the action ends the operation.
    pub open spec fn is_final(self) -> bool {
        self is Done || self is Fail
    }

    /// Whether the action ends the operation.
    pub fn ends(&self) -> (ends: bool)
        ensures
            ends == self.is_final(),
    {
        match self {
            Action::Done => true,
            Action::Fail(_) => true,
            _ => false,
        }
    }
}

} // verus!
