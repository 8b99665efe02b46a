//! Paths as the operations receive them, and the directory scanner.
//!
//! The library never touches the file system.  Whoever calls it looks a path
//! up and hands over what was found as a [`PathProbe`], walks a directory and
//! hands over what came by as [`Walked`] items; the rules on what to make of
//! either are here.

use crate::error::Error;
use vstd::prelude::*;

verus! {

/// What the file system says of a path.
#[derive(Clone, Debug, PartialEq, Eq)]
pub struct PathProbe {
    /// The path as it was given.
    pub path: String,
    /// Whether anything exists at the path.
    pub exists: bool,
    /// Whether what exists at the path is a directory.
    pub is_dir: bool,
    /// The path's canonical form, if it has one.
    pub canonical: Option<String>,
}

/// The canonical form of a path given on the command line.
pub open spec fn parsed(probe: PathProbe) -> Result<String, Error> {
    match probe.canonical {
        Some(canonical) => Ok(canonical),
        None => Err(Error::InvalidPath { path: probe.path }),
    }
}

/// Turns a path given on the command line into its canonical form, and
/// refuses one that has none.
pub fn parse_path(probe: PathProbe) -> (path: Result<String, Error>)
    ensures
        path == parsed(probe),
{
    match probe.canonical {
        Some(canonical) => Ok(canonical),
        None => Err(Error::InvalidPath { path: probe.path }),
    }
}

/// The snapshot directory of an invocation: the one given on the command
/// line where there is one, else the configuration's.
pub open spec fn chosen_snap_dir(
    cli_snap_dir: Option<PathProbe>,
    config_snap_dir: Option<PathProbe>,
) -> Option<PathProbe> {
    match cli_snap_dir {
        Some(probe) => Some(probe),
        None => config_snap_dir,
    }
}

impl PathProbe {
    /// Whether the path can serve as a snapshot directory: it exists and is
    /// a directory.
    pub open spec fn is_root(self) -> bool {
        self.exists && self.is_dir
    }
}

/// The canonical snapshot directory of an invocation, or why it has none.
pub open spec fn resolved_snap_dir(
    cli_snap_dir: Option<PathProbe>,
    config_snap_dir: Option<PathProbe>,
) -> Result<String, Error> {
    match chosen_snap_dir(cli_snap_dir, config_snap_dir) {
        None => Err(Error::SnapDirNotSpecified),
        Some(probe) => if !probe.is_root() {
            Err(Error::RootNotFound { path: probe.path })
        } else {
            match probe.canonical {
                Some(canonical) => Ok(canonical),
                None => Err(Error::NotCanonical { path: probe.path }),
            }
        },
    }
}

/// Settles the snapshot directory of an invocation.
///
/// A directory given on the command line takes precedence over the
/// configuration's.  It must exist and be a directory; what comes back is
/// its canonical form.
pub fn resolve_snap_dir(
    cli_snap_dir: Option<PathProbe>,
    config_snap_dir: Option<PathProbe>,
) -> (snap_dir: Result<String, Error>)
    ensures
        snap_dir == resolved_snap_dir(cli_snap_dir, config_snap_dir),
{
    let chosen = match cli_snap_dir {
        Some(probe) => Some(probe),
        None => config_snap_dir,
    };
    match chosen {
        None => Err(Error::SnapDirNotSpecified),
        Some(probe) => {
            if !(probe.exists && probe.is_dir) {
                Err(Error::RootNotFound { path: probe.path })
            } else {
                match probe.canonical {
                    Some(canonical) => Ok(canonical),
                    None => Err(Error::NotCanonical { path: probe.path }),
                }
            }
        },
    }
}

/// One entry that a directory walk came by.
#[derive(Clone, Debug, PartialEq, Eq)]
pub struct Entry {
    /// The entry's path.
    pub path: String,
    /// The entry's own name: the last segment of its path.
    pub name: String,
    /// How far below the walk's root the entry lies; the root itself is at 0.
    pub depth: usize,
    /// Whether the entry is a directory.
    pub is_dir: bool,
}

/// One step of a directory walk.
#[derive(Clone, Debug, PartialEq, Eq)]
pub enum Walked {
    /// The walk read an entry.
    Entry(Entry),
    /// The walk could not read an entry, for want of permission or for a
    /// passing fault.
    Unreadable,
}

/// Whether a step of the walk found a snapshot candidate: a directory that
/// is an immediate child of the root.
pub open spec fn candidate(walked: Walked) -> Option<Entry> {
    match walked {
        Walked::Entry(entry) => if entry.depth == 1 && entry.is_dir {
            Some(entry)
        } else {
            None
        },
        Walked::Unreadable => None,
    }
}

/// The snapshot candidates that a walk came by, in the order of the walk.
pub open spec fn candidates(walked: Seq<Walked>) -> Seq<Entry> {
    walked.filter_map(|step: Walked| candidate(step))
}

/// Every candidate was come by in the walk, as a directory right below the
/// root; the root itself, files, anything deeper and what could not be read
/// are no candidates.
pub proof fn lemma_candidates_were_walked(walked: Seq<Walked>, i: int)
    requires
        0 <= i < candidates(walked).len(),
    ensures
        walked.contains(Walked::Entry(candidates(walked)[i])),
        candidates(walked)[i].depth == 1,
        candidates(walked)[i].is_dir,
    decreases walked.len(),
{
    let select = |step: Walked| candidate(step);
    if walked.len() > 0 {
        let rest = walked.drop_last();
        if i < candidates(rest).len() {
            lemma_candidates_were_walked(rest, i);
            let found = choose|k: int|
                0 <= k < rest.len() && rest[k] == Walked::Entry(candidates(rest)[i]);
            assert(walked[found] == rest[found]);
        } else {
            assert(select(walked.last()) is Some);
            assert(walked[walked.len() - 1] == walked.last());
        }
    }
}

/// Every directory right below the root that the walk could read is a
/// candidate.
pub proof fn lemma_children_are_candidates(walked: Seq<Walked>, k: int)
    requires
        0 <= k < walked.len(),
        candidate(walked[k]) is Some,
    ensures
        candidates(walked).contains(candidate(walked[k])->0),
    decreases walked.len(),
{
    let select = |step: Walked| candidate(step);
    let rest = walked.drop_last();
    let all = candidates(walked);
    if k < walked.len() - 1 {
        lemma_children_are_candidates(rest, k);
        let found = choose|i: int|
            0 <= i < candidates(rest).len() && candidates(rest)[i] == candidate(rest[k])->0;
        assert(all[found] == candidates(rest)[found]);
    } else {
        assert(select(walked.last()) is Some);
        assert(all[all.len() - 1] == candidate(walked[k])->0);
    }
}

/// Picks the snapshot candidates out of a directory walk.
///
/// A candidate is a directory that lies exactly one level below the root
/// of the walk.  The root itself, plain files and anything deeper are left
/// out, and so is whatever the walk could not read: one unreadable entry
/// never hides the others.  The candidates keep the order of the walk, which
/// is the file system's and promises nothing.
pub fn scan_snapshots(walked: &Vec<Walked>) -> (found: Vec<Entry>)
    ensures
        found@ == candidates(walked@),
{
    let mut found: Vec<Entry> = Vec::new();
    let mut i: usize = 0;
    while i < walked.len()
        invariant
            i <= walked.len(),
            found@ == candidates(walked@.take(i as int)),
        decreases walked.len() - i,
    {
        proof {
            assert(walked@.take(i + 1).drop_last() =~= walked@.take(i as int));
        }
        match &walked[i] {
            Walked::Entry(entry) => {
                if entry.depth == 1 && entry.is_dir {
                    found.push(
                        Entry {
                            path: entry.path.clone(),
                            name: entry.name.clone(),
                            depth: entry.depth,
                            is_dir: entry.is_dir,
                        },
                    );
                }
            },
            Walked::Unreadable => {},
        }
        i += 1;
    }
    proof {
        assert(walked@.take(i as int) =~= walked@);
    }
    found
}

} // verus!
