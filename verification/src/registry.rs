//! Snapshot registry.
//!
//! The registry is what one invocation knows of the snapshots under a root:
//! the scanned entries whose names decode, each with the identity its name
//! carries.  It is built anew from a scan every time and never stored: the
//! file system alone says which snapshots exist.

use crate::codec::{decode, decoded, SnapshotIdentity};
use crate::utils::Entry;
use vstd::prelude::*;

verus! {

/// A scanned entry whose name decodes, with what it decodes to.
#[derive(Clone, Debug, PartialEq, Eq)]
pub struct Snapshot {
    pub entry: Entry,
    pub identity: SnapshotIdentity,
}

/// Whether an entry's name is that of a snapshot.
pub open spec fn is_recognized(entry: Entry) -> bool {
    decoded(entry.name@) is Some
}

/// Whether an entry is a snapshot taken strictly before `cutoff`.  An entry
/// whose name does not decode is never expired, and neither is one taken at
/// the cutoff itself.
pub open spec fn is_expired(entry: Entry, cutoff: int) -> bool {
    decoded(entry.name@) matches Some(identity) && identity.1 < cutoff
}

/// The entries whose names decode, in their order.
pub open spec fn recognized(entries: Seq<Entry>) -> Seq<Entry> {
    entries.filter_map(
        |entry: Entry|
            if is_recognized(entry) {
                Some(entry)
            } else {
                None
            },
    )
}

/// The entries that are snapshots taken strictly before `cutoff`, in their
/// order.
pub open spec fn expired(entries: Seq<Entry>, cutoff: int) -> Seq<Entry> {
    entries.filter_map(
        |entry: Entry|
            if is_expired(entry, cutoff) {
                Some(entry)
            } else {
                None
            },
    )
}

/// Every expired entry is one of the entries, and is expired.
pub proof fn lemma_expired_are_expired(entries: Seq<Entry>, cutoff: int, i: int)
    requires
        0 <= i < expired(entries, cutoff).len(),
    ensures
        entries.contains(expired(entries, cutoff)[i]),
        is_expired(expired(entries, cutoff)[i], cutoff),
    decreases entries.len(),
{
    let select = |entry: Entry|
        if is_expired(entry, cutoff) {
            Some(entry)
        } else {
            None
        };
    if entries.len() > 0 {
        let rest = entries.drop_last();
        if i < expired(rest, cutoff).len() {
            lemma_expired_are_expired(rest, cutoff, i);
            let found = choose|k: int| 0 <= k < rest.len() && rest[k] == expired(rest, cutoff)[i];
            assert(entries[found] == rest[found]);
        } else {
            assert(select(entries.last()) is Some);
            assert(entries[entries.len() - 1] == entries.last());
        }
    }
}

/// Every entry that is expired is among the expired entries.
pub proof fn lemma_expired_are_all(entries: Seq<Entry>, cutoff: int, k: int)
    requires
        0 <= k < entries.len(),
        is_expired(entries[k], cutoff),
    ensures
        expired(entries, cutoff).contains(entries[k]),
    decreases entries.len(),
{
    let select = |entry: Entry|
        if is_expired(entry, cutoff) {
            Some(entry)
        } else {
            None
        };
    let rest = entries.drop_last();
    let all = expired(entries, cutoff);
    if k < entries.len() - 1 {
        lemma_expired_are_all(rest, cutoff, k);
        let found = choose|i: int|
            0 <= i < expired(rest, cutoff).len() && expired(rest, cutoff)[i] == rest[k];
        assert(all[found] == expired(rest, cutoff)[found]);
    } else {
        assert(select(entries.last()) is Some);
        assert(all[all.len() - 1] == entries[k]);
    }
}

/// To pick the expired entries, it is enough to look among those whose
/// names decode.
pub proof fn lemma_expired_of_recognized(entries: Seq<Entry>, cutoff: int)
    ensures
        expired(recognized(entries), cutoff) == expired(entries, cutoff),
    decreases entries.len(),
{
    if entries.len() > 0 {
        let rest = entries.drop_last();
        lemma_expired_of_recognized(rest, cutoff);
        if is_recognized(entries.last()) {
            let known = recognized(entries);
            assert(known.drop_last() =~= recognized(rest));
        }
    }
}

/// The snapshots found under a root.
pub struct Registry {
    snapshots: Vec<Snapshot>,
}

impl Registry {
    #[verifier::type_invariant]
    spec fn inv(self) -> bool {
        forall|i: int|
            0 <= i < self.snapshots@.len() ==> decoded((#[trigger] self.snapshots@[i]).entry.name@)
                == Some(self.snapshots@[i].identity@)
    }

    /// The registered entries, in the order of the scan.
    pub closed spec fn entries(self) -> Seq<Entry> {
        self.snapshots@.map_values(|snapshot: Snapshot| snapshot.entry)
    }

    /// The identities of the registered entries, in the order of the scan.
    pub closed spec fn identities(self) -> Seq<(Seq<char>, i64)> {
        self.snapshots@.map_values(|snapshot: Snapshot| snapshot.identity@)
    }

    /// Registers the scanned entries whose names decode.  The others are no
    /// snapshots of ours: they are left out, and nothing will ever be done
    /// to them.
    pub fn build(entries: &Vec<Entry>) -> (registry: Registry)
        ensures
            registry.entries() == recognized(entries@),
            registry.identities().len() == registry.entries().len(),
            forall|i: int|
                0 <= i < registry.entries().len() ==> decoded(
                    (#[trigger] registry.entries()[i]).name@,
                ) == Some(registry.identities()[i]),
    {
        let mut snapshots: Vec<Snapshot> = Vec::new();
        let mut i: usize = 0;
        while i < entries.len()
            invariant
                i <= entries.len(),
                snapshots@.map_values(|snapshot: Snapshot| snapshot.entry) == recognized(
                    entries@.take(i as int),
                ),
                forall|k: int|
                    0 <= k < snapshots@.len() ==> decoded((#[trigger] snapshots@[k]).entry.name@)
                        == Some(snapshots@[k].identity@),
            decreases entries.len() - i,
        {
            proof {
                assert(entries@.take(i + 1).drop_last() =~= entries@.take(i as int));
            }
            let entry = &entries[i];
            match decode(entry.name.as_str()) {
                Some(identity) => {
                    let ghost before = snapshots@;
                    let snapshot = Snapshot {
                        entry: Entry {
                            path: entry.path.clone(),
                            name: entry.name.clone(),
                            depth: entry.depth,
                            is_dir: entry.is_dir,
                        },
                        identity,
                    };
                    snapshots.push(snapshot);
                    proof {
                        assert(snapshots@.map_values(|snapshot: Snapshot| snapshot.entry)
                            =~= before.map_values(|snapshot: Snapshot| snapshot.entry).push(
                            *entry,
                        ));
                    }
                },
                None => {},
            }
            i += 1;
        }
        proof {
            assert(entries@.take(i as int) =~= entries@);
        }
        Registry { snapshots }
    }

    /// How many snapshots are registered.
    pub fn len(&self) -> (len: usize)
        ensures
            len == self.entries().len(),
    {
        self.snapshots.len()
    }

    /// The `i`-th registered snapshot, if there are as many.
    pub fn get(&self, i: usize) -> (snapshot: Option<&Snapshot>)
        ensures
            match snapshot {
                Some(snapshot) => {
                    &&& i < self.entries().len()
                    &&& snapshot.entry == self.entries()[i as int]
                    &&& snapshot.identity@ == self.identities()[i as int]
                    &&& decoded(snapshot.entry.name@) == Some(snapshot.identity@)
                },
                None => i >= self.entries().len(),
            },
    {
        proof {
            use_type_invariant(self);
        }
        if i < self.snapshots.len() {
            Some(&self.snapshots[i])
        } else {
            None
        }
    }

    /// Looks a snapshot up by its identity: where the first entry that
    /// decodes to `identity` stands in the registry, if there is one.
    pub fn find(&self, identity: &SnapshotIdentity) -> (index: Option<usize>)
        ensures
            match index {
                Some(i) => {
                    &&& i < self.identities().len()
                    &&& self.identities()[i as int] == identity@
                    &&& forall|j: int| 0 <= j < i ==> self.identities()[j] != identity@
                },
                None => forall|j: int|
                    0 <= j < self.identities().len() ==> self.identities()[j] != identity@,
            },
    {
        let mut i: usize = 0;
        while i < self.snapshots.len()
            invariant
                i <= self.snapshots.len(),
                self.identities().len() == self.snapshots@.len(),
                forall|j: int| 0 <= j < i ==> self.identities()[j] != identity@,
            decreases self.snapshots.len() - i,
        {
            let known = &self.snapshots[i].identity;
            assert(self.identities()[i as int] == known@);
            if known.created_at == identity.created_at && known.source_name
                == identity.source_name {
                return Some(i);
            }
            i += 1;
        }
        None
    }

    /// The registered entries taken strictly before `cutoff`, in the order
    /// of the scan.  An entry taken at the cutoff itself is not among them.
    pub fn older_than(&self, cutoff: i128) -> (old: Vec<Entry>)
        ensures
            old@ == expired(self.entries(), cutoff as int),
    {
        proof {
            use_type_invariant(self);
        }
        let ghost all = self.entries();
        let mut old: Vec<Entry> = Vec::new();
        let mut i: usize = 0;
        while i < self.snapshots.len()
            invariant
                i <= self.snapshots.len(),
                all == self.snapshots@.map_values(|snapshot: Snapshot| snapshot.entry),
                forall|k: int|
                    0 <= k < self.snapshots@.len() ==> decoded(
                        (#[trigger] self.snapshots@[k]).entry.name@,
                    ) == Some(self.snapshots@[k].identity@),
                old@ == expired(all.take(i as int), cutoff as int),
            decreases self.snapshots.len() - i,
        {
            proof {
                assert(all.take(i + 1).drop_last() =~= all.take(i as int));
                assert(all.take(i + 1).last() == self.snapshots@[i as int].entry);
            }
            let snapshot = &self.snapshots[i];
            if (snapshot.identity.created_at as i128) < cutoff {
                old.push(
                    Entry {
                        path: snapshot.entry.path.clone(),
                        name: snapshot.entry.name.clone(),
                        depth: snapshot.entry.depth,
                        is_dir: snapshot.entry.is_dir,
                    },
                );
            }
            i += 1;
        }
        proof {
            assert(all.take(i as int) =~= all);
        }
        old
    }
}

} // verus!
