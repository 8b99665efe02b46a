//! What can end an operation before its work is done.
//!
//! Every error names the path or the setting that caused it, so that an
//! operator can act on the message alone.

use vstd::prelude::*;
use vstd::string::*;

verus! {

/// Why an operation stopped.
#[derive(Clone, Debug, PartialEq, Eq)]
pub enum Error {
    /// Neither the invocation nor the configuration names a snapshot directory.
    SnapDirNotSpecified,
    /// There is no directory at the path of the snapshot directory.
    RootNotFound { path: String },
    /// The snapshot directory exists and yet has no canonical form.
    NotCanonical { path: String },
    /// A path given on the command line has no canonical form.
    InvalidPath { path: String },
    /// Neither the invocation nor the configuration names a subvolume.
    SubvolumesNotSpecified,
    /// A deletion was asked for without a single snapshot to delete.
    NoTargets,
    /// Neither the invocation nor the configuration says how long to keep
    /// snapshots.
    RetentionNotSpecified,
    /// The volume store knows no subvolume at this path.
    NotASubvolume { path: String },
    /// The volume store could not create the snapshot.
    SnapshotFailed { source: String, destination: String, reason: String },
    /// The marker file could not be created inside a new snapshot.
    MarkerFailed { snapshot: String, reason: String },
    /// The volume store could not delete the snapshot.
    DeleteFailed { path: String, reason: String },
    /// The volume store could not say anything about the snapshot.
    InfoFailed { path: String, reason: String },
    /// A reply arrived that answers nothing the run had asked.
    OutOfTurn,
    /// The configuration is not a TOML document.
    InvalidToml,
    /// The configuration has no `snap-dir`.
    MissingSnapDir,
    /// The configuration's `snap-dir` has no canonical form.
    InvalidSnapDir { path: String },
    /// The configuration lists `subvol-names` and has no `subvol-base`.
    MissingSubvolBase,
    /// The configuration's `subvol-base` has no canonical form.
    InvalidSubvolBase { path: String },
    /// The configuration's `keep` under `cleanup` is no duration.
    InvalidKeep { text: String },
}

impl Error {
    /// The message that an operator reads.
    pub open spec fn text(self) -> Seq<char> {
        match self {
            Error::SnapDirNotSpecified => "Snapshot directory not specified"@,
            Error::RootNotFound { path } => "Snapshot directory "@ + path@ + " does not exist"@,
            Error::NotCanonical { path } => "Failed to canonicalize snapshot directory "@ + path@,
            Error::InvalidPath { path } => "Invalid path "@ + path@,
            Error::SubvolumesNotSpecified => "Subvolumes not specified"@,
            Error::NoTargets => "Snapshots not specified"@,
            Error::RetentionNotSpecified => "Retention duration not specified"@,
            Error::NotASubvolume { path } => "Failed to get subvolume "@ + path@,
            Error::SnapshotFailed { source, destination, reason } => "Failed to create snapshot "@
                + destination@ + " for subvolume "@ + source@ + ": "@ + reason@,
            Error::MarkerFailed { snapshot, reason } => "Failed to touch .ignore in snapshot "@
                + snapshot@ + ": "@ + reason@,
            Error::DeleteFailed { path, reason } => "Failed to delete snapshot "@ + path@ + ": "@
                + reason@,
            Error::InfoFailed { path, reason } => "Failed to read information of subvolume "@
                + path@ + ": "@ + reason@,
            Error::OutOfTurn => "Reply does not answer the pending request"@,
            Error::InvalidToml => "Invalid TOML in config file"@,
            Error::MissingSnapDir => "Missing 'snap-dir' in config file"@,
            Error::InvalidSnapDir { path } => "Invalid 'snap-dir' path in config file: "@ + path@,
            Error::MissingSubvolBase => "Missing 'subvol-base' in config file"@,
            Error::InvalidSubvolBase { path } => "Invalid 'subvol-base' path in config file: "@
                + path@,
            Error::InvalidKeep { text } => "Invalid 'keep' duration in config: "@ + text@,
        }
    }

    /// The message that an operator reads.
    pub fn message(&self) -> (message: String)
        ensures
            message@ == self.text(),
    {
        match self {
            Error::SnapDirNotSpecified => String::from_str("Snapshot directory not specified"),
            Error::RootNotFound { path } => {
                let mut out = String::from_str("Snapshot directory ");
                out.append(path.as_str());
                out.append(" does not exist");
                out
            },
            Error::NotCanonical { path } => {
                let mut out = String::from_str("Failed to canonicalize snapshot directory ");
                out.append(path.as_str());
                out
            },
            Error::InvalidPath { path } => {
                let mut out = String::from_str("Invalid path ");
                out.append(path.as_str());
                out
            },
            Error::SubvolumesNotSpecified => String::from_str("Subvolumes not specified"),
            Error::NoTargets => String::from_str("Snapshots not specified"),
            Error::RetentionNotSpecified => String::from_str("Retention duration not specified"),
            Error::NotASubvolume { path } => {
                let mut out = String::from_str("Failed to get subvolume ");
                out.append(path.as_str());
                out
            },
            Error::SnapshotFailed { source, destination, reason } => {
                let mut out = String::from_str("Failed to create snapshot ");
                out.append(destination.as_str());
                out.append(" for subvolume ");
                out.append(source.as_str());
                out.append(": ");
                out.append(reason.as_str());
                out
            },
            Error::MarkerFailed { snapshot, reason } => {
                let mut out = String::from_str("Failed to touch .ignore in snapshot ");
                out.append(snapshot.as_str());
                out.append(": ");
                out.append(reason.as_str());
                out
            },
            Error::DeleteFailed { path, reason } => {
                let mut out = String::from_str("Failed to delete snapshot ");
                out.append(path.as_str());
                out.append(": ");
                out.append(reason.as_str());
                out
            },
            Error::InfoFailed { path, reason } => {
                let mut out = String::from_str("Failed to read information of subvolume ");
                out.append(path.as_str());
                out.append(": ");
                out.append(reason.as_str());
                out
            },
            Error::OutOfTurn => String::from_str("Reply does not answer the pending request"),
            Error::InvalidToml => String::from_str("Invalid TOML in config file"),
            Error::MissingSnapDir => String::from_str("Missing 'snap-dir' in config file"),
            Error::InvalidSnapDir { path } => {
                let mut out = String::from_str("Invalid 'snap-dir' path in config file: ");
                out.append(path.as_str());
                out
            },
            Error::MissingSubvolBase => String::from_str("Missing 'subvol-base' in config file"),
            Error::InvalidSubvolBase { path } => {
                let mut out = String::from_str("Invalid 'subvol-base' path in config file: ");
                out.append(path.as_str());
                out
            },
            Error::InvalidKeep { text } => {
                let mut out = String::from_str("Invalid 'keep' duration in config: ");
                out.append(text.as_str());
                out
            },
        }
    }
}

} // verus!
