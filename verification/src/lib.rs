//! Snapshot lifecycle and retention engine for copy-on-write subvolumes.
//!
//! Snapshots live as directory entries right below one root.  An entry's
//! name says which subvolume it is a snapshot of and when it was taken
//! ([`codec`]); nothing else is recorded anywhere.  Four operations work on
//! them: [`create`], [`list`], [`delete`] and [`cleanup`], the last of which
//! deletes what is older than a [`retention`].
//!
//! The library decides and never acts.  An operation hands out one
//! [`store::Action`] at a time; its caller carries the action out against
//! the file system and the volume store and hands back a [`store::Reply`].
//! What an operation does is thus a function from its state and a reply to
//! its next state and action, and the laws stated beside each operation hold
//! of every sequence of replies, whatever the world does.

pub mod cleanup;
mod clock;
pub mod codec;
pub mod command;
pub mod config;
pub mod create;
pub mod delete;
pub mod error;
pub mod list;
pub mod path;
pub mod registry;
pub mod retention;
pub mod store;
pub mod utils;
