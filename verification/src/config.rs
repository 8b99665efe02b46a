//! Configuration.
//!
//! A configuration file is a TOML document that may supply defaults: the
//! snapshot directory (`snap-dir`), the subvolumes to snapshot
//! (`subvol-names`, each taken under `subvol-base`), and how long to keep
//! snapshots (`keep` under `cleanup`).  Whatever an invocation names itself
//! takes precedence over these.
//!
//! Reading goes in two steps, with the file system in between: [`load`]
//! takes the document apart, the caller looks up the two directories it
//! names, and [`ConfigFile::resolve`] puts the defaults together.

use crate::error::Error;
use crate::path::{join, joined};
use crate::retention::{retention_of, Retention};
use crate::utils::PathProbe;
use vstd::prelude::*;

verus! {

/// `toml::Value`, a TOML value or a whole document.  Nothing is known of
/// what is inside one but what the functions below say.
#[verifier::external_type_specification]
#[verifier::external_body]
pub struct ExValue(toml::Value);

/// What a TOML value is made of, as far as a configuration looks into it.
pub enum Node {
    /// A string.
    Text(Seq<char>),
    /// An array, with its items in their order.
    Array(Seq<Node>),
    /// A table, with what it holds under each of its keys.
    Table(Map<Seq<char>, Node>),
    /// A number, a truth value, a date or a time.
    Other,
}

/// What a `toml::Value` holds.
pub uninterp spec fn content(value: toml::Value) -> Node;

/// What the TOML document `text` holds, as `toml::from_str` reads it, or
/// nothing where `text` is no TOML document.
pub uninterp spec fn document(text: Seq<char>) -> Option<Node>;

/// Reads a TOML document.
///
/// Calls `toml::from_str` for a `toml::Value`, and drops what it says of a
/// text that it cannot read.  The contract claims that the outcome depends
/// on `text` alone, and gives what the value holds the name `document`.
#[verifier::external_body]
fn parse_document(text: &str) -> (parsed: Option<toml::Value>)
    ensures
        match parsed {
            Some(value) => document(text@) == Some(content(value)),
            None => document(text@) is None,
        },
{
    toml::from_str::<toml::Value>(text).ok()
}

/// Looks a key up in a TOML value.
///
/// Calls `toml::Value::get` with `key`.  The contract claims what the
/// source shows: a table gives what it holds under the key, if it has the
/// key; a table without the key gives nothing, and so does a value that is
/// no table.
#[verifier::external_body]
fn get<'a>(value: &'a toml::Value, key: &str) -> (found: Option<&'a toml::Value>)
    ensures
        match found {
            Some(found) => member(content(*value), key@) == Some(content(*found)),
            None => member(content(*value), key@) is None,
        },
{
    value.get(key)
}

/// `toml::Value::as_str`: the text of a value that is a string, and nothing
/// of any other.
pub assume_specification<'a>[ toml::Value::as_str ](value: &'a toml::Value) -> (text: Option<
    &'a str,
>)
    ensures
        match text {
            Some(text) => text_of(content(*value)) == Some(text@),
            None => text_of(content(*value)) is None,
        },
;

/// `toml::Value::as_array`: the items of a value that is an array, and
/// nothing of any other.
pub assume_specification<'a>[ toml::Value::as_array ](value: &'a toml::Value) -> (items: Option<
    &'a Vec<toml::Value>,
>)
    ensures
        match items {
            Some(items) => items_of(content(*value)) == Some(contents(items@)),
            None => items_of(content(*value)) is None,
        },
;

/// What each of `values` holds.
pub open spec fn contents(values: Seq<toml::Value>) -> Seq<Node> {
    values.map_values(|value: toml::Value| content(value))
}

/// What a node holds under `key`: nothing where the node is no table, or
/// is one without that key.
pub open spec fn member(node: Node, key: Seq<char>) -> Option<Node> {
    match node {
        Node::Table(held) => if held.dom().contains(key) {
            Some(held[key])
        } else {
            None
        },
        _ => None,
    }
}

/// The text of a node: nothing where the node is no string.
pub open spec fn text_of(node: Node) -> Option<Seq<char>> {
    match node {
        Node::Text(text) => Some(text),
        _ => None,
    }
}

/// The items of a node: nothing where the node is no array.
pub open spec fn items_of(node: Node) -> Option<Seq<Node>> {
    match node {
        Node::Array(items) => Some(items),
        _ => None,
    }
}

/// The text that a node holds under `key`, if it holds a string there.
pub open spec fn setting(node: Node, key: Seq<char>) -> Option<Seq<char>> {
    match member(node, key) {
        Some(found) => text_of(found),
        None => None,
    }
}

/// The strings among `items`, in their order.
pub open spec fn texts(items: Seq<Node>) -> Seq<Seq<char>> {
    items.filter_map(|item: Node| text_of(item))
}

/// The names that a document lists under `subvol-names`: the strings of the
/// array there, and none where there is no array.
pub open spec fn listed_names(node: Node) -> Seq<Seq<char>> {
    match member(node, "subvol-names"@) {
        Some(found) => match items_of(found) {
            Some(items) => texts(items),
            None => Seq::empty(),
        },
        None => Seq::empty(),
    }
}

/// The text that a document holds as `keep` under `cleanup`.
pub open spec fn keep_text(node: Node) -> Option<Seq<char>> {
    match member(node, "cleanup"@) {
        Some(cleanup) => setting(cleanup, "keep"@),
        None => None,
    }
}

/// The views of `names`.
pub open spec fn views(names: Seq<String>) -> Seq<Seq<char>> {
    names.map_values(|name: String| name@)
}

/// What a configuration file says, before any of its paths is looked up.
#[derive(Clone, Debug, PartialEq, Eq)]
pub struct ConfigFile {
    /// The snapshot directory, as written.
    pub snap_dir: Option<String>,
    /// The directory that holds the subvolumes, as written.
    pub subvol_base: Option<String>,
    /// The names of the subvolumes to snapshot.
    pub subvol_names: Vec<String>,
    /// How long to keep snapshots.
    pub keep: Option<Retention>,
}

impl ConfigFile {
    /// What no configuration file says: nothing.
    pub open spec fn is_empty(self) -> bool {
        &&& self.snap_dir is None
        &&& self.subvol_base is None
        &&& self.subvol_names@.len() == 0
        &&& self.keep is None
    }

    /// Whether the configuration is what the document `value` says.
    pub open spec fn says(self, value: Node) -> bool {
        &&& match self.snap_dir {
            Some(path) => setting(value, "snap-dir"@) == Some(path@),
            None => false,
        }
        &&& views(self.subvol_names@) == listed_names(value)
        &&& match self.subvol_base {
            Some(path) => self.subvol_names@.len() > 0 && setting(value, "subvol-base"@) == Some(
                path@,
            ),
            None => self.subvol_names@.len() == 0,
        }
        &&& match keep_text(value) {
            Some(text) => self.keep is Some && self.keep == retention_of(text),
            None => self.keep is None,
        }
    }
}

/// Whether `outcome` is what loading the document `value` gives: what the
/// document says, or the first fault that it has.  A document is faulty
/// where it has no `snap-dir`; else where it lists `subvol-names` and has no
/// `subvol-base`; else where its `keep` under `cleanup` is no duration.
pub open spec fn loaded_from(value: Node, outcome: Result<ConfigFile, Error>) -> bool {
    if setting(value, "snap-dir"@) is None {
        outcome == Err::<ConfigFile, Error>(Error::MissingSnapDir)
    } else if listed_names(value).len() > 0 && setting(value, "subvol-base"@) is None {
        outcome == Err::<ConfigFile, Error>(Error::MissingSubvolBase)
    } else if keep_text(value) is Some && retention_of(keep_text(value)->0) is None {
        outcome matches Err(Error::InvalidKeep { text }) && text@ == keep_text(value)->0
    } else {
        outcome matches Ok(config) && config.says(value)
    }
}

/// Whether `outcome` is what loading `content` gives.
pub open spec fn loaded(content: Option<&str>, outcome: Result<ConfigFile, Error>) -> bool {
    match content {
        None => outcome matches Ok(config) && config.is_empty(),
        Some(text) => match document(text@) {
            None => outcome == Err::<ConfigFile, Error>(Error::InvalidToml),
            Some(value) => loaded_from(value, outcome),
        },
    }
}

/// Reads a configuration.
///
/// `content` is the text of the configuration file, or nothing where the
/// invocation has none; without a file the configuration says nothing.
pub fn load(content: Option<&str>) -> (outcome: Result<ConfigFile, Error>)
    ensures
        loaded(content, outcome),
{
    match content {
        None => Ok(
            ConfigFile { snap_dir: None, subvol_base: None, subvol_names: Vec::new(), keep: None },
        ),
        Some(text) => {
            let value = match read_toml(text) {
                Ok(value) => value,
                Err(error) => {
                    return Err(error);
                },
            };
            let snap_dir = match parse_snap_dir(&value) {
                Ok(path) => path,
                Err(error) => {
                    return Err(error);
                },
            };
            let (subvol_base, subvol_names) = match parse_subvols(&value) {
                Ok(subvols) => subvols,
                Err(error) => {
                    return Err(error);
                },
            };
            let keep = match parse_keep_duration(&value) {
                Ok(keep) => keep,
                Err(error) => {
                    return Err(error);
                },
            };
            Ok(ConfigFile { snap_dir: Some(snap_dir), subvol_base, subvol_names, keep })
        },
    }
}

/// Reads the text of a configuration file as a TOML document.
fn read_toml(text: &str) -> (outcome: Result<toml::Value, Error>)
    ensures
        match outcome {
            Ok(value) => document(text@) == Some(content(value)),
            Err(error) => document(text@) is None && error == Error::InvalidToml,
        },
{
    match parse_document(text) {
        Some(value) => Ok(value),
        None => Err(Error::InvalidToml),
    }
}

/// The string that `value` holds under `key`.
fn string_at(value: &toml::Value, key: &str) -> (text: Option<String>)
    ensures
        match text {
            Some(text) => setting(content(*value), key@) == Some(text@),
            None => setting(content(*value), key@) is None,
        },
{
    match get(value, key) {
        Some(found) => match found.as_str() {
            Some(text) => Some(text.to_owned()),
            None => None,
        },
        None => None,
    }
}

/// The snapshot directory that a document names.
fn parse_snap_dir(config: &toml::Value) -> (outcome: Result<String, Error>)
    ensures
        match outcome {
            Ok(path) => setting(content(*config), "snap-dir"@) == Some(path@),
            Err(error) => setting(content(*config), "snap-dir"@) is None && error
                == Error::MissingSnapDir,
        },
{
    match string_at(config, "snap-dir") {
        Some(path) => Ok(path),
        None => Err(Error::MissingSnapDir),
    }
}

/// The subvolumes that a document names: the strings listed under
/// `subvol-names`, and the `subvol-base` that they are to be taken under.
/// Where names are listed, the base is required; where none are, it is not
/// even looked at.
fn parse_subvols(config: &toml::Value) -> (outcome: Result<(Option<String>, Vec<String>), Error>)
    ensures
        match outcome {
            Ok((base, names)) => {
                &&& views(names@) == listed_names(content(*config))
                &&& match base {
                    Some(path) => names@.len() > 0 && setting(content(*config), "subvol-base"@)
                        == Some(path@),
                    None => names@.len() == 0,
                }
            },
            Err(error) => {
                &&& listed_names(content(*config)).len() > 0
                &&& setting(content(*config), "subvol-base"@) is None
                &&& error == Error::MissingSubvolBase
            },
        },
{
    let mut names: Vec<String> = Vec::new();
    if let Some(found) = get(config, "subvol-names") {
        if let Some(items) = found.as_array() {
            let mut i: usize = 0;
            while i < items.len()
                invariant
                    i <= items.len(),
                    views(names@) == texts(contents(items@).take(i as int)),
                decreases items.len() - i,
            {
                proof {
                    assert(contents(items@).take(i + 1).drop_last() =~= contents(items@).take(
                        i as int,
                    ));
                }
                if let Some(text) = items[i].as_str() {
                    let ghost before = names@;
                    let name = text.to_owned();
                    names.push(name);
                    proof {
                        assert(views(names@) =~= views(before).push(name@));
                        assert(texts(contents(items@).take(i as int)) + seq![name@] =~= texts(
                            contents(items@).take(i as int),
                        ).push(name@));
                    }
                }
                i += 1;
            }
            proof {
                assert(contents(items@).take(i as int) =~= contents(items@));
            }
        }
    }
    if names.len() == 0 {
        proof {
            assert(views(names@) =~= Seq::<Seq<char>>::empty());
            assert(views(names@).len() == names@.len());
        }
        return Ok((None, names));
    }
    proof {
        assert(views(names@).len() == names@.len());
    }
    match string_at(config, "subvol-base") {
        Some(base) => Ok((Some(base), names)),
        None => Err(Error::MissingSubvolBase),
    }
}

/// How long a document says to keep snapshots.
fn parse_keep_duration(config: &toml::Value) -> (outcome: Result<Option<Retention>, Error>)
    ensures
        match outcome {
            Ok(keep) => match keep_text(content(*config)) {
                Some(text) => keep is Some && keep == retention_of(text),
                None => keep is None,
            },
            Err(error) => {
                &&& keep_text(content(*config)) is Some
                &&& retention_of(keep_text(content(*config))->0) is None
                &&& error matches Error::InvalidKeep { text }
                &&& text@ == keep_text(content(*config))->0
            },
        },
{
    if let Some(cleanup) = get(config, "cleanup") {
        if let Some(text) = string_at(cleanup, "keep") {
            return match Retention::parse(text.as_str()) {
                Some(keep) => Ok(Some(keep)),
                None => Err(Error::InvalidKeep { text }),
            };
        }
    }
    Ok(None)
}

/// The defaults that a configuration supplies, with its paths looked up.
#[derive(Clone, Debug, PartialEq, Eq)]
pub struct Resolved {
    /// The canonical snapshot directory.
    pub snap_dir: Option<String>,
    /// The subvolumes to snapshot: each name under the canonical base.
    pub subvols: Vec<String>,
    /// How long to keep snapshots.
    pub keep: Option<Retention>,
}

impl ConfigFile {
    /// Whether `outcome` is what the configuration resolves to, given what
    /// the file system says of its two directories: its defaults, or the
    /// first fault that it has.  A configuration is faulty where its
    /// snapshot directory has no canonical form; else where it lists
    /// subvolumes without a base; else where it lists subvolumes and their
    /// base has no canonical form.
    pub open spec fn resolves_to(
        self,
        snap_dir: Option<PathProbe>,
        subvol_base: Option<PathProbe>,
        outcome: Result<Resolved, Error>,
    ) -> bool {
        let canonical_snap_dir = match snap_dir {
            Some(probe) => probe.canonical,
            None => None,
        };
        let canonical_base = match subvol_base {
            Some(probe) => probe.canonical,
            None => None,
        };
        if self.snap_dir is Some && canonical_snap_dir is None {
            outcome == Err::<Resolved, Error>(Error::InvalidSnapDir { path: self.snap_dir->0 })
        } else if self.subvol_names@.len() > 0 && self.subvol_base is None {
            outcome == Err::<Resolved, Error>(Error::MissingSubvolBase)
        } else if self.subvol_names@.len() > 0 && canonical_base is None {
            outcome == Err::<Resolved, Error>(
                Error::InvalidSubvolBase { path: self.subvol_base->0 },
            )
        } else {
            &&& outcome matches Ok(resolved)
            &&& resolved.snap_dir == if self.snap_dir is Some {
                canonical_snap_dir
            } else {
                None
            }
            &&& resolved.keep == self.keep
            &&& resolved.subvols@.len() == self.subvol_names@.len()
            &&& forall|i: int|
                0 <= i < self.subvol_names@.len() ==> (#[trigger] resolved.subvols@[i])@ == joined(
                    canonical_base->0@,
                    self.subvol_names@[i]@,
                )
        }
    }

    /// Puts the defaults together.
    ///
    /// `snap_dir` and `subvol_base` are what the file system says of the two
    /// directories that the configuration names; each is only looked at
    /// where the configuration names it.  Both must have a canonical form.
    /// Each subvolume is its name adjoined to the canonical base.
    pub fn resolve(self, snap_dir: Option<PathProbe>, subvol_base: Option<PathProbe>) -> (outcome:
        Result<Resolved, Error>)
        ensures
            self.resolves_to(snap_dir, subvol_base, outcome),
    {
        let ConfigFile { snap_dir: named_snap_dir, subvol_base: named_base, subvol_names, keep } =
            self;
        let canonical_snap_dir = match snap_dir {
            Some(probe) => probe.canonical,
            None => None,
        };
        let canonical_base = match subvol_base {
            Some(probe) => probe.canonical,
            None => None,
        };
        let resolved_snap_dir = match named_snap_dir {
            Some(path) => match canonical_snap_dir {
                Some(canonical) => Some(canonical),
                None => {
                    return Err(Error::InvalidSnapDir { path });
                },
            },
            None => None,
        };
        let mut subvols: Vec<String> = Vec::new();
        if subvol_names.len() > 0 {
            let named = match named_base {
                Some(path) => path,
                None => {
                    return Err(Error::MissingSubvolBase);
                },
            };
            let base = match canonical_base {
                Some(canonical) => canonical,
                None => {
                    return Err(Error::InvalidSubvolBase { path: named });
                },
            };
            let mut i: usize = 0;
            while i < subvol_names.len()
                invariant
                    i <= subvol_names.len(),
                    subvols@.len() == i,
                    forall|k: int|
                        0 <= k < i ==> (#[trigger] subvols@[k])@ == joined(
                            base@,
                            subvol_names@[k]@,
                        ),
                decreases subvol_names.len() - i,
            {
                subvols.push(join(base.as_str(), subvol_names[i].as_str()));
                i += 1;
            }
        }
        Ok(Resolved { snap_dir: resolved_snap_dir, subvols, keep })
    }
}

} // verus!
