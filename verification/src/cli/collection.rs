//! `collection add`: which name a collection gets and when it is refused.

use crate::config::collections::{lookup, CollectionEntry, EntryList, EntryView};
use crate::config::dirs::str_view;
use crate::config::error::{ConfigError, InvalidPathKind};
use crate::config::schema::{is_name_error, name_fault, validate_collection_name, Config};
use crate::paths::{file_name, file_name_spec};
use crate::text::from_chars;
use vstd::prelude::*;

verus! {

/// Why a collection could not be added.
#[derive(Debug)]
pub enum CollectionAddError {
    Config(ConfigError),
}

impl CollectionAddError {
    /// The text shown to the user.
    pub fn message(&self) -> (text: String)
        ensures
            text@ == self->Config_0.message_spec(),
    {
        match self {
            CollectionAddError::Config(e) => e.message(),
        }
    }
}

/// The error that reports `kind` of `path`.
pub open spec fn is_path_error(error: ConfigError, path: Seq<char>, kind: InvalidPathKind) -> bool {
    &&& error is InvalidCollectionPath
    &&& error->InvalidCollectionPath_path@ == path
    &&& error->kind == kind
}

/// The fault of a collection's directory, given what the file system says.
pub open spec fn path_fault(present: bool, is_dir: bool) -> Option<InvalidPathKind> {
    if !present {
        Some(InvalidPathKind::NotFound)
    } else if !is_dir {
        Some(InvalidPathKind::NotDirectory)
    } else {
        None
    }
}

/// Checks a collection's directory, given what the file system says of it.
pub fn validate_collection_path(expanded: &str, present: bool, is_dir: bool) -> (result: Result<
    (),
    ConfigError,
>)
    ensures
        match result {
            Ok(_) => path_fault(present, is_dir) is None,
            Err(e) => path_fault(present, is_dir) is Some && is_path_error(
                e,
                expanded@,
                path_fault(present, is_dir)->Some_0,
            ),
        },
{
    if !present {
        return Err(
            ConfigError::InvalidCollectionPath {
                path: expanded.to_string(),
                kind: InvalidPathKind::NotFound,
            },
        );
    }
    if !is_dir {
        return Err(
            ConfigError::InvalidCollectionPath {
                path: expanded.to_string(),
                kind: InvalidPathKind::NotDirectory,
            },
        );
    }
    Ok(())
}

/// The name of the new collection: the one that was asked for, else the name
/// that the path ends in.
pub open spec fn chosen_name(expanded: Seq<char>, name_override: Option<Seq<char>>) -> Option<
    Seq<char>,
> {
    match name_override {
        Some(name) => Some(name),
        None => match file_name_spec(expanded) {
            Some(name) => if name.len() > 0 {
                Some(name)
            } else {
                None
            },
            None => None,
        },
    }
}

/// The name of the new collection, or the error that the path ends in none.
pub fn resolve_collection_name(expanded: &str, name_override: Option<&str>) -> (result: Result<
    String,
    ConfigError,
>)
    ensures
        match result {
            Ok(name) => chosen_name(expanded@, str_view(name_override)) == Some(name@),
            Err(e) => chosen_name(expanded@, str_view(name_override)) is None && is_path_error(
                e,
                expanded@,
                InvalidPathKind::NoBasename,
            ),
        },
{
    if let Some(name) = name_override {
        return Ok(name.to_string());
    }
    let found: Option<Vec<char>> = file_name(expanded);
    if let Some(name) = found {
        if name.len() > 0 {
            return Ok(from_chars(name.as_slice()));
        }
    }
    Err(
        ConfigError::InvalidCollectionPath {
            path: expanded.to_string(),
            kind: InvalidPathKind::NoBasename,
        },
    )
}

/// What the file system says of a path.
#[derive(Debug, Clone, Copy, PartialEq, Eq, Structural)]
pub struct PathProbe {
    pub present: bool,
    pub is_dir: bool,
}

/// Why `add` refuses, if it does: a fault of the directory, no name, a fault of
/// the name, or a collection that has the name already, in this order.
pub open spec fn refusal(
    config: Config,
    expanded: Seq<char>,
    probe: PathProbe,
    name_override: Option<Seq<char>>,
    error: ConfigError,
) -> bool {
    let chosen = chosen_name(expanded, name_override);
    if path_fault(probe.present, probe.is_dir) is Some {
        is_path_error(error, expanded, path_fault(probe.present, probe.is_dir)->Some_0)
    } else if chosen is None {
        is_path_error(error, expanded, InvalidPathKind::NoBasename)
    } else if name_fault(chosen->Some_0) is Some {
        is_name_error(error, chosen->Some_0, name_fault(chosen->Some_0)->Some_0)
    } else {
        &&& lookup(config.collections.list(), chosen->Some_0) is Some
        &&& error is CollectionExists
        &&& error->CollectionExists_name@ == chosen->Some_0
    }
}

/// `add` succeeds: the directory is there, the name is valid and free.
pub open spec fn accepted(
    config: Config,
    expanded: Seq<char>,
    probe: PathProbe,
    name_override: Option<Seq<char>>,
) -> bool {
    let chosen = chosen_name(expanded, name_override);
    &&& probe.present
    &&& probe.is_dir
    &&& chosen is Some
    &&& name_fault(chosen->Some_0) is None
    &&& lookup(config.collections.list(), chosen->Some_0) is None
}

/// Adds a collection and returns its name. The entry keeps the path as the
/// user wrote it; a refused request leaves the configuration as it was.
pub fn run(
    config: &mut Config,
    path_arg: &str,
    expanded: &str,
    probe: PathProbe,
    name_override: Option<&str>,
    description: Option<&str>,
) -> (result: Result<String, CollectionAddError>)
    ensures
        match result {
            Ok(name) => {
                &&& accepted(*old(config), expanded@, probe, str_view(name_override))
                &&& chosen_name(expanded@, str_view(name_override)) == Some(name@)
                &&& forall|n: Seq<char>| #[trigger]
                    lookup(final(config).collections.list(), n) == (if n == name@ {
                        Some(
                            EntryView {
                                path: path_arg@,
                                description: str_view(description),
                            },
                        )
                    } else {
                        lookup(old(config).collections.list(), n)
                    })
                &&& final(config).embedding == old(config).embedding
                &&& final(config).runtime == old(config).runtime
            },
            Err(CollectionAddError::Config(e)) => {
                &&& !accepted(*old(config), expanded@, probe, str_view(name_override))
                &&& refusal(*old(config), expanded@, probe, str_view(name_override), e)
                &&& *final(config) == *old(config)
            },
        },
{
    if let Err(e) = validate_collection_path(expanded, probe.present, probe.is_dir) {
        return Err(CollectionAddError::Config(e));
    }
    let name: String = match resolve_collection_name(expanded, name_override) {
        Ok(name) => name,
        Err(e) => {
            return Err(CollectionAddError::Config(e));
        },
    };
    if let Err(e) = validate_collection_name(name.as_str()) {
        return Err(CollectionAddError::Config(e));
    }
    if config.collections.contains_key(name.as_str()) {
        return Err(CollectionAddError::Config(ConfigError::CollectionExists { name }));
    }
    let entry = CollectionEntry {
        path: path_arg.to_string(),
        description: match description {
            Some(text) => Some(text.to_string()),
            None => None,
        },
    };
    config.collections.insert(name.clone(), entry);
    Ok(name)
}

/// Every collection has a valid name.
pub open spec fn names_valid(list: EntryList) -> bool {
    forall|n: Seq<char>| #[trigger] lookup(list, n) is Some ==> name_fault(n) is None
}

/// An accepted collection keeps the configuration valid, so it loads again.
pub proof fn add_keeps_names_valid(
    before: EntryList,
    after: EntryList,
    name: Seq<char>,
    entry: EntryView,
)
    requires
        names_valid(before),
        name_fault(name) is None,
        forall|n: Seq<char>| #[trigger]
            lookup(after, n) == (if n == name {
                Some(entry)
            } else {
                lookup(before, n)
            }),
    ensures
        names_valid(after),
{
}

/// What was added once is refused the second time.
pub proof fn second_add_is_refused(
    after: Config,
    expanded: Seq<char>,
    probe: PathProbe,
    name_override: Option<Seq<char>>,
    entry: EntryView,
)
    requires
        chosen_name(expanded, name_override) is Some,
        lookup(after.collections.list(), chosen_name(expanded, name_override)->Some_0) == Some(
            entry,
        ),
    ensures
        !accepted(after, expanded, probe, name_override),
{
}

} // verus!
