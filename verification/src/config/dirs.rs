//! The directories of the configuration and of the model cache.

use crate::config::error::ConfigError;
use crate::paths::{join, join_spec};
use vstd::prelude::*;

verus! {

/// Directory under the home that holds the configuration.
pub const CONFIG_DIR_NAME: &'static str = ".mdya";

/// Directory under the home that holds the models.
pub const MODEL_DIR_NAME: &'static str = ".mdya-models";

/// `path` starts with a `~` that stands for the home directory: alone, or
/// before a slash.
pub open spec fn leads_with_tilde(path: Seq<char>) -> bool {
    path.len() > 0 && path[0] == '~' && (path.len() == 1 || path[1] == '/')
}

/// `path` starts with a `~` before a backslash, which is a separator on some
/// machines.
pub open spec fn leads_with_backslashed_tilde(path: Seq<char>) -> bool {
    path.len() > 1 && path[0] == '~' && path[1] == '\\'
}

/// `path` with its `~` replaced by the home directory, where it leads with one
/// and there is a home.
pub open spec fn tilde_expansion(path: Seq<char>, home: Option<Seq<char>>) -> Seq<char> {
    if leads_with_tilde(path) && home is Some {
        home->Some_0 + path.skip(1)
    } else {
        path
    }
}

/// `expanded` is `path`, tilde expanded, with this home directory.
pub open spec fn expands_to(
    path: Seq<char>,
    home: Option<Seq<char>>,
    expanded: Seq<char>,
) -> bool {
    if leads_with_backslashed_tilde(path) {
        expanded == path || home is Some && expanded == home->Some_0 + path.skip(1)
    } else {
        expanded == tilde_expansion(path, home)
    }
}

/// An optional text by its view.
pub open spec fn str_view(text: Option<&str>) -> Option<Seq<char>> {
    match text {
        Some(t) => Some(t@),
        None => None,
    }
}

/// `shellexpand::tilde_with_context`, with `home` as the context. Claims that a
/// `~` that stands alone or before a slash at the start of the path is replaced
/// by the home, where there is one, and nothing else is changed. Whether a `~`
/// before a backslash is replaced depends on the machine and is left open.
#[verifier::external_body]
fn tilde_with(path: &str, home: Option<&str>) -> (expanded: String)
    ensures
        expands_to(path@, str_view(home), expanded@),
{
    shellexpand::tilde_with_context(path, || home).into_owned()
}

/// The user's home directory.
#[derive(Debug, Clone, PartialEq, Eq)]
pub enum Home {
    /// There is none.
    Missing,
    /// Its path.
    At(String),
    /// There is one, and its path is no Unicode text.
    Unspoken,
}

/// A home directory by its view.
pub enum HomeView {
    Missing,
    At(Seq<char>),
    Unspoken,
}

impl View for Home {
    type V = HomeView;

    open spec fn view(&self) -> HomeView {
        match self {
            Home::Missing => HomeView::Missing,
            Home::At(path) => HomeView::At(path@),
            Home::Unspoken => HomeView::Unspoken,
        }
    }
}

/// The home directory that a `~` can be replaced by.
pub open spec fn home_text(home: HomeView) -> Option<Seq<char>> {
    match home {
        HomeView::At(path) => Some(path),
        _ => None,
    }
}

/// The home directory that a `~` can be replaced by.
pub(crate) fn spoken(home: &Home) -> (text: Option<&str>)
    ensures
        str_view(text) == home_text(home@),
{
    match home {
        Home::At(path) => Some(path.as_str()),
        _ => None,
    }
}

/// `dirs::home_dir`. Depends on the machine: nothing is claimed of the result.
#[verifier::external_body]
pub(crate) fn home_dir() -> (home: Home) {
    match dirs::home_dir() {
        Some(path) => match path.into_os_string().into_string() {
            Ok(text) => Home::At(text),
            Err(_) => Home::Unspoken,
        },
        None => Home::Missing,
    }
}

/// `path` with a leading `~` replaced by the given home directory.
pub fn expand_tilde_from(path: &str, home: Option<&str>) -> (expanded: String)
    ensures
        expands_to(path@, str_view(home), expanded@),
{
    tilde_with(path, home)
}

/// `expanded` is `path`, tilde expanded, with some home directory.
pub open spec fn is_tilde_expansion(path: Seq<char>, expanded: Seq<char>) -> bool {
    exists|home: Option<Seq<char>>| #[trigger] expands_to(path, home, expanded)
}

/// `path` with a leading `~` replaced by the user's home directory.
pub fn expand_tilde(path: &str) -> (expanded: String)
    ensures
        is_tilde_expansion(path@, expanded@),
        !leads_with_tilde(path@) && !leads_with_backslashed_tilde(path@) ==> expanded@ == path@,
{
    let home: Home = home_dir();
    let expanded: String = expand_tilde_from(path, spoken(&home));
    proof {
        assert(expands_to(path@, home_text(home@), expanded@));
    }
    expanded
}

/// Where a directory is.
#[derive(Debug, Clone, PartialEq, Eq)]
pub enum Dir {
    /// At this path.
    At(String),
    /// Below the home directory, whose path is no Unicode text, by this name.
    BelowHome(String),
}

/// What a resolved directory is: the flag, tilde expanded, where there is one;
/// else the directory `name` under the home, or the error that there is none.
pub open spec fn resolves_to(
    flag: Option<Seq<char>>,
    home: HomeView,
    name: Seq<char>,
    result: Result<Dir, ConfigError>,
) -> bool {
    match flag {
        Some(path) => result matches Ok(Dir::At(dir)) && expands_to(path, home_text(home), dir@),
        None => match home {
            HomeView::At(h) => result matches Ok(Dir::At(dir)) && dir@ == join_spec(h, name),
            HomeView::Unspoken => result matches Ok(Dir::BelowHome(n)) && n@ == name,
            HomeView::Missing => result is Err && result->Err_0 is NoHomeDir,
        },
    }
}

/// The directory that a flag and a home directory give.
pub fn resolve_dir_from(flag: Option<&str>, home: &Home, name: &str) -> (result: Result<
    Dir,
    ConfigError,
>)
    ensures
        resolves_to(str_view(flag), home@, name@, result),
{
    match flag {
        Some(path) => Ok(Dir::At(expand_tilde_from(path, spoken(home)))),
        None => match home {
            Home::At(h) => Ok(Dir::At(join(h.as_str(), name))),
            Home::Unspoken => Ok(Dir::BelowHome(name.to_string())),
            Home::Missing => Err(ConfigError::NoHomeDir),
        },
    }
}

/// What a resolved directory is, with some home directory or none.
pub open spec fn is_resolved_dir(
    flag: Option<Seq<char>>,
    name: Seq<char>,
    result: Result<Dir, ConfigError>,
) -> bool {
    exists|home: HomeView| #[trigger] resolves_to(flag, home, name, result)
}

/// The base directory: the flag, or `.mdya` under the home directory.
pub fn resolve_config_dir(flag: Option<&str>) -> (result: Result<Dir, ConfigError>)
    ensures
        is_resolved_dir(str_view(flag), CONFIG_DIR_NAME@, result),
{
    let home: Home = home_dir();
    let result = resolve_dir_from(flag, &home, CONFIG_DIR_NAME);
    proof {
        assert(resolves_to(str_view(flag), home@, CONFIG_DIR_NAME@, result));
    }
    result
}

/// The directory of the model cache: the flag, or `.mdya-models` under the
/// home directory.
pub fn resolve_model_cache_dir(flag: Option<&str>) -> (result: Result<Dir, ConfigError>)
    ensures
        is_resolved_dir(str_view(flag), MODEL_DIR_NAME@, result),
{
    let home: Home = home_dir();
    let result = resolve_dir_from(flag, &home, MODEL_DIR_NAME);
    proof {
        assert(resolves_to(str_view(flag), home@, MODEL_DIR_NAME@, result));
    }
    result
}

/// A flag without a `~` before a separator is taken as it is, whatever the home
/// directory.
pub proof fn plain_flag_is_verbatim(
    path: Seq<char>,
    name: Seq<char>,
    result: Result<Dir, ConfigError>,
)
    requires
        !leads_with_tilde(path),
        !leads_with_backslashed_tilde(path),
        is_resolved_dir(Some(path), name, result),
    ensures
        result matches Ok(Dir::At(dir)) && dir@ == path,
{
}

/// A `~` that leads a path stands for the home directory: alone, or before a
/// slash, it is replaced by the home and what follows it stays; a `~` anywhere
/// else stays, and so does every `~` where there is no home.
pub proof fn tilde_stands_for_the_home(rest: Seq<char>, home: Seq<char>, expanded: Seq<char>)
    requires
        rest.len() == 0 || rest[0] == '/',
    ensures
        expands_to(seq!['~'] + rest, Some(home), expanded) <==> expanded == home + rest,
        expands_to(seq!['~'] + rest, None, expanded) <==> expanded == seq!['~'] + rest,
{
    let path = seq!['~'] + rest;
    assert(path.skip(1) =~= rest);
}

/// A path that leads with no `~` before a separator is taken as it is, whatever
/// the home.
pub proof fn other_paths_stay(path: Seq<char>, home: Option<Seq<char>>, expanded: Seq<char>)
    requires
        path.len() == 0 || path[0] != '~' || (path.len() > 1 && path[1] != '/' && path[1] != '\\'),
    ensures
        expands_to(path, home, expanded) <==> expanded == path,
{
}

/// Without a flag the directory is that of its name in the home; a flag takes
/// precedence, and only without both is there an error.
pub proof fn flag_comes_before_home(
    flag: Option<Seq<char>>,
    home: HomeView,
    name: Seq<char>,
    result: Result<Dir, ConfigError>,
)
    requires
        resolves_to(flag, home, name, result),
    ensures
        result is Err <==> flag is None && home is Missing,
        flag is None && home is At ==> (result matches Ok(Dir::At(dir)) && dir@ == join_spec(
            home->At_0,
            name,
        )),
        flag is None && home is Unspoken ==> (result matches Ok(Dir::BelowHome(n)) && n@ == name),
        flag matches Some(path) ==> (result matches Ok(Dir::At(dir)) && expands_to(
            path,
            home_text(home),
            dir@,
        )),
{
}

} // verus!
