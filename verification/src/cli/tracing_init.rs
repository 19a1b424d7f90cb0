//! What is logged, and how.

use crate::config::dirs::str_view;
use crate::paths::text_view;
use vstd::prelude::*;

verus! {

/// The level where nothing says otherwise.
pub const DEFAULT_LEVEL: &'static str = "warn";

/// How log lines are written.
#[derive(Debug, Clone, Copy, PartialEq, Eq, Structural)]
pub enum LogFormat {
    Compact,
    Pretty,
    Json,
}

impl Default for LogFormat {
    fn default() -> (format: Self)
        ensures
            format is Compact,
    {
        LogFormat::Compact
    }
}

/// What the command line says of the log.
#[derive(Debug)]
pub struct TracingOptions<'a> {
    pub level_flag: Option<&'a str>,
    pub format: LogFormat,
    pub no_color: bool,
}

/// The directive of the log: that of the flag, else that of the environment
/// where it has any text, else the default.
pub open spec fn directive(flag: Option<Seq<char>>, env: Option<Seq<char>>) -> Seq<char> {
    match flag {
        Some(level) => level,
        None => match env {
            Some(value) => if value.len() > 0 {
                value
            } else {
                DEFAULT_LEVEL@
            },
            None => DEFAULT_LEVEL@,
        },
    }
}

/// The directive of the log, given the flag and the environment.
pub fn resolve_filter_from(flag: Option<&str>, env_value: Option<String>) -> (chosen: String)
    ensures
        chosen@ == directive(str_view(flag), text_view(env_value)),
{
    if let Some(level) = flag {
        return level.to_string();
    }
    if let Some(value) = env_value {
        if !value.as_str().is_empty() {
            return value;
        }
    }
    DEFAULT_LEVEL.to_string()
}

/// Whether log lines are coloured: not with the flag, nor with `NO_COLOR` in
/// the environment, else where the errors go to a terminal.
pub fn resolve_ansi(no_color: bool, no_color_env: bool, stderr_is_terminal: bool) -> (yes: bool)
    ensures
        yes == (!no_color && !no_color_env && stderr_is_terminal),
{
    if no_color {
        return false;
    }
    if no_color_env {
        return false;
    }
    stderr_is_terminal
}

} // verus!
