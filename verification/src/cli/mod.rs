//! The commands of the program: what can be asked for, and what each asks of
//! the rest.

pub mod collection;
pub mod dim;
pub mod get;
pub mod init;
pub mod log_writer;
pub mod search;
pub mod stress;
pub mod tracing_init;
pub mod update_all;
pub mod vector;

pub use crate::cli::tracing_init::{LogFormat, TracingOptions};

use crate::cli::stress::StressCommand;
use crate::config::error::ConfigError;
use crate::config::schema::{Config, DEFAULT_MEMORY_LIMIT_MB};
use crate::embedding::error::with_label;
use vstd::prelude::*;

verus! {

/// The command line.
#[derive(Debug)]
pub struct Cli {
    pub config_dir: Option<String>,
    pub model_cache_dir: Option<String>,
    pub log_level: Option<String>,
    pub log_format: LogFormat,
    pub no_color: bool,
    pub command: Command,
}

/// What is asked for.
#[derive(Debug)]
pub enum Command {
    Init,
    Collection(CollectionCommand),
    UpdateAll,
    Search(SearchCommand),
    Vector(VectorCommand),
    Get { collection: String, path: String, chunk: Option<u32>, no_size_limit: bool },
    Version,
    Status { format: OutputFormat },
    Mcp { http: bool, addr: String },
    Stress(StressCommand),
}

/// What is asked for of the collections.
#[derive(Debug)]
pub enum CollectionCommand {
    Add { path: String, name: Option<String>, description: Option<String> },
    List { format: OutputFormat },
}

/// What is searched by.
#[derive(Debug)]
pub enum SearchCommand {
    Fts(SearchArgs),
    Vector(SearchArgs),
    Hybrid(SearchArgs),
}

/// What is asked for of the vectors.
#[derive(Debug)]
pub enum VectorCommand {
    Use { model: String, yes: bool },
}

/// How results are written.
#[derive(Debug, Clone, Copy, PartialEq, Eq, Structural)]
pub enum OutputFormat {
    Human,
    Json,
    Md,
    Xml,
}

/// The arguments of every search.
#[derive(Debug)]
pub struct SearchArgs {
    pub query: String,
    pub collections: Vec<String>,
    pub limit: u32,
    pub chunks: bool,
    pub format: OutputFormat,
}

/// What the command line asks the rest of the program to do. Only what uses a
/// model gets the directory of the models.
#[derive(Debug)]
pub enum Task {
    Init { config_dir: Option<String> },
    AddCollection {
        config_dir: Option<String>,
        path: String,
        name: Option<String>,
        description: Option<String>,
    },
    ListCollections { config_dir: Option<String>, format: OutputFormat },
    UpdateAll { config_dir: Option<String>, model_cache_dir: Option<String> },
    SearchFts { config_dir: Option<String>, args: SearchArgs, no_color: bool },
    SearchVector {
        config_dir: Option<String>,
        model_cache_dir: Option<String>,
        args: SearchArgs,
        no_color: bool,
    },
    SearchHybrid {
        config_dir: Option<String>,
        model_cache_dir: Option<String>,
        args: SearchArgs,
        no_color: bool,
    },
    UseModel {
        config_dir: Option<String>,
        model_cache_dir: Option<String>,
        model: String,
        yes: bool,
    },
    Get {
        config_dir: Option<String>,
        collection: String,
        path: String,
        chunk: Option<u32>,
        no_size_limit: bool,
    },
    Version,
    Status { config_dir: Option<String>, format: OutputFormat },
    ServeHttp { config_dir: Option<String>, model_cache_dir: Option<String>, addr: String },
    ServeStdio { config_dir: Option<String>, model_cache_dir: Option<String> },
    Stress(StressCommand),
}

/// What the command line asks for.
pub open spec fn task_of(cli: Cli) -> Task {
    let config_dir = cli.config_dir;
    let model_cache_dir = cli.model_cache_dir;
    match cli.command {
        Command::Init => Task::Init { config_dir },
        Command::Collection(CollectionCommand::Add { path, name, description }) => {
            Task::AddCollection { config_dir, path, name, description }
        },
        Command::Collection(CollectionCommand::List { format }) => Task::ListCollections {
            config_dir,
            format,
        },
        Command::UpdateAll => Task::UpdateAll { config_dir, model_cache_dir },
        Command::Search(SearchCommand::Fts(args)) => Task::SearchFts {
            config_dir,
            args,
            no_color: cli.no_color,
        },
        Command::Search(SearchCommand::Vector(args)) => Task::SearchVector {
            config_dir,
            model_cache_dir,
            args,
            no_color: cli.no_color,
        },
        Command::Search(SearchCommand::Hybrid(args)) => Task::SearchHybrid {
            config_dir,
            model_cache_dir,
            args,
            no_color: cli.no_color,
        },
        Command::Vector(VectorCommand::Use { model, yes }) => Task::UseModel {
            config_dir,
            model_cache_dir,
            model,
            yes,
        },
        Command::Get { collection, path, chunk, no_size_limit } => Task::Get {
            config_dir,
            collection,
            path,
            chunk,
            no_size_limit,
        },
        Command::Version => Task::Version,
        Command::Status { format } => Task::Status { config_dir, format },
        Command::Mcp { http, addr } => if http {
            Task::ServeHttp { config_dir, model_cache_dir, addr }
        } else {
            Task::ServeStdio { config_dir, model_cache_dir }
        },
        Command::Stress(cmd) => Task::Stress(cmd),
    }
}

impl Cli {
    /// What the command line asks for.
    pub fn run(self) -> (task: Task)
        ensures
            task == task_of(self),
    {
        let config_dir: Option<String> = self.config_dir;
        let model_cache_dir: Option<String> = self.model_cache_dir;
        let no_color: bool = self.no_color;
        match self.command {
            Command::Init => Task::Init { config_dir },
            Command::Collection(CollectionCommand::Add { path, name, description }) => {
                Task::AddCollection { config_dir, path, name, description }
            },
            Command::Collection(CollectionCommand::List { format }) => Task::ListCollections {
                config_dir,
                format,
            },
            Command::UpdateAll => Task::UpdateAll { config_dir, model_cache_dir },
            Command::Search(SearchCommand::Fts(args)) => Task::SearchFts {
                config_dir,
                args,
                no_color,
            },
            Command::Search(SearchCommand::Vector(args)) => Task::SearchVector {
                config_dir,
                model_cache_dir,
                args,
                no_color,
            },
            Command::Search(SearchCommand::Hybrid(args)) => Task::SearchHybrid {
                config_dir,
                model_cache_dir,
                args,
                no_color,
            },
            Command::Vector(VectorCommand::Use { model, yes }) => Task::UseModel {
                config_dir,
                model_cache_dir,
                model,
                yes,
            },
            Command::Get { collection, path, chunk, no_size_limit } => Task::Get {
                config_dir,
                collection,
                path,
                chunk,
                no_size_limit,
            },
            Command::Version => Task::Version,
            Command::Status { format } => Task::Status { config_dir, format },
            Command::Mcp { http, addr } => if http {
                Task::ServeHttp { config_dir, model_cache_dir, addr }
            } else {
                Task::ServeStdio { config_dir, model_cache_dir }
            },
            Command::Stress(cmd) => Task::Stress(cmd),
        }
    }
}

/// The line that tells the version.
pub fn version_line(version: &str) -> (text: String)
    ensures
        text@ == "mdya v"@ + version@,
{
    with_label("mdya v", version)
}

/// Whether output is coloured: not with the flag, nor with `NO_COLOR` in the
/// environment, else where the errors go to a terminal.
pub fn color_enabled(no_color_flag: bool, no_color_env: bool, stderr_is_terminal: bool) -> (yes:
    bool)
    ensures
        yes == (!no_color_flag && !no_color_env && stderr_is_terminal),
{
    if no_color_flag || no_color_env {
        return false;
    }
    stderr_is_terminal
}

/// The memory limit to watch: that of the configuration, or the default where
/// the configuration cannot be had.
pub fn read_memory_limit_mb(loaded: Result<&Config, ConfigError>) -> (limit_mb: u64)
    ensures
        limit_mb == match loaded {
            Ok(config) => config.runtime.memory_limit_mb,
            Err(_) => DEFAULT_MEMORY_LIMIT_MB,
        },
{
    match loaded {
        Ok(config) => config.runtime.memory_limit_mb,
        Err(_) => DEFAULT_MEMORY_LIMIT_MB,
    }
}

/// The base directory that a task is given, where it has one.
pub open spec fn base_flag(task: Task) -> Option<Option<String>> {
    match task {
        Task::Init { config_dir } => Some(config_dir),
        Task::AddCollection { config_dir, .. } => Some(config_dir),
        Task::ListCollections { config_dir, .. } => Some(config_dir),
        Task::UpdateAll { config_dir, .. } => Some(config_dir),
        Task::SearchFts { config_dir, .. } => Some(config_dir),
        Task::SearchVector { config_dir, .. } => Some(config_dir),
        Task::SearchHybrid { config_dir, .. } => Some(config_dir),
        Task::UseModel { config_dir, .. } => Some(config_dir),
        Task::Get { config_dir, .. } => Some(config_dir),
        Task::Status { config_dir, .. } => Some(config_dir),
        Task::ServeHttp { config_dir, .. } => Some(config_dir),
        Task::ServeStdio { config_dir, .. } => Some(config_dir),
        Task::Version => None,
        Task::Stress(_) => None,
    }
}

/// The model cache that a task is given, where it has one.
pub open spec fn cache_flag(task: Task) -> Option<Option<String>> {
    match task {
        Task::UpdateAll { model_cache_dir, .. } => Some(model_cache_dir),
        Task::SearchVector { model_cache_dir, .. } => Some(model_cache_dir),
        Task::SearchHybrid { model_cache_dir, .. } => Some(model_cache_dir),
        Task::UseModel { model_cache_dir, .. } => Some(model_cache_dir),
        Task::ServeHttp { model_cache_dir, .. } => Some(model_cache_dir),
        Task::ServeStdio { model_cache_dir, .. } => Some(model_cache_dir),
        _ => None,
    }
}

/// The flags that hold for every command reach its task: the base directory all
/// tasks but two, which need none, and the model cache every task that embeds.
pub proof fn flags_reach_the_task(cli: Cli)
    ensures
        base_flag(task_of(cli)) == (if cli.command is Version || cli.command is Stress {
            None
        } else {
            Some(cli.config_dir)
        }),
        cache_flag(task_of(cli)) matches Some(dir) ==> dir == cli.model_cache_dir,
        cache_flag(task_of(cli)) is Some <==> {
            ||| cli.command is UpdateAll
            ||| cli.command is Vector
            ||| cli.command is Mcp
            ||| cli.command matches Command::Search(s) && !(s is Fts)
        },
{
}

/// Each command has a task of its own, with the arguments that were given.
pub proof fn arguments_reach_the_task(cli: Cli)
    ensures
        cli.command matches Command::Search(SearchCommand::Fts(a)) ==> (task_of(cli) matches Task::SearchFts {
            args,
            no_color,
            ..
        } && args == a && no_color == cli.no_color),
        cli.command matches Command::Search(SearchCommand::Vector(a)) ==> (task_of(
            cli,
        ) matches Task::SearchVector { args, no_color, .. } && args == a && no_color
            == cli.no_color),
        cli.command matches Command::Search(SearchCommand::Hybrid(a)) ==> (task_of(
            cli,
        ) matches Task::SearchHybrid { args, no_color, .. } && args == a && no_color
            == cli.no_color),
        cli.command matches Command::Vector(VectorCommand::Use { model: m, yes: y }) ==> (task_of(
            cli,
        ) matches Task::UseModel { model, yes, .. } && model == m && yes == y),
        cli.command matches Command::Get { collection: c, path: p, chunk: n, no_size_limit: u }
            ==> (task_of(cli) matches Task::Get { collection, path, chunk, no_size_limit, .. }
            && collection == c && path == p && chunk == n && no_size_limit == u),
        cli.command matches Command::Mcp { http, addr: a } ==> (if http {
            task_of(cli) matches Task::ServeHttp { addr, .. } && addr == a
        } else {
            task_of(cli) is ServeStdio
        }),
        cli.command matches Command::Collection(
            CollectionCommand::Add { path: p, name: n, description: d },
        ) ==> (task_of(cli) matches Task::AddCollection { path, name, description, .. } && path == p
            && name == n && description == d),
{
}

} // verus!
