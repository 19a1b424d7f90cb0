//! The steps by which the configuration file is read and replaced.

use crate::config::error::ConfigError;
use crate::config::schema::{
    first_fault, is_name_error, name_fault, validate_collections, validate_embedding_model, Config,
};
use crate::embedding::model_kind;
use crate::embedding::models::RURI_V3_30M_MODEL_ID;
use vstd::prelude::*;

verus! {

/// Every collection of the configuration has a valid name.
pub open spec fn names_are_valid(config: Config) -> bool {
    forall|j: int|
        0 <= j < config.collections.list().len() ==> name_fault(
            (#[trigger] config.collections.list()[j]).0,
        ) is None
}

/// `result` answers what came out of the file: an error of the read or of the
/// parse is passed on with the file's path; then every collection's name must
/// be valid and the model must select a backend.
pub open spec fn accepts(
    path: Seq<char>,
    read: Result<Result<Config, String>, String>,
    result: Result<Config, ConfigError>,
) -> bool {
    match read {
        Err(e) => result matches Err(ConfigError::Read { path: p, source: s }) && p@ == path && s@
            == e@,
        Ok(Err(e)) => result matches Err(ConfigError::ParseYaml { path: p, source: s }) && p@
            == path && s@ == e@,
        Ok(Ok(config)) => match result {
            Ok(accepted) => {
                &&& accepted == config
                &&& names_are_valid(config)
                &&& model_kind(config.embedding.model@) is Some
            },
            Err(e) => if names_are_valid(config) {
                &&& model_kind(config.embedding.model@) is None
                &&& e is UnsupportedEmbeddingModel
                &&& e->model@ == config.embedding.model@
                &&& e->supported@ == RURI_V3_30M_MODEL_ID@
            } else {
                exists|i: int| #[trigger]
                    first_fault(config.collections.list(), i) && is_name_error(
                        e,
                        config.collections.list()[i].0,
                        name_fault(config.collections.list()[i].0)->Some_0,
                    )
            },
        },
    }
}

/// The configuration out of a file.
pub fn accept_loaded(path: &str, read: Result<Result<Config, String>, String>) -> (result: Result<
    Config,
    ConfigError,
>)
    ensures
        accepts(path@, read, result),
{
    match read {
        Err(source) => Err(ConfigError::Read { path: path.to_string(), source }),
        Ok(Err(source)) => Err(ConfigError::ParseYaml { path: path.to_string(), source }),
        Ok(Ok(config)) => match validate_collections(&config.collections) {
            Ok(_) => match validate_embedding_model(config.embedding.model.as_str()) {
                Ok(_) => Ok(config),
                Err(e) => Err(e),
            },
            Err(e) => Err(e),
        },
    }
}

/// What to do next while the file is replaced. The new text goes to a file
/// beside it first, so that the old one stays whole until the rename.
#[derive(Debug)]
pub enum SaveStep {
    /// Write the text to the file beside.
    WriteTemp,
    /// Rename the file beside to the file itself.
    Rename,
    /// Remove the file beside, then report the error.
    RemoveTemp(ConfigError),
    /// Report.
    Done(Result<(), ConfigError>),
}

/// `next` is the step after `step`, given how `step` went.
pub open spec fn save_follows(
    step: SaveStep,
    path: Seq<char>,
    temp: Seq<char>,
    outcome: Result<(), String>,
    next: SaveStep,
) -> bool {
    match step {
        SaveStep::WriteTemp => match outcome {
            Ok(_) => next is Rename,
            Err(e) => next matches SaveStep::Done(
                Err(ConfigError::Write { path: p, source: s }),
            ) && p@ == temp && s@ == e@,
        },
        SaveStep::Rename => match outcome {
            Ok(_) => next matches SaveStep::Done(Ok(_)),
            Err(e) => next matches SaveStep::RemoveTemp(
                ConfigError::Write { path: p, source: s },
            ) && p@ == path && s@ == e@,
        },
        SaveStep::RemoveTemp(e) => next == SaveStep::Done(Err(e)),
        SaveStep::Done(_) => next == step,
    }
}

/// The step after `step`, given how `step` went.
pub fn next_save_step(
    step: SaveStep,
    path: &str,
    temp: &str,
    outcome: Result<(), String>,
) -> (next: SaveStep)
    ensures
        save_follows(step, path@, temp@, outcome, next),
{
    match step {
        SaveStep::WriteTemp => match outcome {
            Ok(_) => SaveStep::Rename,
            Err(source) => SaveStep::Done(
                Err(ConfigError::Write { path: temp.to_string(), source }),
            ),
        },
        SaveStep::Rename => match outcome {
            Ok(_) => SaveStep::Done(Ok(())),
            Err(source) => SaveStep::RemoveTemp(
                ConfigError::Write { path: path.to_string(), source },
            ),
        },
        SaveStep::RemoveTemp(e) => SaveStep::Done(Err(e)),
        SaveStep::Done(result) => SaveStep::Done(result),
    }
}

/// A configuration is accepted exactly where the file was read and parsed, every
/// name is valid and the model is supported; it is then handed on as it is.
pub proof fn valid_configurations_load(
    path: Seq<char>,
    read: Result<Result<Config, String>, String>,
    result: Result<Config, ConfigError>,
)
    requires
        accepts(path, read, result),
    ensures
        result is Ok <==> (read matches Ok(Ok(config)) && names_are_valid(config) && model_kind(
            config.embedding.model@,
        ) is Some),
        result is Ok ==> read == Ok::<Result<Config, String>, String>(
            Ok::<Config, String>(result->Ok_0),
        ),
{
    if let Ok(Ok(config)) = read {
        if result is Err && !names_are_valid(config) {
            let i = choose|i: int| #[trigger] first_fault(config.collections.list(), i);
        }
    }
}

/// The old file stays whole until the new text is written beside it: success is
/// reported only where both the write and the rename went well, a failed write
/// is reported for the file beside, and a failed rename for the file itself,
/// with the file beside removed first.
pub proof fn save_keeps_the_old_file(
    path: Seq<char>,
    temp: Seq<char>,
    written: Result<(), String>,
    second: SaveStep,
    renamed: Result<(), String>,
    third: SaveStep,
    removed: Result<(), String>,
    last: SaveStep,
)
    requires
        save_follows(SaveStep::WriteTemp, path, temp, written, second),
        second is Rename ==> save_follows(second, path, temp, renamed, third),
        second is Done ==> third == second,
        third is RemoveTemp ==> save_follows(third, path, temp, removed, last),
        third is Done ==> last == third,
    ensures
        second is Rename <==> written is Ok,
        third is RemoveTemp <==> written is Ok && renamed is Err,
        last matches SaveStep::Done(result) && (result is Ok <==> written is Ok && renamed is Ok),
        written matches Err(e) ==> (last matches SaveStep::Done(
            Err(ConfigError::Write { path: p, source }),
        ) && p@ == temp && source@ == e@),
        written is Ok && renamed is Err ==> (last matches SaveStep::Done(
            Err(ConfigError::Write { path: p, source }),
        ) && p@ == path && source@ == renamed->Err_0@),
{
}

} // verus!
