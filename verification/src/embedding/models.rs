//! The models that run on the device: their pins, their files and the checks
//! made when one is loaded.

use crate::embedding::error::EmbedError;
use crate::paths::text_view;
use crate::text::{decimal, decimal_spec, from_chars, to_chars, trim, trim_spec};
use vstd::prelude::*;
use vstd::string::StringExecFns;

verus! {

pub const RURI_V3_30M_MODEL_ID: &'static str = "cl-nagoya/ruri-v3-30m";

/// The commit of the model's repository that is used.
pub const RURI_V3_30M_REVISION: &'static str = "24899e5de370b56d179604a007c0d727bf144504";

/// Length of the model's vectors.
pub const RURI_V3_30M_DIM: usize = 256;

pub const MINILM_L6_V2_MODEL_ID: &'static str = "sentence-transformers/all-MiniLM-L6-v2";

/// The commit of the model's repository that is used.
pub const MINILM_L6_V2_REVISION: &'static str = "1110a243fdf4706b3f48f1d95db1a4f5529b4d41";

/// Length of the model's vectors.
pub const MINILM_L6_V2_DIM: usize = 384;

pub const EMBEDDINGGEMMA_MODEL_ID: &'static str = "google/embeddinggemma-300m";

/// The commit of the model's repository that is used.
pub const EMBEDDINGGEMMA_REVISION: &'static str = "57c266a740f537b4dc058e1b0cda161fd15afa75";

/// Length of the model's vectors.
pub const EMBEDDINGGEMMA_DIM: usize = 768;

/// The architectures that can be loaded on the device.
#[derive(Debug, Clone, Copy, PartialEq, Eq, Structural)]
pub enum OnDeviceModel {
    RuriV3,
    MiniLm,
    EmbeddingGemma,
}

/// What identifies a model's files.
#[derive(Debug, Clone, Copy)]
pub struct ModelPin {
    pub model_id: &'static str,
    pub revision: &'static str,
    pub dim: usize,
}

impl OnDeviceModel {
    /// The model's repository.
    pub open spec fn id_spec(self) -> Seq<char> {
        match self {
            OnDeviceModel::RuriV3 => RURI_V3_30M_MODEL_ID@,
            OnDeviceModel::MiniLm => MINILM_L6_V2_MODEL_ID@,
            OnDeviceModel::EmbeddingGemma => EMBEDDINGGEMMA_MODEL_ID@,
        }
    }

    /// The commit of the repository that is used.
    pub open spec fn revision_spec(self) -> Seq<char> {
        match self {
            OnDeviceModel::RuriV3 => RURI_V3_30M_REVISION@,
            OnDeviceModel::MiniLm => MINILM_L6_V2_REVISION@,
            OnDeviceModel::EmbeddingGemma => EMBEDDINGGEMMA_REVISION@,
        }
    }

    /// The length of the model's vectors.
    pub open spec fn dim_spec(self) -> nat {
        match self {
            OnDeviceModel::RuriV3 => RURI_V3_30M_DIM as nat,
            OnDeviceModel::MiniLm => MINILM_L6_V2_DIM as nat,
            OnDeviceModel::EmbeddingGemma => EMBEDDINGGEMMA_DIM as nat,
        }
    }

    /// The repository, the commit and the vector length of the model.
    pub fn pin(&self) -> (pin: ModelPin)
        ensures
            pin.model_id@ == self.id_spec(),
            pin.revision@ == self.revision_spec(),
            pin.dim == self.dim_spec(),
    {
        match self {
            OnDeviceModel::RuriV3 => ModelPin {
                model_id: RURI_V3_30M_MODEL_ID,
                revision: RURI_V3_30M_REVISION,
                dim: RURI_V3_30M_DIM,
            },
            OnDeviceModel::MiniLm => ModelPin {
                model_id: MINILM_L6_V2_MODEL_ID,
                revision: MINILM_L6_V2_REVISION,
                dim: MINILM_L6_V2_DIM,
            },
            OnDeviceModel::EmbeddingGemma => ModelPin {
                model_id: EMBEDDINGGEMMA_MODEL_ID,
                revision: EMBEDDINGGEMMA_REVISION,
                dim: EMBEDDINGGEMMA_DIM,
            },
        }
    }

    /// The files of the model's repository, in the order in which they are
    /// fetched: configuration, tokenizer, weights, and for EmbeddingGemma the
    /// two dense layers.
    pub open spec fn files_spec(self) -> Seq<Seq<char>> {
        let common = seq!["config.json"@, "tokenizer.json"@, "model.safetensors"@];
        if self is EmbeddingGemma {
            common + seq!["2_Dense/model.safetensors"@, "3_Dense/model.safetensors"@]
        } else {
            common
        }
    }

    /// The files of the model's repository, in the order in which they are
    /// fetched.
    pub fn files(&self) -> (files: Vec<&'static str>)
        ensures
            files@.len() == self.files_spec().len(),
            forall|i: int|
                0 <= i < files@.len() ==> (#[trigger] files@[i])@ == self.files_spec()[i],
    {
        let mut files: Vec<&'static str> = Vec::new();
        files.push("config.json");
        files.push("tokenizer.json");
        files.push("model.safetensors");
        match self {
            OnDeviceModel::EmbeddingGemma => {
                files.push("2_Dense/model.safetensors");
                files.push("3_Dense/model.safetensors");
            },
            _ => {},
        }
        files
    }

    /// The name under which the model looks up the tensor that its weights
    /// file calls `key`: the Ruri weights lack the `model.` that the loader
    /// expects before every key.
    pub fn tensor_key(&self, key: &str) -> (name: String)
        ensures
            name@ == (if *self is RuriV3 {
                "model."@ + key@
            } else {
                key@
            }),
    {
        match self {
            OnDeviceModel::RuriV3 => {
                let mut name: String = "model.".to_string();
                name.append(key);
                name
            },
            _ => key.to_string(),
        }
    }
}

/// The text of the error for a model whose configuration has another vector
/// length than the one that is compiled in.
pub open spec fn hidden_size_message(found: nat, expected: nat, revision: Seq<char>) -> Seq<char> {
    "config.hidden_size="@ + decimal_spec(found) + " disagrees with compiled HIDDEN_SIZE="@
        + decimal_spec(expected) + " (revision "@ + revision + " may have shifted)"@
}

/// Checks the vector length of a model's configuration against the pin.
pub fn check_hidden_size(found: usize, expected: usize, revision: &str) -> (result: Result<
    (),
    EmbedError,
>)
    ensures
        result is Ok <==> found == expected,
        result matches Err(e) ==> e is Forward && e->Forward_0@ == hidden_size_message(
            found as nat,
            expected as nat,
            revision@,
        ),
{
    if found != expected {
        let mut text: String = "config.hidden_size=".to_string();
        text.append(decimal(found as u64).as_str());
        text.append(" disagrees with compiled HIDDEN_SIZE=");
        text.append(decimal(expected as u64).as_str());
        text.append(" (revision ");
        text.append(revision);
        text.append(" may have shifted)");
        return Err(EmbedError::Forward(text));
    }
    Ok(())
}

/// The padding token's id as the tokenizer takes it.
pub fn narrow_pad_id(id: usize) -> (result: Result<u32, EmbedError>)
    ensures
        match result {
            Ok(pad) => id <= u32::MAX && pad == id,
            Err(e) => id > u32::MAX && e is Tokenizer && e->Tokenizer_0@ == "pad_token_id "@
                + decimal_spec(id as nat) + " too large"@,
        },
{
    if id <= 0xffff_ffff {
        Ok(id as u32)
    } else {
        let mut text: String = "pad_token_id ".to_string();
        text.append(decimal(id as u64).as_str());
        text.append(" too large");
        Err(EmbedError::Tokenizer(text))
    }
}

/// The padding token's id of a model that is loaded: its configuration must
/// have the pinned vector length, and an id that the tokenizer can take.
pub fn accept_config(model: OnDeviceModel, hidden_size: usize, pad_token_id: usize) -> (result:
    Result<u32, EmbedError>)
    ensures
        match result {
            Ok(pad) => hidden_size == model.dim_spec() && pad == pad_token_id,
            Err(e) => if hidden_size != model.dim_spec() {
                e is Forward && e->Forward_0@ == hidden_size_message(
                    hidden_size as nat,
                    model.dim_spec(),
                    model.revision_spec(),
                )
            } else {
                pad_token_id > u32::MAX && e is Tokenizer && e->Tokenizer_0@ == "pad_token_id "@
                    + decimal_spec(pad_token_id as nat) + " too large"@
            },
        },
{
    let pin: ModelPin = model.pin();
    match check_hidden_size(hidden_size, pin.dim, pin.revision) {
        Ok(_) => narrow_pad_id(pad_token_id),
        Err(e) => Err(e),
    }
}

/// The padding token that the vocabulary has for `pad_id`, or the error that
/// it has none.
pub fn require_pad_token(pad_id: u32, found: Option<String>) -> (result: Result<
    String,
    EmbedError,
>)
    ensures
        match result {
            Ok(token) => found is Some && token@ == found->Some_0@,
            Err(e) => found is None && e is Tokenizer && e->Tokenizer_0@ == "pad token id "@
                + decimal_spec(pad_id as nat) + " not in vocab"@,
        },
{
    match found {
        Some(token) => Ok(token),
        None => {
            let mut text: String = "pad token id ".to_string();
            text.append(decimal(pad_id as u64).as_str());
            text.append(" not in vocab");
            Err(EmbedError::Tokenizer(text))
        },
    }
}

/// The access token to use, given what the environment holds: the trimmed
/// value, where there is one with any text.
pub open spec fn hf_token_spec(value: Option<Seq<char>>) -> Option<Seq<char>> {
    match value {
        Some(text) => if trim_spec(text).len() > 0 {
            Some(trim_spec(text))
        } else {
            None
        },
        None => None,
    }
}

/// The access token to use, given what the environment holds.
pub fn explicit_hf_token(value: Option<String>) -> (token: Option<String>)
    ensures
        text_view(token) == hf_token_spec(text_view(value)),
{
    match value {
        Some(text) => {
            let trimmed: Vec<char> = trim(to_chars(text.as_str()).as_slice());
            if trimmed.len() > 0 {
                Some(from_chars(trimmed.as_slice()))
            } else {
                None
            }
        },
        None => None,
    }
}

} // verus!
