//! Embedding models: which ones are known, how their inputs are prepared and
//! how what they return is checked.

pub mod cache;
pub mod error;
pub mod gemma;
pub mod models;
pub mod ollama;
pub mod tokens;

pub use crate::embedding::cache::ModelCacheError;
pub use crate::embedding::error::EmbedError;
pub use crate::embedding::models::{
    RURI_V3_30M_DIM, RURI_V3_30M_MODEL_ID, RURI_V3_30M_REVISION,
};
pub use crate::embedding::ollama::OLLAMA_PREFIX;

use crate::text::{same_text, starts_with};
use vstd::prelude::*;
use vstd::string::StringExecFns;

verus! {

/// What a model wants before the text of a query and of a passage.
#[derive(Debug, Clone, Copy)]
pub struct RetrievalPrefixes {
    pub query: &'static str,
    pub passage: &'static str,
}

impl RetrievalPrefixes {
    /// The pair of prefixes.
    pub fn new(query: &'static str, passage: &'static str) -> (prefixes: Self)
        ensures
            prefixes.query@ == query@,
            prefixes.passage@ == passage@,
    {
        RetrievalPrefixes { query, passage }
    }

    /// `text` as a query.
    pub fn apply_query(&self, text: &str) -> (prefixed: String)
        ensures
            prefixed@ == self.query@ + text@,
    {
        let mut prefixed: String = self.query.to_string();
        prefixed.append(text);
        prefixed
    }

    /// `text` as a passage.
    pub fn apply_passage(&self, text: &str) -> (prefixed: String)
        ensures
            prefixed@ == self.passage@ + text@,
    {
        let mut prefixed: String = self.passage.to_string();
        prefixed.append(text);
        prefixed
    }
}

/// A model that runs on the device.
#[derive(Debug, Clone, Copy)]
pub struct OnDevicePreset {
    /// The value of `embedding.model` that selects it.
    pub model_id: &'static str,
    pub prefixes: RetrievalPrefixes,
    /// Length of its vectors.
    pub dim: usize,
}

/// The one model that runs on the device.
pub open spec fn is_ruri(preset: OnDevicePreset) -> bool {
    &&& preset.model_id@ == RURI_V3_30M_MODEL_ID@
    &&& preset.prefixes.query@ == "検索クエリ: "@
    &&& preset.prefixes.passage@ == "検索文書: "@
    &&& preset.dim == RURI_V3_30M_DIM
}

/// The models that run on the device, all of them.
pub fn on_device_presets() -> (presets: Vec<OnDevicePreset>)
    ensures
        presets@.len() == 1,
        is_ruri(presets@[0]),
{
    let mut presets: Vec<OnDevicePreset> = Vec::new();
    presets.push(
        OnDevicePreset {
            model_id: RURI_V3_30M_MODEL_ID,
            prefixes: RetrievalPrefixes::new("検索クエリ: ", "検索文書: "),
            dim: RURI_V3_30M_DIM,
        },
    );
    presets
}

/// The model of this id that runs on the device.
pub fn find_on_device_preset(model: &str) -> (found: Option<OnDevicePreset>)
    ensures
        match found {
            Some(preset) => model@ == RURI_V3_30M_MODEL_ID@ && is_ruri(preset),
            None => model@ != RURI_V3_30M_MODEL_ID@,
        },
{
    let presets: Vec<OnDevicePreset> = on_device_presets();
    for i in 0..presets.len()
        invariant
            presets@.len() == 1,
            is_ruri(presets@[0]),
            i == 1 ==> model@ != RURI_V3_30M_MODEL_ID@,
    {
        if same_text(presets[i].model_id, model) {
            return Some(presets[i]);
        }
    }
    None
}

/// The length of the vectors of a model that runs on the device.
pub fn on_device_dim(model: &str) -> (dim: Option<usize>)
    ensures
        dim == (if model@ == RURI_V3_30M_MODEL_ID@ {
            Some(RURI_V3_30M_DIM)
        } else {
            None
        }),
{
    match find_on_device_preset(model) {
        Some(preset) => Some(preset.dim),
        None => None,
    }
}

/// The ids of the models that run on the device.
pub fn on_device_model_ids() -> (ids: Vec<&'static str>)
    ensures
        ids@.len() == 1,
        ids@[0]@ == RURI_V3_30M_MODEL_ID@,
{
    let presets: Vec<OnDevicePreset> = on_device_presets();
    let mut ids: Vec<&'static str> = Vec::new();
    for i in 0..presets.len()
        invariant
            presets@.len() == 1,
            is_ruri(presets@[0]),
            ids@.len() == i,
            i == 1 ==> ids@[0]@ == RURI_V3_30M_MODEL_ID@,
    {
        ids.push(presets[i].model_id);
    }
    ids
}

/// What a value of `embedding.model` selects.
#[derive(Debug, Clone, Copy, PartialEq, Eq, Structural)]
pub enum ModelKind {
    OnDevice,
    Ollama,
}

/// What a value of `embedding.model` selects: a known model on the device, or
/// an Ollama model by its prefix; any other value selects nothing.
pub open spec fn model_kind(model: Seq<char>) -> Option<ModelKind> {
    if model == RURI_V3_30M_MODEL_ID@ {
        Some(ModelKind::OnDevice)
    } else if OLLAMA_PREFIX@.is_prefix_of(model) {
        Some(ModelKind::Ollama)
    } else {
        None
    }
}

/// What a value of `embedding.model` selects.
pub fn classify_model(model: &str) -> (kind: Option<ModelKind>)
    ensures
        kind == model_kind(model@),
{
    if find_on_device_preset(model).is_some() {
        Some(ModelKind::OnDevice)
    } else if starts_with(model, OLLAMA_PREFIX) {
        Some(ModelKind::Ollama)
    } else {
        None
    }
}

/// Whether a value of `embedding.model` selects anything.
pub fn is_supported_model(model: &str) -> (yes: bool)
    ensures
        yes == model_kind(model@) is Some,
{
    classify_model(model).is_some()
}

/// The backend to build for a value of `embedding.model`; an error that names
/// the value where it selects none.
pub fn select_backend(model: &str) -> (result: Result<ModelKind, EmbedError>)
    ensures
        match result {
            Ok(kind) => model_kind(model@) == Some(kind),
            Err(e) => model_kind(model@) is None && e is UnsupportedModel
                && e->UnsupportedModel_0@ == model@,
        },
{
    match classify_model(model) {
        Some(kind) => Ok(kind),
        None => Err(EmbedError::UnsupportedModel(model.to_string())),
    }
}

/// The texts of a list, by their views.
pub open spec fn texts_view(texts: Seq<String>) -> Seq<Seq<char>> {
    texts.map_values(|t: String| t@)
}

/// Every text as a query of the model.
pub fn prefix_queries(prefixes: &RetrievalPrefixes, texts: &[String]) -> (out: Vec<String>)
    ensures
        texts_view(out@) == texts_view(texts@).map_values(|t: Seq<char>| prefixes.query@ + t),
{
    let mut out: Vec<String> = Vec::new();
    for i in 0..texts.len()
        invariant
            out@.len() == i,
            forall|j: int|
                0 <= j < i ==> (#[trigger] out@[j])@ == prefixes.query@ + texts@[j]@,
    {
        out.push(prefixes.apply_query(texts[i].as_str()));
    }
    proof {
        assert(texts_view(out@) =~= texts_view(texts@).map_values(
            |t: Seq<char>| prefixes.query@ + t,
        ));
    }
    out
}

/// Every text as a passage of the model.
pub fn prefix_passages(prefixes: &RetrievalPrefixes, texts: &[String]) -> (out: Vec<String>)
    ensures
        texts_view(out@) == texts_view(texts@).map_values(|t: Seq<char>| prefixes.passage@ + t),
{
    let mut out: Vec<String> = Vec::new();
    for i in 0..texts.len()
        invariant
            out@.len() == i,
            forall|j: int|
                0 <= j < i ==> (#[trigger] out@[j])@ == prefixes.passage@ + texts@[j]@,
    {
        out.push(prefixes.apply_passage(texts[i].as_str()));
    }
    proof {
        assert(texts_view(out@) =~= texts_view(texts@).map_values(
            |t: Seq<char>| prefixes.passage@ + t,
        ));
    }
    out
}

/// Every model that runs on the device is supported.
pub proof fn on_device_is_supported(preset: OnDevicePreset)
    requires
        is_ruri(preset),
    ensures
        model_kind(preset.model_id@) == Some(ModelKind::OnDevice),
{
}

/// Every value with the Ollama prefix is supported, whatever follows it.
pub proof fn ollama_is_supported(name: Seq<char>)
    ensures
        model_kind(OLLAMA_PREFIX@ + name) == Some(ModelKind::Ollama),
{
    reveal_strlit("ollama:");
    reveal_strlit("cl-nagoya/ruri-v3-30m");
    let model = OLLAMA_PREFIX@ + name;
    assert(OLLAMA_PREFIX@.is_prefix_of(model));
    assert(model[0] == 'o');
    assert(RURI_V3_30M_MODEL_ID@[0] == 'c');
}

/// A model is supported exactly where its name is that of the model on the device
/// or starts with the prefix of the Ollama backend.
pub proof fn supported_models(model: Seq<char>)
    ensures
        model_kind(model) is Some <==> model == "cl-nagoya/ruri-v3-30m"@ || "ollama:"@.is_prefix_of(
            model,
        ),
        model_kind(model) == Some(ModelKind::OnDevice) <==> model == "cl-nagoya/ruri-v3-30m"@,
{
    reveal_strlit("ollama:");
    reveal_strlit("cl-nagoya/ruri-v3-30m");
}

/// `out` are `texts` with `prefix` before each.
pub open spec fn are_prefixed(
    prefix: Seq<char>,
    texts: Seq<Seq<char>>,
    out: Seq<Seq<char>>,
) -> bool {
    &&& out.len() == texts.len()
    &&& forall|i: int|
        0 <= i < texts.len() ==> {
            &&& prefix.is_prefix_of(#[trigger] out[i])
            &&& out[i].skip(prefix.len() as int) == texts[i]
        }
}

/// Every text gets the prefix, however many there are, and keeps its place; what
/// follows the prefix is the text itself.
pub proof fn every_text_is_prefixed(prefix: Seq<char>, texts: Seq<Seq<char>>)
    ensures
        are_prefixed(prefix, texts, texts.map_values(|t: Seq<char>| prefix + t)),
{
    let out = texts.map_values(|t: Seq<char>| prefix + t);
    assert forall|i: int| 0 <= i < texts.len() implies {
        &&& prefix.is_prefix_of(#[trigger] out[i])
        &&& out[i].skip(prefix.len() as int) == texts[i]
    } by {
        assert(out[i].skip(prefix.len() as int) =~= texts[i]);
    }
}

} // verus!
