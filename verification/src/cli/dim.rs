//! The vector length that the configuration declares, and where it comes from.

use crate::embedding::error::with_label;
use crate::embedding::models::{RURI_V3_30M_DIM, RURI_V3_30M_MODEL_ID};
use crate::embedding::ollama::OLLAMA_PREFIX;
use crate::embedding::{on_device_dim, EmbedError};
use crate::text::{
    decimal, decimal_spec, parse_i32, parse_int_spec, starts_with,
};
use vstd::prelude::*;
use vstd::string::StringExecFns;

verus! {

/// Why the vector length is not known.
#[derive(Debug)]
pub enum DimError {
    Embed(EmbedError),
    Lance(String),
    Store(String),
    DimOverflow(usize),
}

impl DimError {
    /// The text shown to the user.
    pub open spec fn message_spec(self) -> Seq<char> {
        match self {
            DimError::Embed(e) => e.message_spec(),
            DimError::Lance(t) => "read the vector_dim pin from the chunks table: "@ + t@,
            DimError::Store(t) => "connect the index db to read the vector_dim pin: "@ + t@,
            DimError::DimOverflow(dim) => "ollama vector dim "@ + decimal_spec(dim as nat)
                + " does not fit in i32"@,
        }
    }

    /// The text shown to the user.
    pub fn message(&self) -> (text: String)
        ensures
            text@ == self.message_spec(),
    {
        match self {
            DimError::Embed(e) => e.message(),
            DimError::Lance(t) => with_label("read the vector_dim pin from the chunks table: ", t),
            DimError::Store(t) => with_label(
                "connect the index db to read the vector_dim pin: ",
                t,
            ),
            DimError::DimOverflow(dim) => {
                let mut text: String = with_label(
                    "ollama vector dim ",
                    decimal(*dim as u64).as_str(),
                );
                text.append(" does not fit in i32");
                text
            },
        }
    }
}

/// Where the vector length comes from.
#[derive(Debug, Clone, Copy, PartialEq, Eq, Structural)]
pub enum DimSource {
    /// It is known.
    Known(i32),
    /// The pin of the table tells it, where there is one.
    ReadPin,
    /// The server is asked.
    Probe,
}

/// Where the vector length of a model comes from: it is compiled in for a model
/// on the device; for an Ollama model the table is asked first.
pub fn declared_dim_source(model: &str) -> (result: Result<DimSource, DimError>)
    ensures
        match result {
            Ok(source) => source == (if OLLAMA_PREFIX@.is_prefix_of(model@) {
                DimSource::ReadPin
            } else {
                DimSource::Known(RURI_V3_30M_DIM as i32)
            }) && (OLLAMA_PREFIX@.is_prefix_of(model@) || model@ == RURI_V3_30M_MODEL_ID@),
            Err(e) => {
                &&& !OLLAMA_PREFIX@.is_prefix_of(model@)
                &&& model@ != RURI_V3_30M_MODEL_ID@
                &&& e matches DimError::Embed(EmbedError::UnsupportedModel(m))
                &&& m@ == model@
            },
        },
{
    if starts_with(model, OLLAMA_PREFIX) {
        return Ok(DimSource::ReadPin);
    }
    match on_device_dim(model) {
        Some(dim) => Ok(DimSource::Known(dim as i32)),
        None => Err(DimError::Embed(EmbedError::UnsupportedModel(model.to_string()))),
    }
}

/// What the pin of the table tells: the length that it spells. Without a pin,
/// or with one that is no number, the server is asked.
pub fn dim_from_pin(pin: Option<&str>) -> (source: DimSource)
    ensures
        match pin {
            Some(text) => match parse_int_spec(text@) {
                Some(n) => if i32::MIN <= n <= i32::MAX {
                    source == DimSource::Known(n as i32)
                } else {
                    source is Probe
                },
                None => source is Probe,
            },
            None => source is Probe,
        },
{
    match pin {
        Some(text) => match parse_i32(text) {
            Some(dim) => DimSource::Known(dim),
            None => DimSource::Probe,
        },
        None => DimSource::Probe,
    }
}

/// The length that the server told, as the table pins it.
pub fn dim_from_server(dim: usize) -> (result: Result<i32, DimError>)
    ensures
        match result {
            Ok(d) => d == dim,
            Err(e) => dim > i32::MAX && e == DimError::DimOverflow(dim),
        },
{
    if dim <= 0x7fff_ffff {
        Ok(dim as i32)
    } else {
        Err(DimError::DimOverflow(dim))
    }
}

} // verus!
