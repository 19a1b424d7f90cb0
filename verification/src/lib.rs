//! Search over local Markdown collections: how documents are cut into chunks,
//! how the index is kept in step with the files, and how what is stored is
//! looked up, reported and offered to other programs.
//!
//! - [`text`], [`order`] and [`paths`] hold the primitives, [`reading`] what a
//!   reader takes back out of a text;
//! - [`extract`], [`format`](mod@format) and [`chunking`] turn the bytes of a
//!   file into chunks;
//! - [`config`] and [`embedding`] hold the settings and the models;
//! - [`ingest`] decides what a run reads, writes and removes;
//! - [`get`], [`search`] and [`introspect`] answer what is asked of the index;
//! - [`cli`], [`mcp`] and [`runtime`] hold the rules of the program around it.

pub mod chunking;
pub mod cli;
pub mod config;
pub mod embedding;
pub mod extract;
pub mod format;
pub mod get;
pub mod ingest;
pub mod introspect;
pub mod mcp;
pub mod order;
pub mod paths;
pub mod reading;
pub mod runtime;
pub mod search;
pub mod text;
