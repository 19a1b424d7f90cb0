//! The files of a model, fetched one after the other.

use crate::config::error::labelled;
use crate::embedding::error::{with_label, EmbedError};
use crate::embedding::models::OnDeviceModel;
use vstd::prelude::*;

verus! {

/// Why a model's file could not be had.
#[derive(Debug)]
pub enum ModelCacheError {
    Init(String),
    Fetch { filename: String, source: String },
}

impl ModelCacheError {
    /// The text shown to the user.
    pub open spec fn message_spec(self) -> Seq<char> {
        match self {
            ModelCacheError::Init(t) => "hf-hub init: "@ + t@,
            ModelCacheError::Fetch { filename, source } => "fetch "@ + filename@ + ": "@ + source@,
        }
    }

    /// The text shown to the user.
    pub fn message(&self) -> (text: String)
        ensures
            text@ == self.message_spec(),
    {
        match self {
            ModelCacheError::Init(t) => with_label("hf-hub init: ", t),
            ModelCacheError::Fetch { filename, source } => labelled(
                "fetch ",
                filename,
                ": ",
                source,
            ),
        }
    }
}

/// The files of a model that were fetched so far, by their places on disk.
#[derive(Debug)]
pub struct ModelFetch {
    pub model: OnDeviceModel,
    pub paths: Vec<String>,
}

impl ModelFetch {
    /// Nothing was fetched yet.
    pub fn start(model: OnDeviceModel) -> (fetch: Self)
        ensures
            fetch.model == model,
            fetch.paths@.len() == 0,
    {
        ModelFetch { model, paths: Vec::new() }
    }

    /// The file to fetch next; none once all are there.
    pub fn next_file(&self) -> (file: Option<&'static str>)
        ensures
            match file {
                Some(f) => self.paths@.len() < self.model.files_spec().len() && f@
                    == self.model.files_spec()[self.paths@.len() as int],
                None => self.paths@.len() >= self.model.files_spec().len(),
            },
    {
        let files: Vec<&'static str> = self.model.files();
        if self.paths.len() < files.len() {
            Some(files[self.paths.len()])
        } else {
            None
        }
    }

    /// Takes in how the fetch of the next file went.
    pub fn on_fetched(&mut self, fetched: Result<String, String>) -> (result: Result<
        (),
        EmbedError,
    >)
        requires
            old(self).paths@.len() < old(self).model.files_spec().len(),
        ensures
            final(self).model == old(self).model,
            match fetched {
                Ok(path) => result is Ok && final(self).paths@ == old(self).paths@.push(path),
                Err(t) => {
                    &&& final(self).paths == old(self).paths
                    &&& result matches Err(
                        EmbedError::Cache(ModelCacheError::Fetch { filename, source }),
                    )
                    &&& filename@ == old(self).model.files_spec()[old(self).paths@.len() as int]
                    &&& source == t
                },
            },
    {
        match fetched {
            Ok(path) => {
                self.paths.push(path);
                Ok(())
            },
            Err(source) => {
                let files: Vec<&'static str> = self.model.files();
                let filename: String = files[self.paths.len()].to_string();
                Err(EmbedError::Cache(ModelCacheError::Fetch { filename, source }))
            },
        }
    }
}

} // verus!
