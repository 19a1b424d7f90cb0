//! The configuration as it stands in the file: what is left out there, and what
//! stands in for it.

use crate::config::collections::{
    ascending, entry_list, lookup, lookups_fix_the_list, Collections, EntryList, NamedEntry,
};
use crate::config::error::ConfigError;
use crate::config::schema::{
    Config, EmbeddingConfig, OllamaConfig, RuntimeConfig, DEFAULT_EMBED_PARALLELISM,
    DEFAULT_MEMORY_LIMIT_MB, DEFAULT_OLLAMA_ENDPOINT,
};
use crate::config::store::{accepts, names_are_valid};
use crate::embedding::model_kind;
use crate::paths::text_view;
use vstd::prelude::*;

verus! {

/// What stands in the file. What is `None` is left out there.
#[derive(Debug, PartialEq)]
pub struct FileConfig {
    pub collections: Vec<NamedEntry>,
    pub model: String,
    pub endpoint: Option<String>,
    pub memory_limit_mb: Option<u64>,
    pub embed_parallelism: Option<usize>,
}

/// A configuration with its texts as character sequences.
pub struct ConfigView {
    pub collections: EntryList,
    pub model: Seq<char>,
    pub endpoint: Seq<char>,
    pub memory_limit_mb: u64,
    pub embed_parallelism: usize,
}

impl View for Config {
    type V = ConfigView;

    open spec fn view(&self) -> ConfigView {
        ConfigView {
            collections: self.collections.list(),
            model: self.embedding.model@,
            endpoint: self.embedding.ollama.endpoint@,
            memory_limit_mb: self.runtime.memory_limit_mb,
            embed_parallelism: self.runtime.embed_parallelism,
        }
    }
}

/// `file` is what is written of a configuration: all of it, but for an address
/// of Ollama that is the default.
pub open spec fn is_written(config: ConfigView, file: FileConfig) -> bool {
    &&& entry_list(file.collections@) == config.collections
    &&& file.model@ == config.model
    &&& text_view(file.endpoint) == (if config.endpoint == DEFAULT_OLLAMA_ENDPOINT@ {
        None
    } else {
        Some(config.endpoint)
    })
    &&& file.memory_limit_mb == Some(config.memory_limit_mb)
    &&& file.embed_parallelism == Some(config.embed_parallelism)
}

/// What is written of a configuration.
pub fn to_file(config: &Config) -> (file: FileConfig)
    ensures
        is_written(config@, file),
{
    let count: usize = config.collections.len();
    let ghost list = config.collections.list();
    let mut collections: Vec<NamedEntry> = Vec::new();
    proof {
        assert(entry_list(collections@) =~= list.take(0));
    }
    for i in 0..count
        invariant
            list == config.collections.list(),
            count == list.len(),
            entry_list(collections@) == list.take(i as int),
    {
        let ghost before = collections@;
        let name: String = config.collections.name_at(i).clone();
        let entry = config.collections.entry_at(i).clone();
        collections.push(NamedEntry { name, entry });
        proof {
            assert(entry_list(collections@) =~= entry_list(before).push((name@, entry@)));
            assert(list.take(i as int + 1) =~= list.take(i as int).push(list[i as int]));
        }
    }
    proof {
        assert(list.take(count as int) =~= list);
    }
    FileConfig {
        collections,
        model: config.embedding.model.clone(),
        endpoint: if config.embedding.ollama.is_default() {
            None
        } else {
            Some(config.embedding.ollama.endpoint.clone())
        },
        memory_limit_mb: Some(config.runtime.memory_limit_mb),
        embed_parallelism: Some(config.runtime.embed_parallelism),
    }
}

/// `config` is what a file says: each collection by its name, the last of those
/// that share one, and the default in place of what is left out.
pub open spec fn is_read(file: FileConfig, config: ConfigView) -> bool {
    &&& ascending(config.collections)
    &&& forall|n: Seq<char>| #[trigger]
        lookup(config.collections, n) == lookup(entry_list(file.collections@), n)
    &&& config.model == file.model@
    &&& config.endpoint == (match file.endpoint {
        Some(endpoint) => endpoint@,
        None => DEFAULT_OLLAMA_ENDPOINT@,
    })
    &&& config.memory_limit_mb == (match file.memory_limit_mb {
        Some(limit) => limit,
        None => DEFAULT_MEMORY_LIMIT_MB,
    })
    &&& config.embed_parallelism == (match file.embed_parallelism {
        Some(n) => n,
        None => DEFAULT_EMBED_PARALLELISM,
    })
}

/// What a file says. A zero stays a zero, and a path stays as it is written.
pub fn from_file(file: FileConfig) -> (config: Config)
    ensures
        is_read(file, config@),
{
    let mut collections: Collections = Collections::new();
    let ghost all = entry_list(file.collections@);
    proof {
        assert(all.take(0) =~= EntryList::empty());
    }
    for i in 0..file.collections.len()
        invariant
            all == entry_list(file.collections@),
            ascending(collections.list()),
            forall|n: Seq<char>| #[trigger]
                lookup(collections.list(), n) == lookup(all.take(i as int), n),
    {
        let named: &NamedEntry = &file.collections[i];
        let ghost before = collections.list();
        collections.insert(named.name.clone(), named.entry.clone());
        proof {
            let so_far = all.take(i as int);
            let next = all.take(i as int + 1);
            assert(all[i as int] == (named.name@, named.entry@));
            assert(next.drop_last() =~= so_far);
            assert(next.last() == all[i as int]);
            assert forall|n: Seq<char>| #[trigger] lookup(collections.list(), n) == lookup(
                next,
                n,
            ) by {
                assert(lookup(before, n) == lookup(so_far, n));
            }
        }
    }
    proof {
        assert(all.take(all.len() as int) =~= all);
    }
    Config {
        collections,
        embedding: EmbeddingConfig {
            model: file.model,
            ollama: match file.endpoint {
                Some(endpoint) => OllamaConfig { endpoint },
                None => OllamaConfig::default(),
            },
        },
        runtime: RuntimeConfig {
            memory_limit_mb: match file.memory_limit_mb {
                Some(limit) => limit,
                None => DEFAULT_MEMORY_LIMIT_MB,
            },
            embed_parallelism: match file.embed_parallelism {
                Some(n) => n,
                None => DEFAULT_EMBED_PARALLELISM,
            },
        },
    }
}

/// What is written of a configuration says that configuration again.
pub proof fn written_reads_back(config: ConfigView, file: FileConfig, read: ConfigView)
    requires
        ascending(config.collections),
        is_written(config, file),
        is_read(file, read),
    ensures
        read == config,
{
    assert forall|n: Seq<char>| #[trigger] lookup(read.collections, n) == lookup(
        config.collections,
        n,
    ) by {}
    lookups_fix_the_list(read.collections, config.collections);
}

/// A valid configuration loads as it was saved: what is written of it, handed
/// back as it was written, is accepted and says that configuration.
pub proof fn saved_config_loads(
    path: Seq<char>,
    saved: Config,
    file: FileConfig,
    parsed: Config,
    result: Result<Config, ConfigError>,
)
    requires
        ascending(saved.collections.list()),
        names_are_valid(saved),
        model_kind(saved.embedding.model@) is Some,
        is_written(saved@, file),
        is_read(file, parsed@),
        accepts(path, Ok(Ok(parsed)), result),
    ensures
        result is Ok,
        result->Ok_0@ == saved@,
{
    written_reads_back(saved@, file, parsed@);
    assert(parsed.collections.list() == saved@.collections);
    assert(parsed.embedding.model@ == saved@.model);
}

} // verus!
