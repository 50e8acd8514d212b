//! Configuration of the service, its defaults, and the rules by which a
//! configuration file is looked for and read. Reading and parsing the file
//! are not this library's work.

use crate::text::{lowercase, lowercase_of, same_text};
use vstd::prelude::*;

verus! {

/// Application configuration.
#[derive(Debug, Clone)]
pub struct AppConfig {
    /// Server configuration.
    pub server: ServerConfig,
    /// Vector index configuration.
    pub index: IndexConfig,
    /// Embedding model configuration.
    pub embedding: EmbeddingConfig,
    /// Storage paths.
    pub storage: StorageConfig,
}

#[derive(Debug, Clone)]
pub struct ServerConfig {
    /// Server host address.
    pub host: String,
    /// Server port.
    pub port: u16,
}

#[derive(Debug, Clone)]
pub struct IndexConfig {
    /// Index type: "BKT" (default) or "KDT".
    pub index_type: String,
    /// Vector dimension (must match embedding model).
    pub vector_dim: usize,
    /// Number of trees (for BKT/KDT).
    pub num_trees: usize,
}

#[derive(Debug, Clone)]
pub struct EmbeddingConfig {
    /// Model name (e.g., "all-MiniLM-L6-v2").
    pub model_name: String,
    /// Maximum sequence length.
    pub max_length: usize,
}

#[derive(Debug, Clone)]
pub struct StorageConfig {
    /// Data directory.
    pub data_dir: String,
    /// Vector index file path.
    pub index_path: String,
    /// Metadata JSONL file path.
    pub metadata_path: String,
}

/// Whether a configuration holds the default of every setting.
pub open spec fn is_default(config: AppConfig) -> bool {
    &&& config.server.host@ == "127.0.0.1"@
    &&& config.server.port == 3000
    &&& config.index.index_type@ == "BKT"@
    &&& config.index.vector_dim == 384
    &&& config.index.num_trees == 10
    &&& config.embedding.model_name@ == "sentence-transformers/all-MiniLM-L6-v2"@
    &&& config.embedding.max_length == 512
    &&& config.storage.data_dir@ == "data"@
    &&& config.storage.index_path@ == "data/reviews.index"@
    &&& config.storage.metadata_path@ == "data/reviews.jsonl"@
}

pub fn default_host() -> (r: String)
    ensures
        r@ == "127.0.0.1"@,
{
    "127.0.0.1".to_owned()
}

pub fn default_port() -> (r: u16)
    ensures
        r == 3000,
{
    3000
}

pub fn default_index_type() -> (r: String)
    ensures
        r@ == "BKT"@,
{
    "BKT".to_owned()
}

/// The dimension of the default embedding model.
pub fn default_vector_dim() -> (r: usize)
    ensures
        r == 384,
{
    384
}

pub fn default_num_trees() -> (r: usize)
    ensures
        r == 10,
{
    10
}

pub fn default_model_name() -> (r: String)
    ensures
        r@ == "sentence-transformers/all-MiniLM-L6-v2"@,
{
    "sentence-transformers/all-MiniLM-L6-v2".to_owned()
}

pub fn default_max_length() -> (r: usize)
    ensures
        r == 512,
{
    512
}

pub fn default_data_dir() -> (r: String)
    ensures
        r@ == "data"@,
{
    "data".to_owned()
}

pub fn default_index_path() -> (r: String)
    ensures
        r@ == "data/reviews.index"@,
{
    "data/reviews.index".to_owned()
}

pub fn default_metadata_path() -> (r: String)
    ensures
        r@ == "data/reviews.jsonl"@,
{
    "data/reviews.jsonl".to_owned()
}

impl Default for AppConfig {
    fn default() -> (config: Self)
        ensures
            is_default(config),
    {
        AppConfig {
            server: ServerConfig { host: default_host(), port: default_port() },
            index: IndexConfig {
                index_type: default_index_type(),
                vector_dim: default_vector_dim(),
                num_trees: default_num_trees(),
            },
            embedding: EmbeddingConfig {
                model_name: default_model_name(),
                max_length: default_max_length(),
            },
            storage: StorageConfig {
                data_dir: default_data_dir(),
                index_path: default_index_path(),
                metadata_path: default_metadata_path(),
            },
        }
    }
}

/// A format that a configuration file may be written in.
#[derive(Debug, Clone, Copy, PartialEq, Eq, Structural)]
pub enum ConfigFormat {
    Json,
    Toml,
}

/// How a configuration file is read, as its name decides.
#[derive(Debug, Clone, Copy, PartialEq, Eq, Structural)]
pub enum ParserChoice {
    /// The extension is `toml`: the file must be TOML.
    Toml,
    /// The extension is `json`: the file must be JSON.
    Json,
    /// Another extension: JSON is tried, then TOML, and a file that is
    /// neither is reported and passed over.
    Unknown,
    /// No extension: JSON is tried, then TOML, and a file that is neither is
    /// passed over in silence.
    Bare,
}

/// The places where a configuration file is looked for, first to last: the
/// path that the variable `VECTOR_CONFIG_PATH` names, if it is set, then
/// `config.toml`, then `config.json`.
pub open spec fn candidates_of(from_env: Option<Seq<char>>) -> Seq<Seq<char>> {
    match from_env {
        Some(path) => seq![path, "config.toml"@, "config.json"@],
        None => seq!["config.toml"@, "config.json"@],
    }
}

/// The choice that an extension in lower case stands for.
pub open spec fn choice_for(lowered: Option<Seq<char>>) -> ParserChoice {
    match lowered {
        Some(extension) => if extension == "toml"@ {
            ParserChoice::Toml
        } else if extension == "json"@ {
            ParserChoice::Json
        } else {
            ParserChoice::Unknown
        },
        None => ParserChoice::Bare,
    }
}

/// The formats that a choice tries, first to last.
pub open spec fn order_of(choice: ParserChoice) -> Seq<ConfigFormat> {
    match choice {
        ParserChoice::Toml => seq![ConfigFormat::Toml],
        ParserChoice::Json => seq![ConfigFormat::Json],
        ParserChoice::Unknown => seq![ConfigFormat::Json, ConfigFormat::Toml],
        ParserChoice::Bare => seq![ConfigFormat::Json, ConfigFormat::Toml],
    }
}

/// What was found at one of the places where a configuration file is
/// looked for.
#[derive(Debug, Clone)]
pub enum Probe {
    /// No file is there.
    Missing,
    /// A file is there and cannot be read.
    Unreadable,
    /// A file is there: the extension of its name, and the configuration
    /// that its content gives in each format, `None` where the content is
    /// not of that format or the format was not tried.
    Found { extension: Option<String>, json: Option<AppConfig>, toml: Option<AppConfig> },
}

/// Why no configuration could be loaded. The number is that of the place,
/// counted from 0.
#[derive(Debug, Clone, Copy, PartialEq, Eq, Structural)]
pub enum LoadError {
    /// The file there cannot be read.
    Unreadable(usize),
    /// The file there is named as JSON and is none.
    Json(usize),
    /// The file there is named as TOML and is none.
    Toml(usize),
}

/// What one place contributes to the search.
#[derive(Debug, Clone)]
pub enum Step {
    /// The search ends with this configuration.
    Use(AppConfig),
    /// The search ends with this error.
    Fail(LoadError),
    /// The next place is tried.
    Next,
}

/// The contribution of what was found at a place. A file named as TOML or
/// as JSON must be of that format. Any other file is taken as JSON if it is
/// JSON, else as TOML if it is TOML, and is passed over if it is neither.
pub open spec fn step_of(probe: Probe, place: usize) -> Step {
    match probe {
        Probe::Missing => Step::Next,
        Probe::Unreadable => Step::Fail(LoadError::Unreadable(place)),
        Probe::Found { extension, json, toml } => {
            let lowered = match extension {
                Some(e) => Some(lowercase_of(e@)),
                None => None,
            };
            match choice_for(lowered) {
                ParserChoice::Toml => match toml {
                    Some(config) => Step::Use(config),
                    None => Step::Fail(LoadError::Toml(place)),
                },
                ParserChoice::Json => match json {
                    Some(config) => Step::Use(config),
                    None => Step::Fail(LoadError::Json(place)),
                },
                _ => match json {
                    Some(config) => Step::Use(config),
                    None => match toml {
                        Some(config) => Step::Use(config),
                        None => Step::Next,
                    },
                },
            }
        },
    }
}

/// The end of the search over the places from `from` on: the first
/// contribution that is not `Next`, and `Next` where there is none.
pub open spec fn search_from(probes: Seq<Probe>, from: int) -> Step
    decreases probes.len() - from,
{
    if from < 0 || from >= probes.len() {
        Step::Next
    } else {
        match step_of(probes[from], from as usize) {
            Step::Next => search_from(probes, from + 1),
            ended => ended,
        }
    }
}

/// Lists the places where a configuration file is looked for.
pub fn config_candidates(from_env: Option<String>) -> (candidates: Vec<String>)
    ensures
        candidates.deep_view() == candidates_of(
            match from_env {
                Some(path) => Some(path@),
                None => None,
            },
        ),
{
    let mut candidates: Vec<String> = Vec::new();
    match from_env {
        Some(path) => {
            candidates.push(path);
        },
        None => {},
    }
    candidates.push("config.toml".to_owned());
    candidates.push("config.json".to_owned());
    assert(candidates.deep_view() =~= candidates_of(
        match from_env {
            Some(path) => Some(path@),
            None => None,
        },
    ));
    candidates
}

impl AppConfig {
    /// Load configuration from what was found at the places of
    /// [`config_candidates`], in their order, or use defaults: the first
    /// place that holds a readable configuration decides, a file that cannot
    /// be read or is not of the format that its name promises ends the
    /// search with an error, and where no place decides the defaults are
    /// used.
    pub fn load(probes: Vec<Probe>) -> (r: Result<AppConfig, LoadError>)
        ensures
            match search_from(probes@, 0) {
                Step::Use(config) => r == Ok::<AppConfig, LoadError>(config),
                Step::Fail(e) => r == Err::<AppConfig, LoadError>(e),
                Step::Next => r matches Ok(config) && is_default(config),
            },
    {
        let ghost all = probes@;
        let total: usize = probes.len();
        let mut place: usize = 0;
        for probe in it: probes.into_iter()
            invariant
                it.seq() == all,
                all.len() == total,
                place == it.index(),
                search_from(all, 0) == search_from(all, place as int),
        {
            match probe.decide(place) {
                Step::Use(config) => {
                    return Ok(config);
                },
                Step::Fail(e) => {
                    return Err(e);
                },
                Step::Next => {},
            }
            place = place + 1;
        }
        Ok(AppConfig::default())
    }
}

impl Probe {
    /// What this place contributes to the search.
    pub fn decide(self, place: usize) -> (step: Step)
        ensures
            step == step_of(self, place),
    {
        match self {
            Probe::Missing => Step::Next,
            Probe::Unreadable => Step::Fail(LoadError::Unreadable(place)),
            Probe::Found { extension, json, toml } => {
                let choice = match &extension {
                    Some(e) => ParserChoice::for_extension(Some(e.as_str())),
                    None => ParserChoice::for_extension(None),
                };
                match choice {
                    ParserChoice::Toml => match toml {
                        Some(config) => Step::Use(config),
                        None => Step::Fail(LoadError::Toml(place)),
                    },
                    ParserChoice::Json => match json {
                        Some(config) => Step::Use(config),
                        None => Step::Fail(LoadError::Json(place)),
                    },
                    _ => match json {
                        Some(config) => Step::Use(config),
                        None => match toml {
                            Some(config) => Step::Use(config),
                            None => Step::Next,
                        },
                    },
                }
            },
        }
    }
}

impl ParserChoice {
    /// The choice for an extension that is already in lower case.
    pub fn for_lowercase(lowered: Option<&str>) -> (choice: ParserChoice)
        ensures
            choice == choice_for(
                match lowered {
                    Some(extension) => Some(extension@),
                    None => None,
                },
            ),
    {
        match lowered {
            Some(extension) => {
                if same_text(extension, "toml") {
                    ParserChoice::Toml
                } else if same_text(extension, "json") {
                    ParserChoice::Json
                } else {
                    ParserChoice::Unknown
                }
            },
            None => ParserChoice::Bare,
        }
    }

    /// The choice for the extension of a file name. Upper and lower case are
    /// not told apart.
    pub fn for_extension(extension: Option<&str>) -> (choice: ParserChoice)
        ensures
            choice == choice_for(
                match extension {
                    Some(e) => Some(lowercase_of(e@)),
                    None => None,
                },
            ),
    {
        match extension {
            Some(e) => {
                let lowered = lowercase(e);
                ParserChoice::for_lowercase(Some(lowered.as_str()))
            },
            None => ParserChoice::Bare,
        }
    }

    /// The formats to try, first to last.
    pub fn parse_order(self) -> (order: Vec<ConfigFormat>)
        ensures
            order@ == order_of(self),
    {
        let mut order: Vec<ConfigFormat> = Vec::new();
        match self {
            ParserChoice::Toml => {
                order.push(ConfigFormat::Toml);
            },
            ParserChoice::Json => {
                order.push(ConfigFormat::Json);
            },
            ParserChoice::Unknown => {
                order.push(ConfigFormat::Json);
                order.push(ConfigFormat::Toml);
            },
            ParserChoice::Bare => {
                order.push(ConfigFormat::Json);
                order.push(ConfigFormat::Toml);
            },
        }
        assert(order@ =~= order_of(self));
        order
    }

    /// Whether a file that none of the formats can read is reported before
    /// the next place is tried.
    pub fn failure_is_reported(self) -> (reported: bool)
        ensures
            reported == (self == ParserChoice::Unknown),
    {
        match self {
            ParserChoice::Unknown => true,
            _ => false,
        }
    }
}

} // verus!
