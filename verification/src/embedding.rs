//! What the store knows of the embedding model: which model a configured
//! name stands for, the dimension of its vectors, and the text that is
//! embedded for a review. Running the model is not this library's work.

use crate::text::{lowercase, lowercase_of, same_text};
use vstd::prelude::*;
use vstd::string::*;

verus! {

/// The embedding models that the service can run.
#[derive(Debug, Clone, Copy, PartialEq, Eq, Structural)]
pub enum EmbeddingModelKind {
    AllMiniLML6V2,
    BGESmallENV15,
    AllMiniLML12V2,
}

/// The model that a name in lower case stands for. A name that is not known
/// stands for `AllMiniLML6V2`.
pub open spec fn model_named(lowered: Seq<char>) -> EmbeddingModelKind {
    if lowered == "sentence-transformers/all-minilm-l6-v2"@ || lowered == "all-minilm-l6-v2"@ {
        EmbeddingModelKind::AllMiniLML6V2
    } else if lowered == "baai/bge-small-en-v1.5"@ || lowered == "bge-small-en-v1.5"@ {
        EmbeddingModelKind::BGESmallENV15
    } else if lowered == "sentence-transformers/all-minilm-l12-v2"@ || lowered
        == "all-minilm-l12-v2"@ {
        EmbeddingModelKind::AllMiniLML12V2
    } else {
        EmbeddingModelKind::AllMiniLML6V2
    }
}

/// The length of the vectors that a model produces.
pub open spec fn model_dimension(kind: EmbeddingModelKind) -> nat {
    384
}

/// The text that is embedded for a review: title, one space, body.
pub open spec fn review_text(title: Seq<char>, body: Seq<char>) -> Seq<char> {
    title + seq![' '] + body
}

impl EmbeddingModelKind {
    /// The model that a name in lower case stands for.
    pub fn from_lowercase(lowered: &str) -> (kind: EmbeddingModelKind)
        ensures
            kind == model_named(lowered@),
    {
        if same_text(lowered, "sentence-transformers/all-minilm-l6-v2") || same_text(
            lowered,
            "all-minilm-l6-v2",
        ) {
            EmbeddingModelKind::AllMiniLML6V2
        } else if same_text(lowered, "baai/bge-small-en-v1.5") || same_text(
            lowered,
            "bge-small-en-v1.5",
        ) {
            EmbeddingModelKind::BGESmallENV15
        } else if same_text(lowered, "sentence-transformers/all-minilm-l12-v2") || same_text(
            lowered,
            "all-minilm-l12-v2",
        ) {
            EmbeddingModelKind::AllMiniLML12V2
        } else {
            EmbeddingModelKind::AllMiniLML6V2
        }
    }

    /// The length of the vectors that the model produces.
    pub fn dimension(self) -> (d: usize)
        ensures
            d == model_dimension(self),
    {
        match self {
            EmbeddingModelKind::AllMiniLML6V2 => 384,
            EmbeddingModelKind::BGESmallENV15 => 384,
            EmbeddingModelKind::AllMiniLML12V2 => 384,
        }
    }
}

/// The settings of the embedding service.
#[derive(Debug, Clone, Copy)]
pub struct EmbeddingService {
    model: EmbeddingModelKind,
    dimension: usize,
    max_length: usize,
}

impl EmbeddingService {
    /// The model of the service.
    pub closed spec fn spec_model(&self) -> EmbeddingModelKind {
        self.model
    }

    /// The dimension of the service.
    pub closed spec fn spec_dimension(&self) -> nat {
        self.dimension as nat
    }

    /// The longest input of the service, in tokens.
    pub closed spec fn spec_max_length(&self) -> nat {
        self.max_length as nat
    }

    /// The settings for a model given by name. Upper and lower case are not
    /// told apart.
    pub fn new(model_name: &str, max_length: usize) -> (service: Self)
        ensures
            service.spec_model() == model_named(lowercase_of(model_name@)),
            service.spec_dimension() == model_dimension(service.spec_model()),
            service.spec_max_length() == max_length,
    {
        let model = Self::parse_model_name(model_name);
        EmbeddingService { model, dimension: model.dimension(), max_length }
    }

    /// Parse model name string to the model it stands for.
    pub fn parse_model_name(name: &str) -> (kind: EmbeddingModelKind)
        ensures
            kind == model_named(lowercase_of(name@)),
    {
        let lowered = lowercase(name);
        EmbeddingModelKind::from_lowercase(lowered.as_str())
    }

    /// The model of the service.
    pub fn model(&self) -> (kind: EmbeddingModelKind)
        ensures
            kind == self.spec_model(),
    {
        self.model
    }

    /// Get the embedding dimension.
    pub fn dimension(&self) -> (d: usize)
        ensures
            d == self.spec_dimension(),
    {
        self.dimension
    }

    /// The longest input of the service, in tokens.
    pub fn max_length(&self) -> (n: usize)
        ensures
            n == self.spec_max_length(),
    {
        self.max_length
    }

    /// Combine review title and body for embedding.
    pub fn prepare_review_text(title: &str, body: &str) -> (text: String)
        ensures
            text@ == review_text(title@, body@),
    {
        let mut text = title.to_owned();
        proof {
            reveal_strlit(" ");
        }
        text.append(" ");
        text.append(body);
        assert(text@ =~= review_text(title@, body@));
        text
    }
}

} // verus!
