use review_store::embedding::{EmbeddingModelKind, EmbeddingService};

#[test]
fn test_prepare_review_text() {
    let title = "Great product";
    let body = "I love it";
    let combined = EmbeddingService::prepare_review_text(title, body);
    assert_eq!(combined, "Great product I love it");
}

#[test]
fn prepare_review_text_keeps_empty_parts() {
    assert_eq!(EmbeddingService::prepare_review_text("", ""), " ");
    assert_eq!(EmbeddingService::prepare_review_text("a", ""), "a ");
    assert_eq!(EmbeddingService::prepare_review_text("", "b"), " b");
}

#[test]
fn model_names_are_read_without_regard_to_case() {
    assert_eq!(
        EmbeddingService::parse_model_name("sentence-transformers/all-MiniLM-L6-v2"),
        EmbeddingModelKind::AllMiniLML6V2
    );
    assert_eq!(
        EmbeddingService::parse_model_name("all-MiniLM-L6-v2"),
        EmbeddingModelKind::AllMiniLML6V2
    );
    assert_eq!(
        EmbeddingService::parse_model_name("BAAI/bge-small-en-v1.5"),
        EmbeddingModelKind::BGESmallENV15
    );
    assert_eq!(
        EmbeddingService::parse_model_name("BGE-SMALL-EN-V1.5"),
        EmbeddingModelKind::BGESmallENV15
    );
    assert_eq!(
        EmbeddingService::parse_model_name("sentence-transformers/all-MiniLM-L12-v2"),
        EmbeddingModelKind::AllMiniLML12V2
    );
    assert_eq!(
        EmbeddingService::parse_model_name("ALL-MINILM-L12-V2"),
        EmbeddingModelKind::AllMiniLML12V2
    );
}

#[test]
fn an_unknown_model_name_stands_for_the_default() {
    assert_eq!(EmbeddingService::parse_model_name("gpt"), EmbeddingModelKind::AllMiniLML6V2);
    assert_eq!(EmbeddingService::parse_model_name(""), EmbeddingModelKind::AllMiniLML6V2);
}

#[test]
fn from_lowercase_tells_case_apart() {
    assert_eq!(
        EmbeddingModelKind::from_lowercase("bge-small-en-v1.5"),
        EmbeddingModelKind::BGESmallENV15
    );
    assert_eq!(
        EmbeddingModelKind::from_lowercase("BGE-small-en-v1.5"),
        EmbeddingModelKind::AllMiniLML6V2
    );
    assert_eq!(
        EmbeddingModelKind::from_lowercase("all-minilm-l12-v2"),
        EmbeddingModelKind::AllMiniLML12V2
    );
}

#[test]
fn service_knows_model_dimension_and_length() {
    let service = EmbeddingService::new("sentence-transformers/all-MiniLM-L6-v2", 512);
    assert_eq!(service.model(), EmbeddingModelKind::AllMiniLML6V2);
    assert_eq!(service.dimension(), 384);
    assert_eq!(service.max_length(), 512);
    let other = EmbeddingService::new("BAAI/bge-small-en-v1.5", 128);
    assert_eq!(other.model(), EmbeddingModelKind::BGESmallENV15);
    assert_eq!(other.dimension(), 384);
    assert_eq!(other.max_length(), 128);
    assert_eq!(EmbeddingModelKind::AllMiniLML12V2.dimension(), 384);
}
