use review_store::api::models::{
    default_top_k, validate_review, validate_search, AddReviewRequest, AddReviewResponse,
    ErrorResponse, HealthResponse, SearchRequest, MAX_RATING, MAX_TOP_K, MIN_RATING, MIN_TOP_K,
};

fn request(title: &str, body: &str, product: &str, rating: u8) -> AddReviewRequest {
    AddReviewRequest {
        review_title: title.to_string(),
        review_body: body.to_string(),
        product_id: product.to_string(),
        review_rating: rating,
    }
}

#[test]
fn a_complete_review_is_valid() {
    assert_eq!(request("Great product", "Very satisfied", "P123", 5).validate(), Ok(()));
    assert_eq!(request("a", "b", "c", 1).validate(), Ok(()));
    assert_eq!(request(" padded ", "\tb\n", " c", 3).validate(), Ok(()));
}

#[test]
fn an_empty_or_blank_title_is_refused() {
    let expected = Err("Review title cannot be empty".to_string());
    assert_eq!(request("", "b", "c", 3).validate(), expected);
    assert_eq!(request("   ", "b", "c", 3).validate(), expected);
    assert_eq!(request("\t\n\r ", "b", "c", 3).validate(), expected);
    assert_eq!(request("\u{a0}\u{2003}\u{3000}", "b", "c", 3).validate(), expected);
    // the title is looked at first
    assert_eq!(request("", "", "", 0).validate(), expected);
}

#[test]
fn an_empty_or_blank_body_is_refused() {
    let expected = Err("Review body cannot be empty".to_string());
    assert_eq!(request("a", "", "c", 3).validate(), expected);
    assert_eq!(request("a", "  ", "c", 3).validate(), expected);
    assert_eq!(request("a", "", "", 9).validate(), expected);
}

#[test]
fn an_empty_or_blank_product_is_refused() {
    let expected = Err("Product ID cannot be empty".to_string());
    assert_eq!(request("a", "b", "", 3).validate(), expected);
    assert_eq!(request("a", "b", "\n", 3).validate(), expected);
    assert_eq!(request("a", "b", "", 0).validate(), expected);
}

#[test]
fn a_rating_outside_one_to_five_is_refused() {
    let expected = Err("Review rating must be between 1 and 5".to_string());
    assert_eq!(request("a", "b", "c", 0).validate(), expected);
    assert_eq!(request("a", "b", "c", 6).validate(), expected);
    assert_eq!(request("a", "b", "c", 255).validate(), expected);
    let mut rating: u8 = MIN_RATING;
    while rating <= MAX_RATING {
        assert_eq!(request("a", "b", "c", rating).validate(), Ok(()));
        rating += 1;
    }
    assert_eq!(MIN_RATING, 1);
    assert_eq!(MAX_RATING, 5);
}

#[test]
fn a_letter_among_spaces_is_not_blank() {
    assert_eq!(validate_review(" x ", "_", "0", 1), Ok(()));
    assert_eq!(validate_review("\u{200b}", "b", "c", 1), Ok(()));
}

#[test]
fn search_needs_a_query() {
    let expected = Err("Query cannot be empty".to_string());
    assert_eq!(SearchRequest { query: "".to_string(), top_k: 10 }.validate(), expected);
    assert_eq!(SearchRequest { query: " \t".to_string(), top_k: 10 }.validate(), expected);
    assert_eq!(SearchRequest { query: "".to_string(), top_k: 0 }.validate(), expected);
}

#[test]
fn search_needs_top_k_in_range() {
    let expected = Err("top_k must be between 1 and 100".to_string());
    assert_eq!(SearchRequest { query: "q".to_string(), top_k: 0 }.validate(), expected);
    assert_eq!(SearchRequest { query: "q".to_string(), top_k: 101 }.validate(), expected);
    assert_eq!(SearchRequest { query: "q".to_string(), top_k: usize::MAX }.validate(), expected);
    assert_eq!(SearchRequest { query: "q".to_string(), top_k: 1 }.validate(), Ok(()));
    assert_eq!(SearchRequest { query: "q".to_string(), top_k: 100 }.validate(), Ok(()));
    assert_eq!(validate_search("great product", 50), Ok(()));
    assert_eq!(MIN_TOP_K, 1);
    assert_eq!(MAX_TOP_K, 100);
}

#[test]
fn default_top_k_is_ten_and_valid() {
    assert_eq!(default_top_k(), 10);
    assert_eq!(SearchRequest { query: "q".to_string(), top_k: default_top_k() }.validate(), Ok(()));
}

#[test]
fn responses_hold_their_fields() {
    let added = AddReviewResponse {
        vector_id: 7,
        status: "success".to_string(),
        message: "added".to_string(),
    };
    assert_eq!(added.vector_id, 7);
    assert_eq!(added.status, "success");
    assert_eq!(added.message, "added");
    let health = HealthResponse {
        status: "healthy".to_string(),
        version: "0.1.0".to_string(),
        total_reviews: 3,
    };
    assert_eq!(health.total_reviews, 3);
    assert_eq!(health.status, "healthy");
    assert_eq!(health.version, "0.1.0");
    let error = ErrorResponse { error: "validation".to_string(), message: "bad".to_string() };
    assert_eq!(error.error, "validation");
    assert_eq!(error.message, "bad");
}
