//! Requests, responses, and the rules that a request has to meet.

use crate::text::{blank, is_blank};
use vstd::prelude::*;

verus! {

/// The fewest neighbours that a search may ask for.
pub const MIN_TOP_K: usize = 1;

/// The most neighbours that a search may ask for.
pub const MAX_TOP_K: usize = 100;

/// The lowest rating.
pub const MIN_RATING: u8 = 1;

/// The highest rating.
pub const MAX_RATING: u8 = 5;

/// Request to add a new review.
#[derive(Debug)]
pub struct AddReviewRequest {
    pub review_title: String,
    pub review_body: String,
    pub product_id: String,
    pub review_rating: u8,
}

/// Response after adding a review.
#[derive(Debug)]
pub struct AddReviewResponse {
    pub vector_id: usize,
    pub status: String,
    pub message: String,
}

/// Request to search for similar reviews.
#[derive(Debug)]
pub struct SearchRequest {
    pub query: String,
    pub top_k: usize,
}

/// Health check response.
#[derive(Debug)]
pub struct HealthResponse {
    pub status: String,
    pub version: String,
    pub total_reviews: usize,
}

/// Error response.
#[derive(Debug)]
pub struct ErrorResponse {
    pub error: String,
    pub message: String,
}

/// What is wrong with a review, if anything: the first of a blank title, a
/// blank body, a blank product identifier, and a rating outside 1 to 5.
pub open spec fn review_fault(
    title: Seq<char>,
    body: Seq<char>,
    product_id: Seq<char>,
    rating: u8,
) -> Option<Seq<char>> {
    if blank(title) {
        Some("Review title cannot be empty"@)
    } else if blank(body) {
        Some("Review body cannot be empty"@)
    } else if blank(product_id) {
        Some("Product ID cannot be empty"@)
    } else if rating < MIN_RATING || rating > MAX_RATING {
        Some("Review rating must be between 1 and 5"@)
    } else {
        None
    }
}

/// What is wrong with a search, if anything: a blank query, or a number of
/// neighbours outside 1 to 100.
pub open spec fn search_fault(query: Seq<char>, top_k: usize) -> Option<Seq<char>> {
    if blank(query) {
        Some("Query cannot be empty"@)
    } else if top_k < MIN_TOP_K || top_k > MAX_TOP_K {
        Some("top_k must be between 1 and 100"@)
    } else {
        None
    }
}

/// A review with an empty title, body or product identifier, or with a
/// rating of 0 or above 5, has a fault.
pub proof fn lemma_bad_review_has_fault(
    title: Seq<char>,
    body: Seq<char>,
    product_id: Seq<char>,
    rating: u8,
)
    requires
        title.len() == 0 || body.len() == 0 || product_id.len() == 0 || rating == 0 || rating > 5,
    ensures
        review_fault(title, body, product_id, rating) is Some,
{
}

/// A search for no neighbours, or for more than a hundred, has a fault, and
/// so has one with an empty query.
pub proof fn lemma_bad_search_has_fault(query: Seq<char>, top_k: usize)
    requires
        query.len() == 0 || top_k == 0 || top_k > 100,
    ensures
        search_fault(query, top_k) is Some,
{
}

/// The number of neighbours that a search asks for when it names none.
pub fn default_top_k() -> (k: usize)
    ensures
        k == 10,
{
    10
}

/// Checks a review against [`review_fault`] and reports the fault in words.
pub fn validate_review(title: &str, body: &str, product_id: &str, rating: u8) -> (r: Result<
    (),
    String,
>)
    ensures
        match r {
            Ok(_) => review_fault(title@, body@, product_id@, rating) is None,
            Err(message) => review_fault(title@, body@, product_id@, rating) == Some(message@),
        },
{
    if is_blank(title) {
        return Err("Review title cannot be empty".to_owned());
    }
    if is_blank(body) {
        return Err("Review body cannot be empty".to_owned());
    }
    if is_blank(product_id) {
        return Err("Product ID cannot be empty".to_owned());
    }
    if rating < MIN_RATING || rating > MAX_RATING {
        return Err("Review rating must be between 1 and 5".to_owned());
    }
    Ok(())
}

/// Checks a search against [`search_fault`] and reports the fault in words.
pub fn validate_search(query: &str, top_k: usize) -> (r: Result<(), String>)
    ensures
        match r {
            Ok(_) => search_fault(query@, top_k) is None,
            Err(message) => search_fault(query@, top_k) == Some(message@),
        },
{
    if is_blank(query) {
        return Err("Query cannot be empty".to_owned());
    }
    if top_k < MIN_TOP_K || top_k > MAX_TOP_K {
        return Err("top_k must be between 1 and 100".to_owned());
    }
    Ok(())
}

impl AddReviewRequest {
    /// What is wrong with the request, if anything.
    pub open spec fn fault(&self) -> Option<Seq<char>> {
        review_fault(
            self.review_title@,
            self.review_body@,
            self.product_id@,
            self.review_rating,
        )
    }

    /// Validate the request.
    pub fn validate(&self) -> (r: Result<(), String>)
        ensures
            match r {
                Ok(_) => self.fault() is None,
                Err(message) => self.fault() == Some(message@),
            },
    {
        validate_review(
            self.review_title.as_str(),
            self.review_body.as_str(),
            self.product_id.as_str(),
            self.review_rating,
        )
    }
}

impl SearchRequest {
    /// What is wrong with the request, if anything.
    pub open spec fn fault(&self) -> Option<Seq<char>> {
        search_fault(self.query@, self.top_k)
    }

    /// Validate the request.
    pub fn validate(&self) -> (r: Result<(), String>)
        ensures
            match r {
                Ok(_) => self.fault() is None,
                Err(message) => self.fault() == Some(message@),
            },
    {
        validate_search(self.query.as_str(), self.top_k)
    }
}

} // verus!
