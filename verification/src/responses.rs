//! What the core hands back: query responses, and the structured record of
//! attributes a successful action emits for observability.

use crate::state::Service;
use vstd::prelude::*;

verus! {

/// The answer to `GetServiceDetails`.
#[derive(Debug, Clone, PartialEq, Eq)]
pub struct ServiceDetailsResponse {
    pub service_id: String,
    pub description: String,
    pub price: u128,
    pub category: String,
    pub owner: String,
}

/// The answer to `ListServices`.
#[derive(Debug, Clone, PartialEq, Eq)]
pub struct ListServicesResponse {
    pub services: Vec<ServiceSummary>,
}

/// One service in a listing, without its owner.
#[derive(Debug, Clone, PartialEq, Eq)]
pub struct ServiceSummary {
    pub service_id: String,
    pub description: String,
    pub price: u128,
    pub category: String,
}

/// The answer to `GetProviderReviews`.
#[derive(Debug, Clone, PartialEq, Eq)]
pub struct ProviderReviewsResponse {
    pub provider_id: String,
    pub reviews: Vec<ReviewSummary>,
}

/// One review in a provider's listing.
#[derive(Debug, Clone, PartialEq, Eq)]
pub struct ReviewSummary {
    pub service_id: String,
    pub rating: u8,
    pub feedback: String,
}

/// The answer to a query, by kind.
#[derive(Debug, Clone, PartialEq, Eq)]
pub enum QueryAnswer {
    Details(ServiceDetailsResponse),
    Services(ListServicesResponse),
    ProviderReviews(ProviderReviewsResponse),
}

/// An attribute's value: a string, or an unsigned number the host renders.
#[derive(Debug, Clone, PartialEq, Eq)]
pub enum AttrValue {
    Str(String),
    Uint(u128),
}

/// One key-value pair of the structured record a handler emits.
#[derive(Debug, Clone, PartialEq, Eq)]
pub struct Attribute {
    pub key: String,
    pub value: AttrValue,
}

/// The observable result of a committed action.
#[derive(Debug, Clone, PartialEq, Eq)]
pub struct Response {
    pub attributes: Vec<Attribute>,
}

/// The details response is the service record itself.
pub open spec fn details_of(s: Service) -> ServiceDetailsResponse {
    ServiceDetailsResponse {
        service_id: s.service_id,
        description: s.description,
        price: s.price,
        category: s.category,
        owner: s.owner,
    }
}

/// The summary of one service: its record without the owner.
pub open spec fn summary_of(s: Service) -> ServiceSummary {
    ServiceSummary {
        service_id: s.service_id,
        description: s.description,
        price: s.price,
        category: s.category,
    }
}

} // verus!
