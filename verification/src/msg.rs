//! The action and query surface the dispatcher routes on. The host validates
//! and authorizes a message before the core sees it; account identifiers
//! arrive as plain strings.

use vstd::prelude::*;

verus! {

/// The registration data the host hands over when the contract is set up.
/// The core keeps no state of its own for it.
#[derive(Debug, Clone, PartialEq, Eq)]
pub struct InstantiateMsg {
    pub admin: String,
    pub platform_fee: u128,
}

/// A state-changing action; each variant is routed to exactly one registry.
#[derive(Debug, Clone, PartialEq, Eq)]
pub enum ExecuteMsg {
    ListService { service_id: String, description: String, price: u128, category: String },
    PurchaseService { service_id: String, buyer: String },
    LeaveReview { service_id: String, rating: u8, feedback: String },
    ResolveDispute { service_id: String, resolution: String },
}

/// A read-only projection over the registries; it mutates nothing.
#[derive(Debug, Clone, PartialEq, Eq)]
pub enum QueryMsg {
    GetServiceDetails { service_id: String },
    ListServices { category: Option<String> },
    GetProviderReviews { provider_id: String },
}

} // verus!
