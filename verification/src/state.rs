//! The marketplace's data model: the four registries, their record types,
//! the error taxonomy, and the invariants that every handler preserves.

use crate::registry::Registry;
use vstd::prelude::*;

verus! {

/// A listed service. Created once and immutable thereafter: no update or
/// delete operation exists.
#[derive(Debug, Clone, PartialEq, Eq)]
pub struct Service {
    pub service_id: String,
    pub description: String,
    pub price: u128,
    pub category: String,
    pub owner: String,
}

/// One review left on a service; the log of these is append-only.
#[derive(Debug, Clone, PartialEq, Eq)]
pub struct Review {
    pub service_id: String,
    pub reviewer: String,
    pub rating: u8,
    pub feedback: String,
}

/// The incrementally maintained aggregate of a service's review log. The
/// average rating is the exact rational `rating_sum / total_count`; it is
/// never recomputed by re-scanning the log.
#[derive(Debug, Clone, Copy, PartialEq, Eq)]
pub struct ReviewMetadata {
    pub total_count: u32,
    pub rating_sum: u64,
}

/// One dispute over a service; `resolution` transitions from absent to
/// present exactly once.
#[derive(Debug, Clone, PartialEq, Eq)]
pub struct Dispute {
    pub service_id: String,
    pub disputant: String,
    pub description: String,
    pub resolution: Option<String>,
}

/// The error taxonomy. Every error aborts the whole action: no registry is
/// left partially updated.
#[derive(Debug, Clone, PartialEq, Eq)]
pub enum ContractError {
    /// A duplicate `service_id` on listing.
    AlreadyExists,
    /// A reference to a nonexistent service.
    NotFound,
    /// A rating outside `[0, 5]`.
    ValidationError,
    /// A resolve attempted with no pending dispute.
    NoUnresolvedDispute,
    /// An underlying persistence failure, propagated unchanged by the host.
    StorageError(String),
}

impl ContractError {
    /// The human-readable message carried alongside the error kind.
    pub fn message(&self) -> (r: String)
        ensures
            match self {
                ContractError::AlreadyExists => r@ == "Service already exists"@,
                ContractError::NotFound => r@ == "Service not found"@,
                ContractError::ValidationError => r@ == "Rating must be between 0 and 5"@,
                ContractError::NoUnresolvedDispute => r@
                    == "No unresolved disputes for this service"@,
                ContractError::StorageError(s) => r@ == s@,
            },
    {
        match self {
            ContractError::AlreadyExists => "Service already exists".to_owned(),
            ContractError::NotFound => "Service not found".to_owned(),
            ContractError::ValidationError => "Rating must be between 0 and 5".to_owned(),
            ContractError::NoUnresolvedDispute => "No unresolved disputes for this service"
                .to_owned(),
            ContractError::StorageError(s) => s.clone(),
        }
    }
}

/// The sum of the ratings in a review log.
pub open spec fn sum_ratings(log: Seq<Review>) -> int
    decreases log.len(),
{
    if log.len() == 0 {
        0
    } else {
        sum_ratings(log.drop_last()) + log.last().rating
    }
}

/// Every rating in the log was accepted, so lies in `[0, 5]`.
pub open spec fn ratings_in_range(log: Seq<Review>) -> bool {
    forall|i: int| 0 <= i < log.len() ==> #[trigger] log[i].rating <= 5
}

/// The aggregate agrees with the log: the count is the log's length and the
/// sum is the sum of all its ratings, so `rating_sum / total_count` is the
/// arithmetic mean of every rating ever accepted.
pub open spec fn metadata_consistent(log: Seq<Review>, md: ReviewMetadata) -> bool {
    &&& md.total_count == log.len()
    &&& md.rating_sum == sum_ratings(log)
}

pub proof fn lemma_sum_ratings_bound(log: Seq<Review>)
    requires
        ratings_in_range(log),
    ensures
        0 <= sum_ratings(log) <= 5 * log.len(),
    decreases log.len(),
{
    if log.len() > 0 {
        assert(ratings_in_range(log.drop_last())) by {
            assert(forall|i: int|
                0 <= i < log.drop_last().len() ==> log.drop_last()[i] == log[i]);
        }
        lemma_sum_ratings_bound(log.drop_last());
    }
}

/// The whole marketplace: one registry per namespace of the store.
pub struct Marketplace {
    pub services: Registry<Service>,
    pub purchases: Registry<Vec<String>>,
    pub reviews: Registry<Vec<Review>>,
    pub review_metadata: Registry<ReviewMetadata>,
    pub disputes: Registry<Vec<Dispute>>,
}

impl Marketplace {
    /// The marketplace invariant: each registry is well formed, a metadata
    /// entry exists exactly for the services that have a review log, and
    /// each metadata entry agrees with its log.
    pub open spec fn wf(&self) -> bool {
        &&& self.services.wf()
        &&& self.purchases.wf()
        &&& self.reviews.wf()
        &&& self.review_metadata.wf()
        &&& self.disputes.wf()
        &&& forall|sid: Seq<char>|
            #[trigger] self.reviews@.contains_key(sid) <==> self.review_metadata@.contains_key(sid)
        &&& forall|sid: Seq<char>| #[trigger] self.reviews@.contains_key(sid) ==> {
            &&& ratings_in_range(self.reviews@[sid]@)
            &&& metadata_consistent(self.reviews@[sid]@, self.review_metadata@[sid])
        }
    }

    /// Another review can be counted for the service without the counter
    /// saturating.
    pub open spec fn review_count_ok(&self, sid: Seq<char>) -> bool {
        self.review_metadata@.contains_key(sid) ==> self.review_metadata@[sid].total_count
            < u32::MAX
    }

    /// An empty marketplace: every registry starts with no entries.
    pub fn new() -> (r: Self)
        ensures
            r.wf(),
            r.services@ == Map::<Seq<char>, Service>::empty(),
            r.purchases@ == Map::<Seq<char>, Vec<String>>::empty(),
            r.reviews@ == Map::<Seq<char>, Vec<Review>>::empty(),
            r.review_metadata@ == Map::<Seq<char>, ReviewMetadata>::empty(),
            r.disputes@ == Map::<Seq<char>, Vec<Dispute>>::empty(),
            r.services.kv_seq() == Seq::<(String, Service)>::empty(),
    {
        Marketplace {
            services: Registry::new(),
            purchases: Registry::new(),
            reviews: Registry::new(),
            review_metadata: Registry::new(),
            disputes: Registry::new(),
        }
    }
}

} // verus!
