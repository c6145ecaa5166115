//! The action dispatcher and the four handlers. Each handler performs one
//! read-modify-write against its registry and either commits all of its
//! mutations or none; its full effect is stated by a postcondition predicate
//! that the dispatcher's contract repeats per action kind.

use crate::msg::{ExecuteMsg, QueryMsg};
use crate::registry::same_but;
use crate::responses::{
    details_of, summary_of, AttrValue, Attribute, ListServicesResponse, ProviderReviewsResponse,
    QueryAnswer, Response, ReviewSummary, ServiceDetailsResponse, ServiceSummary,
};
use crate::state::{
    lemma_sum_ratings_bound, metadata_consistent, ratings_in_range, sum_ratings, ContractError,
    Dispute, Marketplace, Review, ReviewMetadata, Service,
};
use vstd::pervasive::VecAdditionalExecFns;
use vstd::prelude::*;

verus! {

// ---------------------------------------------------------------------------
// Attribute records: what a committed action reports.
// ---------------------------------------------------------------------------
/// The attribute holds the given string under the given key.
pub open spec fn attr_lit(a: Attribute, key: Seq<char>, value: Seq<char>) -> bool {
    &&& a.key@ == key
    &&& a.value matches AttrValue::Str(s) && s@ == value
}

/// The attribute holds the given number under the given key.
pub open spec fn attr_uint(a: Attribute, key: Seq<char>, value: u128) -> bool {
    &&& a.key@ == key
    &&& a.value == AttrValue::Uint(value)
}

pub open spec fn list_service_attrs(
    resp: Response,
    service_id: String,
    description: String,
    price: u128,
    category: String,
    sender: String,
) -> bool {
    &&& resp.attributes@.len() == 6
    &&& attr_lit(resp.attributes@[0], "action"@, "list_service"@)
    &&& attr_lit(resp.attributes@[1], "service_id"@, service_id@)
    &&& attr_lit(resp.attributes@[2], "description"@, description@)
    &&& attr_uint(resp.attributes@[3], "price"@, price)
    &&& attr_lit(resp.attributes@[4], "category"@, category@)
    &&& attr_lit(resp.attributes@[5], "owner"@, sender@)
}

pub open spec fn purchase_service_attrs(
    resp: Response,
    service_id: String,
    buyer: String,
) -> bool {
    &&& resp.attributes@.len() == 3
    &&& attr_lit(resp.attributes@[0], "action"@, "purchase_service"@)
    &&& attr_lit(resp.attributes@[1], "service_id"@, service_id@)
    &&& attr_lit(resp.attributes@[2], "buyer"@, buyer@)
}

pub open spec fn leave_review_attrs(
    resp: Response,
    service_id: String,
    rating: u8,
    sender: String,
) -> bool {
    &&& resp.attributes@.len() == 4
    &&& attr_lit(resp.attributes@[0], "action"@, "leave_review"@)
    &&& attr_lit(resp.attributes@[1], "service_id"@, service_id@)
    &&& attr_uint(resp.attributes@[2], "rating"@, rating as u128)
    &&& attr_lit(resp.attributes@[3], "sender"@, sender@)
}

pub open spec fn resolve_dispute_attrs(
    resp: Response,
    service_id: String,
    resolution: String,
    sender: String,
) -> bool {
    &&& resp.attributes@.len() == 4
    &&& attr_lit(resp.attributes@[0], "action"@, "resolve_dispute"@)
    &&& attr_lit(resp.attributes@[1], "service_id"@, service_id@)
    &&& attr_lit(resp.attributes@[2], "sender"@, sender@)
    &&& attr_lit(resp.attributes@[3], "resolution"@, resolution@)
}

// ---------------------------------------------------------------------------
// Handler postconditions.
// ---------------------------------------------------------------------------
/// The full effect of `ListService`: a taken id is rejected with
/// `AlreadyExists` and nothing changes; a fresh id is recorded with the
/// caller as owner, every other registry untouched.
pub open spec fn list_service_post(
    pre: Marketplace,
    post: Marketplace,
    r: Result<Response, ContractError>,
    service_id: String,
    description: String,
    price: u128,
    category: String,
    sender: String,
) -> bool {
    &&& post.wf()
    &&& if pre.services@.contains_key(service_id@) {
        &&& r == Err::<Response, ContractError>(ContractError::AlreadyExists)
        &&& post == pre
    } else {
        let svc = (Service { service_id, description, price, category, owner: sender });
        &&& r matches Ok(resp) && list_service_attrs(
            resp,
            service_id,
            description,
            price,
            category,
            sender,
        )
        &&& post.services@ == pre.services@.insert(service_id@, svc)
        &&& post.services.kv_seq() == pre.services.kv_seq().push((service_id, svc))
        &&& post.purchases == pre.purchases
        &&& post.reviews == pre.reviews
        &&& post.review_metadata == pre.review_metadata
        &&& post.disputes == pre.disputes
    }
}

/// The full effect of `PurchaseService`: an unlisted id is rejected with
/// `NotFound` and nothing changes; otherwise the buyer is appended to the
/// service's ledger, which is created empty first if none exists.
pub open spec fn purchase_service_post(
    pre: Marketplace,
    post: Marketplace,
    r: Result<Response, ContractError>,
    service_id: String,
    buyer: String,
) -> bool {
    &&& post.wf()
    &&& if !pre.services@.contains_key(service_id@) {
        &&& r == Err::<Response, ContractError>(ContractError::NotFound)
        &&& post == pre
    } else {
        let ledger = if pre.purchases@.contains_key(service_id@) {
            pre.purchases@[service_id@]@
        } else {
            Seq::<String>::empty()
        };
        &&& r matches Ok(resp) && purchase_service_attrs(resp, service_id, buyer)
        &&& post.purchases@.contains_key(service_id@)
        &&& post.purchases@[service_id@]@ == ledger.push(buyer)
        &&& same_but(pre.purchases@, post.purchases@, service_id@)
        &&& post.services == pre.services
        &&& post.reviews == pre.reviews
        &&& post.review_metadata == pre.review_metadata
        &&& post.disputes == pre.disputes
    }
}

/// The full effect of `LeaveReview`: a rating above 5 is rejected with
/// `ValidationError` and nothing changes; otherwise the review is appended
/// to the service's log and the aggregate is updated incrementally, both
/// together.
pub open spec fn leave_review_post(
    pre: Marketplace,
    post: Marketplace,
    r: Result<Response, ContractError>,
    service_id: String,
    rating: u8,
    feedback: String,
    sender: String,
) -> bool {
    &&& post.wf()
    &&& if rating > 5 {
        &&& r == Err::<Response, ContractError>(ContractError::ValidationError)
        &&& post == pre
    } else {
        let log = if pre.reviews@.contains_key(service_id@) {
            pre.reviews@[service_id@]@
        } else {
            Seq::<Review>::empty()
        };
        let md = if pre.review_metadata@.contains_key(service_id@) {
            pre.review_metadata@[service_id@]
        } else {
            ReviewMetadata { total_count: 0, rating_sum: 0 }
        };
        let rv = (Review { service_id, reviewer: sender, rating, feedback });
        &&& r matches Ok(resp) && leave_review_attrs(resp, service_id, rating, sender)
        &&& post.reviews@.contains_key(service_id@)
        &&& post.reviews@[service_id@]@ == log.push(rv)
        &&& same_but(pre.reviews@, post.reviews@, service_id@)
        &&& post.review_metadata@.contains_key(service_id@)
        &&& post.review_metadata@[service_id@] == (ReviewMetadata {
            total_count: (md.total_count + 1) as u32,
            rating_sum: (md.rating_sum + rating) as u64,
        })
        &&& same_but(pre.review_metadata@, post.review_metadata@, service_id@)
        &&& post.services == pre.services
        &&& post.purchases == pre.purchases
        &&& post.disputes == pre.disputes
    }
}

/// No dispute in the sequence is still open.
pub open spec fn has_unresolved(ds: Seq<Dispute>) -> bool {
    exists|i: int| 0 <= i < ds.len() && ds[i].resolution is None
}

/// `i` is the first entry, in insertion order, whose resolution is absent.
pub open spec fn is_first_unresolved(ds: Seq<Dispute>, i: int) -> bool {
    &&& 0 <= i < ds.len()
    &&& ds[i].resolution is None
    &&& forall|j: int| 0 <= j < i ==> ds[j].resolution is Some
}

/// The entry with the given resolution written in.
pub open spec fn resolved_with(d: Dispute, resolution: String) -> Dispute {
    Dispute {
        service_id: d.service_id,
        disputant: d.disputant,
        description: d.description,
        resolution: Some(resolution),
    }
}

/// The new dispute list is the old one with the resolution granted to its
/// first unresolved entry, every other entry untouched.
pub open spec fn resolution_applied(
    pre_ds: Seq<Dispute>,
    post_ds: Seq<Dispute>,
    resolution: String,
) -> bool {
    exists|i: int|
        #[trigger] is_first_unresolved(pre_ds, i) && post_ds == pre_ds.update(
            i,
            resolved_with(pre_ds[i], resolution),
        )
}

/// The full effect of `ResolveDispute`: with no pending dispute (no list,
/// an empty list, or every entry resolved) it is rejected with
/// `NoUnresolvedDispute` and nothing changes; otherwise the first
/// unresolved entry receives the resolution and every other entry is kept
/// exactly as it was.
pub open spec fn resolve_dispute_post(
    pre: Marketplace,
    post: Marketplace,
    r: Result<Response, ContractError>,
    service_id: String,
    resolution: String,
    sender: String,
) -> bool {
    let ds = if pre.disputes@.contains_key(service_id@) {
        pre.disputes@[service_id@]@
    } else {
        Seq::<Dispute>::empty()
    };
    &&& post.wf()
    &&& if !has_unresolved(ds) {
        &&& r == Err::<Response, ContractError>(ContractError::NoUnresolvedDispute)
        &&& post == pre
    } else {
        &&& r matches Ok(resp) && resolve_dispute_attrs(resp, service_id, resolution, sender)
        &&& post.disputes@.contains_key(service_id@)
        &&& resolution_applied(ds, post.disputes@[service_id@]@, resolution)
        &&& same_but(pre.disputes@, post.disputes@, service_id@)
        &&& post.services == pre.services
        &&& post.purchases == pre.purchases
        &&& post.reviews == pre.reviews
        &&& post.review_metadata == pre.review_metadata
    }
}

// ---------------------------------------------------------------------------
// Handlers.
// ---------------------------------------------------------------------------
/// Record a new service listing under a fresh id, owned by the caller.
pub fn list_service(
    m: &mut Marketplace,
    service_id: String,
    description: String,
    price: u128,
    category: String,
    sender: String,
) -> (r: Result<Response, ContractError>)
    requires
        old(m).wf(),
    ensures
        list_service_post(*old(m), *final(m), r, service_id, description, price, category, sender),
{
    if m.services.has(&service_id) {
        return Err(ContractError::AlreadyExists);
    }
    let mut attrs: Vec<Attribute> = Vec::new();
    attrs.push(
        Attribute { key: "action".to_owned(), value: AttrValue::Str("list_service".to_owned()) },
    );
    attrs.push(
        Attribute { key: "service_id".to_owned(), value: AttrValue::Str(service_id.clone()) },
    );
    attrs.push(
        Attribute { key: "description".to_owned(), value: AttrValue::Str(description.clone()) },
    );
    attrs.push(Attribute { key: "price".to_owned(), value: AttrValue::Uint(price) });
    attrs.push(Attribute { key: "category".to_owned(), value: AttrValue::Str(category.clone()) });
    attrs.push(Attribute { key: "owner".to_owned(), value: AttrValue::Str(sender.clone()) });
    let service = Service {
        service_id: service_id.clone(),
        description,
        price,
        category,
        owner: sender,
    };
    m.services.set(service_id, service);
    Ok(Response { attributes: attrs })
}

/// Append the buyer to a listed service's purchase ledger.
pub fn purchase_service(m: &mut Marketplace, service_id: String, buyer: String) -> (r: Result<
    Response,
    ContractError,
>)
    requires
        old(m).wf(),
    ensures
        purchase_service_post(*old(m), *final(m), r, service_id, buyer),
{
    if !m.services.has(&service_id) {
        return Err(ContractError::NotFound);
    }
    let mut attrs: Vec<Attribute> = Vec::new();
    attrs.push(
        Attribute {
            key: "action".to_owned(),
            value: AttrValue::Str("purchase_service".to_owned()),
        },
    );
    attrs.push(
        Attribute { key: "service_id".to_owned(), value: AttrValue::Str(service_id.clone()) },
    );
    attrs.push(Attribute { key: "buyer".to_owned(), value: AttrValue::Str(buyer.clone()) });
    let mut ledger: Vec<String> = match m.purchases.take(&service_id) {
        Some(l) => l,
        None => Vec::new(),
    };
    ledger.push(buyer);
    m.purchases.set(service_id, ledger);
    Ok(Response { attributes: attrs })
}

/// Append a review and update the aggregate, both together or neither.
pub fn leave_review(
    m: &mut Marketplace,
    service_id: String,
    rating: u8,
    feedback: String,
    sender: String,
) -> (r: Result<Response, ContractError>)
    requires
        old(m).wf(),
        rating <= 5 ==> old(m).review_count_ok(service_id@),
    ensures
        leave_review_post(*old(m), *final(m), r, service_id, rating, feedback, sender),
{
    if rating > 5 {
        return Err(ContractError::ValidationError);
    }
    let mut attrs: Vec<Attribute> = Vec::new();
    attrs.push(
        Attribute { key: "action".to_owned(), value: AttrValue::Str("leave_review".to_owned()) },
    );
    attrs.push(
        Attribute { key: "service_id".to_owned(), value: AttrValue::Str(service_id.clone()) },
    );
    attrs.push(Attribute { key: "rating".to_owned(), value: AttrValue::Uint(rating as u128) });
    attrs.push(Attribute { key: "sender".to_owned(), value: AttrValue::Str(sender.clone()) });
    let review = Review { service_id: service_id.clone(), reviewer: sender, rating, feedback };
    let mut log: Vec<Review> = match m.reviews.take(&service_id) {
        Some(l) => l,
        None => Vec::new(),
    };
    let ghost rv = review;
    let ghost log0 = log@;
    log.push(review);
    m.reviews.set(service_id.clone(), log);
    let (count0, sum0): (u32, u64) = match m.review_metadata.take(&service_id) {
        Some(md) => (md.total_count, md.rating_sum),
        None => (0u32, 0u64),
    };
    proof {
        if old(m).reviews@.contains_key(service_id@) {
            assert(log0 == old(m).reviews@[service_id@]@);
            assert(metadata_consistent(log0, old(m).review_metadata@[service_id@]));
            assert(ratings_in_range(log0));
            lemma_sum_ratings_bound(log0);
        } else {
            assert(!old(m).review_metadata@.contains_key(service_id@));
            assert(log0.len() == 0);
        }
        assert(count0 == log0.len());
        assert(sum0 == sum_ratings(log0));
        assert(count0 < u32::MAX);
        assert(sum0 <= 5 * (count0 as int));
    }
    let md = ReviewMetadata { total_count: count0 + 1, rating_sum: sum0 + (rating as u64) };
    m.review_metadata.set(service_id, md);
    proof {
        let sid = service_id@;
        let newlog = log0.push(rv);
        assert(newlog.drop_last() =~= log0);
        assert(newlog.last() == rv);
        assert(sum_ratings(newlog) == sum_ratings(log0) + rating);
        assert(m.reviews@[sid]@ == newlog);
        assert(m.review_metadata@[sid] == md);
        assert(ratings_in_range(newlog)) by {
            assert forall|i: int| 0 <= i < newlog.len() implies #[trigger] newlog[i].rating
                <= 5 by {
                if i < log0.len() {
                    assert(newlog[i] == log0[i]);
                } else {
                    assert(newlog[i] == rv);
                }
            }
        }
        assert forall|k: Seq<char>| #[trigger] m.reviews@.contains_key(k)
            <==> m.review_metadata@.contains_key(k) by {
            if k != sid {
                assert(m.reviews@.contains_key(k) <==> old(m).reviews@.contains_key(k));
                assert(m.review_metadata@.contains_key(k) <==> old(
                    m,
                ).review_metadata@.contains_key(k));
            }
        }
        assert forall|k: Seq<char>| #[trigger] m.reviews@.contains_key(k)
            implies ratings_in_range(m.reviews@[k]@) && metadata_consistent(
            m.reviews@[k]@,
            m.review_metadata@[k],
        ) by {
            if k == sid {
                assert(metadata_consistent(newlog, md));
            } else {
                assert(old(m).reviews@.contains_key(k));
                assert(m.reviews@[k] == old(m).reviews@[k]);
                assert(m.review_metadata@[k] == old(m).review_metadata@[k]);
            }
        }
        assert(m.wf());
    }
    Ok(Response { attributes: attrs })
}

fn find_first_unresolved(ds: &Vec<Dispute>) -> (r: Option<usize>)
    ensures
        match r {
            Some(i) => is_first_unresolved(ds@, i as int),
            None => !has_unresolved(ds@),
        },
{
    let n = ds.len();
    let mut i: usize = 0;
    while i < n
        invariant
            n == ds@.len(),
            i <= n,
            forall|j: int| 0 <= j < i ==> ds@[j].resolution is Some,
        decreases n - i,
    {
        if ds[i].resolution.is_none() {
            return Some(i);
        }
        i += 1;
    }
    None
}

/// Grant the resolution to the first dispute, in insertion order, that has
/// none yet. No action of the dispatcher creates a dispute entry: the
/// dispute registry is populated out of band, so without such seeding this
/// handler always reports `NoUnresolvedDispute`.
pub fn resolve_dispute(
    m: &mut Marketplace,
    service_id: String,
    resolution: String,
    sender: String,
) -> (r: Result<Response, ContractError>)
    requires
        old(m).wf(),
    ensures
        resolve_dispute_post(*old(m), *final(m), r, service_id, resolution, sender),
{
    let idx: usize = {
        let found = match m.disputes.get(&service_id) {
            None => None,
            Some(ds) => find_first_unresolved(ds),
        };
        match found {
            Some(i) => i,
            None => {
                return Err(ContractError::NoUnresolvedDispute);
            }
        }
    };
    let mut attrs: Vec<Attribute> = Vec::new();
    attrs.push(
        Attribute {
            key: "action".to_owned(),
            value: AttrValue::Str("resolve_dispute".to_owned()),
        },
    );
    attrs.push(
        Attribute { key: "service_id".to_owned(), value: AttrValue::Str(service_id.clone()) },
    );
    attrs.push(Attribute { key: "sender".to_owned(), value: AttrValue::Str(sender.clone()) });
    attrs.push(
        Attribute { key: "resolution".to_owned(), value: AttrValue::Str(resolution.clone()) },
    );
    let mut ds: Vec<Dispute> = match m.disputes.take(&service_id) {
        Some(ds) => ds,
        None => {
            proof {
                assert(false);
            }
            Vec::new()
        }
    };
    let resolved = Dispute {
        service_id: ds[idx].service_id.clone(),
        disputant: ds[idx].disputant.clone(),
        description: ds[idx].description.clone(),
        resolution: Some(resolution),
    };
    let ghost resolved0 = resolved;
    ds.set(idx, resolved);
    let ghost ds1 = ds@;
    m.disputes.set(service_id, ds);
    proof {
        let sid = service_id@;
        let pre_ds = old(m).disputes@[sid]@;
        assert(pre_ds[idx as int].resolution is None);
        assert(has_unresolved(pre_ds));
        assert(resolved0 == resolved_with(pre_ds[idx as int], resolution));
        assert(m.disputes@[sid]@ == ds1);
        assert(resolution_applied(pre_ds, m.disputes@[sid]@, resolution)) by {
            assert(is_first_unresolved(pre_ds, idx as int) && m.disputes@[sid]@ == pre_ds.update(
                idx as int,
                resolved_with(pre_ds[idx as int], resolution),
            ));
        }
        assert(m.wf());
    }
    Ok(Response { attributes: attrs })
}

// ---------------------------------------------------------------------------
// The dispatcher.
// ---------------------------------------------------------------------------
/// Route one authorized action to its handler. A handler error aborts the
/// whole action: no registry changes.
pub fn handle_execute(m: &mut Marketplace, sender: String, msg: ExecuteMsg) -> (r: Result<
    Response,
    ContractError,
>)
    requires
        old(m).wf(),
        msg matches ExecuteMsg::LeaveReview { service_id, rating, feedback } ==> (rating <= 5
            ==> old(m).review_count_ok(service_id@)),
    ensures
        final(m).wf(),
        r is Err ==> *final(m) == *old(m),
        match msg {
            ExecuteMsg::ListService { service_id, description, price, category } => {
                list_service_post(
                    *old(m),
                    *final(m),
                    r,
                    service_id,
                    description,
                    price,
                    category,
                    sender,
                )
            },
            ExecuteMsg::PurchaseService { service_id, buyer } => {
                purchase_service_post(*old(m), *final(m), r, service_id, buyer)
            },
            ExecuteMsg::LeaveReview { service_id, rating, feedback } => {
                leave_review_post(*old(m), *final(m), r, service_id, rating, feedback, sender)
            },
            ExecuteMsg::ResolveDispute { service_id, resolution } => {
                resolve_dispute_post(*old(m), *final(m), r, service_id, resolution, sender)
            },
        },
{
    match msg {
        ExecuteMsg::ListService { service_id, description, price, category } => {
            list_service(m, service_id, description, price, category, sender)
        },
        ExecuteMsg::PurchaseService { service_id, buyer } => {
            purchase_service(m, service_id, buyer)
        },
        ExecuteMsg::LeaveReview { service_id, rating, feedback } => {
            leave_review(m, service_id, rating, feedback, sender)
        },
        ExecuteMsg::ResolveDispute { service_id, resolution } => {
            resolve_dispute(m, service_id, resolution, sender)
        },
    }
}

// ---------------------------------------------------------------------------
// Queries: pure projections over the registries.
// ---------------------------------------------------------------------------
/// Look one service's full record up.
pub fn get_service_details(m: &Marketplace, service_id: String) -> (r: Result<
    ServiceDetailsResponse,
    ContractError,
>)
    requires
        m.wf(),
    ensures
        m.services@.contains_key(service_id@) ==> (r matches Ok(resp) && resp == details_of(
            m.services@[service_id@],
        )),
        !m.services@.contains_key(service_id@) ==> r == Err::<
            ServiceDetailsResponse,
            ContractError,
        >(ContractError::NotFound),
{
    match m.services.get(&service_id) {
        Some(svc) => Ok(
            ServiceDetailsResponse {
                service_id: svc.service_id.clone(),
                description: svc.description.clone(),
                price: svc.price,
                category: svc.category.clone(),
                owner: svc.owner.clone(),
            },
        ),
        None => Err(ContractError::NotFound),
    }
}

/// Whether a service falls under the filter: no filter admits every service.
pub open spec fn category_matches(category: Option<String>, s: Service) -> bool {
    match category {
        Option::None => true,
        Option::Some(c) => s.category@ == c@,
    }
}

/// The summaries of the services admitted by the filter, in listing order.
pub open spec fn service_summaries(
    entries: Seq<(String, Service)>,
    category: Option<String>,
) -> Seq<ServiceSummary>
    decreases entries.len(),
{
    if entries.len() == 0 {
        Seq::empty()
    } else {
        let rest = service_summaries(entries.drop_last(), category);
        if category_matches(category, entries.last().1) {
            rest.push(summary_of(entries.last().1))
        } else {
            rest
        }
    }
}

/// List every service, optionally only those of one category.
pub fn list_services(m: &Marketplace, category: Option<String>) -> (r: ListServicesResponse)
    ensures
        r.services@ == service_summaries(m.services.kv_seq(), category),
{
    let mut out: Vec<ServiceSummary> = Vec::new();
    let n = m.services.entries.len();
    let mut i: usize = 0;
    while i < n
        invariant
            n == m.services.entries@.len(),
            i <= n,
            out@ == service_summaries(m.services.entries@.subrange(0, i as int), category),
        decreases n - i,
    {
        let svc = &m.services.entries[i].1;
        let admitted = match &category {
            None => true,
            Some(c) => svc.category == *c,
        };
        if admitted {
            out.push(
                ServiceSummary {
                    service_id: svc.service_id.clone(),
                    description: svc.description.clone(),
                    price: svc.price,
                    category: svc.category.clone(),
                },
            );
        }
        proof {
            let prefix = m.services.entries@.subrange(0, i as int);
            let cur = m.services.entries@.subrange(0, i as int + 1);
            assert(cur.drop_last() =~= prefix);
            assert(cur.last() == m.services.entries@[i as int]);
        }
        i += 1;
    }
    proof {
        assert(m.services.entries@.subrange(0, n as int) =~= m.services.entries@);
    }
    ListServicesResponse { services: out }
}

/// The summary of one review: its service, rating, and feedback.
pub open spec fn summary_of_review(rv: Review) -> ReviewSummary {
    ReviewSummary { service_id: rv.service_id, rating: rv.rating, feedback: rv.feedback }
}

/// The summaries of a whole review log, in insertion order.
pub open spec fn review_summaries(log: Seq<Review>) -> Seq<ReviewSummary>
    decreases log.len(),
{
    if log.len() == 0 {
        Seq::empty()
    } else {
        review_summaries(log.drop_last()).push(summary_of_review(log.last()))
    }
}

/// Every review on every service the provider owns, joined in listing order.
pub open spec fn provider_review_summaries(
    services: Seq<(String, Service)>,
    reviews: Map<Seq<char>, Vec<Review>>,
    provider: Seq<char>,
) -> Seq<ReviewSummary>
    decreases services.len(),
{
    if services.len() == 0 {
        Seq::empty()
    } else {
        let rest = provider_review_summaries(services.drop_last(), reviews, provider);
        let key = services.last().0@;
        if services.last().1.owner@ == provider && reviews.contains_key(key) {
            rest + review_summaries(reviews[key]@)
        } else {
            rest
        }
    }
}

/// Collect every review left on the provider's services.
pub fn get_provider_reviews(m: &Marketplace, provider_id: String) -> (r: ProviderReviewsResponse)
    requires
        m.wf(),
    ensures
        r.provider_id == provider_id,
        r.reviews@ == provider_review_summaries(m.services.kv_seq(), m.reviews@, provider_id@),
{
    let mut out: Vec<ReviewSummary> = Vec::new();
    let n = m.services.entries.len();
    let mut i: usize = 0;
    while i < n
        invariant
            m.wf(),
            n == m.services.entries@.len(),
            i <= n,
            out@ == provider_review_summaries(
                m.services.entries@.subrange(0, i as int),
                m.reviews@,
                provider_id@,
            ),
        decreases n - i,
    {
        let entry = &m.services.entries[i];
        if entry.1.owner == provider_id {
            match m.reviews.get(&entry.0) {
                Some(log) => {
                    let k = log.len();
                    let ghost base = out@;
                    let mut j: usize = 0;
                    while j < k
                        invariant
                            k == log@.len(),
                            j <= k,
                            out@ == base + review_summaries(log@.subrange(0, j as int)),
                        decreases k - j,
                    {
                        out.push(
                            ReviewSummary {
                                service_id: log[j].service_id.clone(),
                                rating: log[j].rating,
                                feedback: log[j].feedback.clone(),
                            },
                        );
                        proof {
                            let prefix = log@.subrange(0, j as int);
                            let cur = log@.subrange(0, j as int + 1);
                            assert(cur.drop_last() =~= prefix);
                            assert(cur.last() == log@[j as int]);
                        }
                        j += 1;
                    }
                    proof {
                        assert(log@.subrange(0, k as int) =~= log@);
                    }
                },
                None => {},
            }
        }
        proof {
            let prefix = m.services.entries@.subrange(0, i as int);
            let cur = m.services.entries@.subrange(0, i as int + 1);
            assert(cur.drop_last() =~= prefix);
            assert(cur.last() == m.services.entries@[i as int]);
        }
        i += 1;
    }
    proof {
        assert(m.services.entries@.subrange(0, n as int) =~= m.services.entries@);
    }
    ProviderReviewsResponse { provider_id, reviews: out }
}

/// Route one query to its projection. Only a detail lookup of a nonexistent
/// service fails.
pub fn query(m: &Marketplace, msg: QueryMsg) -> (r: Result<QueryAnswer, ContractError>)
    requires
        m.wf(),
    ensures
        match msg {
            QueryMsg::GetServiceDetails { service_id } => {
                &&& m.services@.contains_key(service_id@) ==> (r matches Ok(a) && a matches
                    QueryAnswer::Details(resp) && resp == details_of(m.services@[service_id@]))
                &&& !m.services@.contains_key(service_id@) ==> r == Err::<
                    QueryAnswer,
                    ContractError,
                >(ContractError::NotFound)
            },
            QueryMsg::ListServices { category } => r matches Ok(a) && a matches
                QueryAnswer::Services(resp) && resp.services@ == service_summaries(
                m.services.kv_seq(),
                category,
            ),
            QueryMsg::GetProviderReviews { provider_id } => r matches Ok(a) && a matches
                QueryAnswer::ProviderReviews(resp) && resp.provider_id == provider_id
                && resp.reviews@ == provider_review_summaries(
                m.services.kv_seq(),
                m.reviews@,
                provider_id@,
            ),
        },
{
    match msg {
        QueryMsg::GetServiceDetails { service_id } => {
            match get_service_details(m, service_id) {
                Ok(resp) => Ok(QueryAnswer::Details(resp)),
                Err(e) => Err(e),
            }
        },
        QueryMsg::ListServices { category } => {
            Ok(QueryAnswer::Services(list_services(m, category)))
        },
        QueryMsg::GetProviderReviews { provider_id } => {
            Ok(QueryAnswer::ProviderReviews(get_provider_reviews(m, provider_id)))
        },
    }
}

// ---------------------------------------------------------------------------
// Laws.
// ---------------------------------------------------------------------------
/// Listing the same id twice: the first call succeeds and records the
/// caller's service; the second fails with `AlreadyExists`, and the record
/// written by the first call is unchanged, as is everything else.
pub proof fn lemma_list_service_twice(
    m0: Marketplace,
    m1: Marketplace,
    m2: Marketplace,
    r1: Result<Response, ContractError>,
    r2: Result<Response, ContractError>,
    service_id: String,
    description_a: String,
    price_a: u128,
    category_a: String,
    sender_a: String,
    description_b: String,
    price_b: u128,
    category_b: String,
    sender_b: String,
)
    requires
        !m0.services@.contains_key(service_id@),
        list_service_post(m0, m1, r1, service_id, description_a, price_a, category_a, sender_a),
        list_service_post(m1, m2, r2, service_id, description_b, price_b, category_b, sender_b),
    ensures
        r1 is Ok,
        r2 == Err::<Response, ContractError>(ContractError::AlreadyExists),
        m2 == m1,
        m1.services@[service_id@] == (Service {
            service_id,
            description: description_a,
            price: price_a,
            category: category_a,
            owner: sender_a,
        }),
{
}

/// The aggregate equals the log it summarizes: after any sequence of
/// accepted reviews on one service, `total_count` is the number of reviews
/// and `rating_sum` is the sum of all their ratings, so the average rating
/// `rating_sum / total_count` is the arithmetic mean of every rating, and
/// it lies in `[0, 5]`.
pub proof fn lemma_metadata_is_mean(m: Marketplace, sid: Seq<char>)
    requires
        m.wf(),
        m.reviews@.contains_key(sid),
    ensures
        m.review_metadata@.contains_key(sid),
        m.review_metadata@[sid].total_count == m.reviews@[sid]@.len(),
        m.review_metadata@[sid].rating_sum == sum_ratings(m.reviews@[sid]@),
        m.review_metadata@[sid].rating_sum <= 5 * m.review_metadata@[sid].total_count,
{
    lemma_sum_ratings_bound(m.reviews@[sid]@);
}

/// The first unresolved entry is unique: resolution cannot be granted to
/// two different entries.
pub proof fn lemma_first_unresolved_unique(ds: Seq<Dispute>, i: int, j: int)
    requires
        is_first_unresolved(ds, i),
        is_first_unresolved(ds, j),
    ensures
        i == j,
{
}

/// An entry once resolved is never re-resolved: a successful resolution
/// leaves every already-resolved entry exactly as it was.
pub proof fn lemma_resolved_entry_stable(
    pre: Marketplace,
    post: Marketplace,
    r: Result<Response, ContractError>,
    service_id: String,
    resolution: String,
    sender: String,
    k: int,
)
    requires
        resolve_dispute_post(pre, post, r, service_id, resolution, sender),
        r is Ok,
        pre.disputes@.contains_key(service_id@),
        0 <= k < pre.disputes@[service_id@]@.len(),
        pre.disputes@[service_id@]@[k].resolution is Some,
    ensures
        post.disputes@[service_id@]@[k] == pre.disputes@[service_id@]@[k],
{
    let ds = pre.disputes@[service_id@]@;
    assert(has_unresolved(ds)) by {
        if !has_unresolved(ds) {
            assert(r == Err::<Response, ContractError>(ContractError::NoUnresolvedDispute));
        }
    }
    let i = choose|i: int|
        #[trigger] is_first_unresolved(ds, i) && post.disputes@[service_id@]@ == ds.update(
            i,
            resolved_with(ds[i], resolution),
        );
    assert(i != k);
}

} // verus!
