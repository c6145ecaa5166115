use skills_marketplace::contract::{
    handle_execute, leave_review, list_service, purchase_service, resolve_dispute,
};
use skills_marketplace::msg::ExecuteMsg;
use skills_marketplace::responses::AttrValue;
use skills_marketplace::state::{ContractError, Dispute, Marketplace};

fn listed(m: &mut Marketplace, id: &str, owner: &str) {
    let r = list_service(
        m,
        id.to_string(),
        "a service".to_string(),
        100,
        "design".to_string(),
        owner.to_string(),
    );
    assert!(r.is_ok());
}

#[test]
fn list_service_records_the_listing() {
    let mut m = Marketplace::new();
    let r = list_service(
        &mut m,
        "svc1".to_string(),
        "logo design".to_string(),
        250,
        "design".to_string(),
        "alice".to_string(),
    );
    let resp = r.unwrap();
    assert_eq!(resp.attributes.len(), 6);
    assert_eq!(resp.attributes[0].key, "action");
    assert_eq!(resp.attributes[0].value, AttrValue::Str("list_service".to_string()));
    assert_eq!(resp.attributes[3].value, AttrValue::Uint(250));
    let svc = m.services.get(&"svc1".to_string()).unwrap();
    assert_eq!(svc.service_id, "svc1");
    assert_eq!(svc.description, "logo design");
    assert_eq!(svc.price, 250);
    assert_eq!(svc.category, "design");
    assert_eq!(svc.owner, "alice");
}

#[test]
fn listing_the_same_id_twice_fails_and_keeps_the_first_record() {
    let mut m = Marketplace::new();
    listed(&mut m, "svc1", "alice");
    let before = m.services.get(&"svc1".to_string()).unwrap().clone();
    let r = list_service(
        &mut m,
        "svc1".to_string(),
        "another description".to_string(),
        999,
        "audio".to_string(),
        "mallory".to_string(),
    );
    assert_eq!(r.unwrap_err(), ContractError::AlreadyExists);
    let after = m.services.get(&"svc1".to_string()).unwrap();
    assert_eq!(*after, before);
}

#[test]
fn purchase_appends_buyers_in_order() {
    let mut m = Marketplace::new();
    listed(&mut m, "svc1", "alice");
    assert!(purchase_service(&mut m, "svc1".to_string(), "bob".to_string()).is_ok());
    assert!(purchase_service(&mut m, "svc1".to_string(), "carol".to_string()).is_ok());
    let ledger = m.purchases.get(&"svc1".to_string()).unwrap();
    assert_eq!(*ledger, vec!["bob".to_string(), "carol".to_string()]);
}

#[test]
fn purchase_of_unlisted_service_fails_not_found_and_writes_nothing() {
    let mut m = Marketplace::new();
    let r = purchase_service(&mut m, "ghost".to_string(), "bob".to_string());
    assert_eq!(r.unwrap_err(), ContractError::NotFound);
    assert!(m.purchases.get(&"ghost".to_string()).is_none());
}

#[test]
fn every_rating_up_to_five_is_accepted() {
    let mut m = Marketplace::new();
    for rating in 0u8..=5u8 {
        let r = leave_review(
            &mut m,
            "svc1".to_string(),
            rating,
            "fine".to_string(),
            "bob".to_string(),
        );
        assert!(r.is_ok());
    }
    let md = m.review_metadata.get(&"svc1".to_string()).unwrap();
    assert_eq!(md.total_count, 6);
    assert_eq!(md.rating_sum, 15);
}

#[test]
fn rating_above_five_fails_validation_and_changes_nothing() {
    let mut m = Marketplace::new();
    assert!(
        leave_review(&mut m, "svc1".to_string(), 4, "good".to_string(), "bob".to_string()).is_ok()
    );
    for bad in [6u8, 7u8, 255u8] {
        let r = leave_review(
            &mut m,
            "svc1".to_string(),
            bad,
            "too high".to_string(),
            "bob".to_string(),
        );
        assert_eq!(r.unwrap_err(), ContractError::ValidationError);
    }
    let log = m.reviews.get(&"svc1".to_string()).unwrap();
    assert_eq!(log.len(), 1);
    assert_eq!(log[0].rating, 4);
    let md = m.review_metadata.get(&"svc1".to_string()).unwrap();
    assert_eq!(md.total_count, 1);
    assert_eq!(md.rating_sum, 4);
}

#[test]
fn average_rating_is_the_mean_of_all_accepted_ratings() {
    let mut m = Marketplace::new();
    let ratings = [5u8, 3u8, 4u8, 0u8, 2u8, 1u8, 5u8];
    for (i, rating) in ratings.iter().enumerate() {
        let r = leave_review(
            &mut m,
            "svc1".to_string(),
            *rating,
            format!("review {}", i),
            "bob".to_string(),
        );
        assert!(r.is_ok());
        let md = m.review_metadata.get(&"svc1".to_string()).unwrap();
        let n = (i + 1) as u32;
        let sum: u64 = ratings[..=i].iter().map(|r| *r as u64).sum();
        assert_eq!(md.total_count, n);
        assert_eq!(md.rating_sum, sum);
        let average = md.rating_sum as f32 / md.total_count as f32;
        let mean = sum as f32 / n as f32;
        assert!((average - mean).abs() < 1e-6);
    }
    let log = m.reviews.get(&"svc1".to_string()).unwrap();
    assert_eq!(log.len(), ratings.len());
}

#[test]
fn resolve_without_any_dispute_fails_no_unresolved() {
    let mut m = Marketplace::new();
    listed(&mut m, "svc1", "alice");
    let r = resolve_dispute(
        &mut m,
        "svc1".to_string(),
        "refund granted".to_string(),
        "alice".to_string(),
    );
    assert_eq!(r.unwrap_err(), ContractError::NoUnresolvedDispute);
    assert!(m.disputes.get(&"svc1".to_string()).is_none());
}

fn dispute(id: &str, who: &str, text: &str, resolution: Option<&str>) -> Dispute {
    Dispute {
        service_id: id.to_string(),
        disputant: who.to_string(),
        description: text.to_string(),
        resolution: resolution.map(|s| s.to_string()),
    }
}

#[test]
fn resolve_with_fully_resolved_list_fails_and_changes_no_entry() {
    let mut m = Marketplace::new();
    let seeded = vec![
        dispute("svc1", "bob", "late delivery", Some("refunded")),
        dispute("svc1", "carol", "wrong file", Some("replaced")),
    ];
    m.disputes.set("svc1".to_string(), seeded.clone());
    let r = resolve_dispute(
        &mut m,
        "svc1".to_string(),
        "again".to_string(),
        "alice".to_string(),
    );
    assert_eq!(r.unwrap_err(), ContractError::NoUnresolvedDispute);
    assert_eq!(*m.disputes.get(&"svc1".to_string()).unwrap(), seeded);
}

#[test]
fn resolve_grants_the_first_unresolved_entry_only() {
    let mut m = Marketplace::new();
    m.disputes.set(
        "svc1".to_string(),
        vec![
            dispute("svc1", "bob", "late delivery", Some("refunded")),
            dispute("svc1", "carol", "wrong file", None),
            dispute("svc1", "dan", "no response", None),
        ],
    );
    let r = resolve_dispute(
        &mut m,
        "svc1".to_string(),
        "replaced the file".to_string(),
        "alice".to_string(),
    );
    assert!(r.is_ok());
    let ds = m.disputes.get(&"svc1".to_string()).unwrap();
    assert_eq!(ds[0].resolution, Some("refunded".to_string()));
    assert_eq!(ds[1].resolution, Some("replaced the file".to_string()));
    assert_eq!(ds[2].resolution, None);
    // A second resolution goes to the next entry; the earlier ones keep
    // the resolution they already have.
    let r2 = resolve_dispute(
        &mut m,
        "svc1".to_string(),
        "apologized".to_string(),
        "alice".to_string(),
    );
    assert!(r2.is_ok());
    let ds = m.disputes.get(&"svc1".to_string()).unwrap();
    assert_eq!(ds[1].resolution, Some("replaced the file".to_string()));
    assert_eq!(ds[2].resolution, Some("apologized".to_string()));
}

#[test]
fn dispatcher_routes_each_action_and_aborts_atomically_on_error() {
    let mut m = Marketplace::new();
    let r = handle_execute(
        &mut m,
        "alice".to_string(),
        ExecuteMsg::ListService {
            service_id: "svc1".to_string(),
            description: "logo design".to_string(),
            price: 100,
            category: "design".to_string(),
        },
    );
    assert!(r.is_ok());
    let r = handle_execute(
        &mut m,
        "bob".to_string(),
        ExecuteMsg::PurchaseService { service_id: "svc1".to_string(), buyer: "bob".to_string() },
    );
    assert!(r.is_ok());
    let r = handle_execute(
        &mut m,
        "bob".to_string(),
        ExecuteMsg::LeaveReview {
            service_id: "svc1".to_string(),
            rating: 9,
            feedback: "out of range".to_string(),
        },
    );
    assert_eq!(r.unwrap_err(), ContractError::ValidationError);
    assert!(m.reviews.get(&"svc1".to_string()).is_none());
    let r = handle_execute(
        &mut m,
        "alice".to_string(),
        ExecuteMsg::ResolveDispute {
            service_id: "svc1".to_string(),
            resolution: "done".to_string(),
        },
    );
    assert_eq!(r.unwrap_err(), ContractError::NoUnresolvedDispute);
    assert_eq!(m.purchases.get(&"svc1".to_string()).unwrap().len(), 1);
}

#[test]
fn scenario_one_listing_one_purchase_two_reviews() {
    let mut m = Marketplace::new();
    let r = list_service(
        &mut m,
        "svc1".to_string(),
        "logo design".to_string(),
        100,
        "design".to_string(),
        "a".to_string(),
    );
    assert!(r.is_ok());
    assert!(purchase_service(&mut m, "svc1".to_string(), "b".to_string()).is_ok());
    assert!(
        leave_review(&mut m, "svc1".to_string(), 4, "good".to_string(), "b".to_string()).is_ok()
    );
    assert!(
        leave_review(&mut m, "svc1".to_string(), 2, "meh".to_string(), "b".to_string()).is_ok()
    );
    assert_eq!(m.services.get(&"svc1".to_string()).unwrap().owner, "a");
    assert_eq!(*m.purchases.get(&"svc1".to_string()).unwrap(), vec!["b".to_string()]);
    let md = m.review_metadata.get(&"svc1".to_string()).unwrap();
    assert_eq!(md.total_count, 2);
    let average = md.rating_sum as f32 / md.total_count as f32;
    assert_eq!(average, 3.0);
}

#[test]
fn error_messages_carry_the_kind() {
    assert_eq!(ContractError::AlreadyExists.message(), "Service already exists");
    assert_eq!(ContractError::NotFound.message(), "Service not found");
    assert_eq!(ContractError::ValidationError.message(), "Rating must be between 0 and 5");
    assert_eq!(
        ContractError::NoUnresolvedDispute.message(),
        "No unresolved disputes for this service"
    );
    assert_eq!(
        ContractError::StorageError("disk failed".to_string()).message(),
        "disk failed"
    );
}
