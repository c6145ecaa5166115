use skills_marketplace::contract::{
    get_provider_reviews, get_service_details, leave_review, list_service, list_services, query,
};
use skills_marketplace::msg::QueryMsg;
use skills_marketplace::responses::QueryAnswer;
use skills_marketplace::state::{ContractError, Marketplace};

fn marketplace_with_three_services() -> Marketplace {
    let mut m = Marketplace::new();
    for (id, desc, price, cat, owner) in [
        ("svc1", "logo design", 100u128, "design", "alice"),
        ("svc2", "mixing", 300u128, "audio", "bob"),
        ("svc3", "poster design", 150u128, "design", "alice"),
    ] {
        let r = list_service(
            &mut m,
            id.to_string(),
            desc.to_string(),
            price,
            cat.to_string(),
            owner.to_string(),
        );
        assert!(r.is_ok());
    }
    m
}

#[test]
fn details_returns_the_stored_record() {
    let m = marketplace_with_three_services();
    let resp = get_service_details(&m, "svc2".to_string()).unwrap();
    assert_eq!(resp.service_id, "svc2");
    assert_eq!(resp.description, "mixing");
    assert_eq!(resp.price, 300);
    assert_eq!(resp.category, "audio");
    assert_eq!(resp.owner, "bob");
}

#[test]
fn details_of_unknown_id_fails_not_found() {
    let m = marketplace_with_three_services();
    let r = get_service_details(&m, "ghost".to_string());
    assert_eq!(r.unwrap_err(), ContractError::NotFound);
}

#[test]
fn listing_without_filter_returns_every_service_in_order() {
    let m = marketplace_with_three_services();
    let resp = list_services(&m, None);
    let ids: Vec<&str> = resp.services.iter().map(|s| s.service_id.as_str()).collect();
    assert_eq!(ids, vec!["svc1", "svc2", "svc3"]);
    assert_eq!(resp.services[0].price, 100);
    assert_eq!(resp.services[1].category, "audio");
}

#[test]
fn listing_with_filter_keeps_only_that_category() {
    let m = marketplace_with_three_services();
    let resp = list_services(&m, Some("design".to_string()));
    let ids: Vec<&str> = resp.services.iter().map(|s| s.service_id.as_str()).collect();
    assert_eq!(ids, vec!["svc1", "svc3"]);
    let resp = list_services(&m, Some("video".to_string()));
    assert!(resp.services.is_empty());
}

#[test]
fn provider_reviews_joins_reviews_over_owned_services() {
    let mut m = marketplace_with_three_services();
    for (id, rating, text) in [
        ("svc1", 4u8, "good"),
        ("svc2", 5u8, "great"),
        ("svc3", 2u8, "late"),
        ("svc1", 3u8, "fine"),
    ] {
        let r = leave_review(
            &mut m,
            id.to_string(),
            rating,
            text.to_string(),
            "carol".to_string(),
        );
        assert!(r.is_ok());
    }
    let resp = get_provider_reviews(&m, "alice".to_string());
    assert_eq!(resp.provider_id, "alice");
    let got: Vec<(&str, u8, &str)> = resp
        .reviews
        .iter()
        .map(|r| (r.service_id.as_str(), r.rating, r.feedback.as_str()))
        .collect();
    assert_eq!(
        got,
        vec![("svc1", 4, "good"), ("svc1", 3, "fine"), ("svc3", 2, "late")]
    );
    let resp = get_provider_reviews(&m, "dan".to_string());
    assert!(resp.reviews.is_empty());
}

#[test]
fn query_dispatcher_routes_each_kind() {
    let m = marketplace_with_three_services();
    match query(&m, QueryMsg::GetServiceDetails { service_id: "svc1".to_string() }).unwrap() {
        QueryAnswer::Details(d) => assert_eq!(d.owner, "alice"),
        _ => panic!("wrong answer kind"),
    }
    match query(&m, QueryMsg::ListServices { category: Some("audio".to_string()) }).unwrap() {
        QueryAnswer::Services(l) => assert_eq!(l.services.len(), 1),
        _ => panic!("wrong answer kind"),
    }
    match query(&m, QueryMsg::GetProviderReviews { provider_id: "bob".to_string() }).unwrap() {
        QueryAnswer::ProviderReviews(p) => assert!(p.reviews.is_empty()),
        _ => panic!("wrong answer kind"),
    }
    let r = query(&m, QueryMsg::GetServiceDetails { service_id: "nope".to_string() });
    assert_eq!(r.unwrap_err(), ContractError::NotFound);
}
