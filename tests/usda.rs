use food_aggregator::normalizer::collect_dimensions;
use food_aggregator::supervisor::Completion;
use food_aggregator::usda::{
    AggregateStep, UsdaAggregator, UsdaClient, UsdaFoodNutrient, UsdaFoodSearchFood, UsdaFoodSearchResponse,
    UsdaSearchRequest, PAGE_SIZE,
};
use food_aggregator::{AggregateStatus, SourceError};

fn client() -> UsdaClient {
    UsdaClient::new("https://api.example.org/fdc/v1".to_string(), "SECRET-REDACTED".to_string())
}

fn apple() -> UsdaFoodSearchFood {
    UsdaFoodSearchFood {
        fdc_id: 101,
        description: "Apple".to_string(),
        food_code: Some(63101000),
        food_category: Some("Fruits".to_string()),
        food_category_id: Some(9),
        food_nutrients: vec![UsdaFoodNutrient {
            nutrient_name: "Energy".to_string(),
            unit_name: "KCAL".to_string(),
            value: Some(52.0f32.to_bits()),
        }],
    }
}

#[test]
fn client_targets_the_search_endpoint() {
    let c = client();
    assert_eq!(c.api_url, "https://api.example.org/fdc/v1/foods/search");
    assert_eq!(c.page_size, 200);
    assert_eq!(c.name(), "USDA");
    assert_eq!(
        c.search_request(7),
        UsdaSearchRequest {
            url: "https://api.example.org/fdc/v1/foods/search".to_string(),
            api_key: "SECRET-REDACTED".to_string(),
            page_size: PAGE_SIZE,
            page_number: 7,
        }
    );
}

#[test]
fn fetch_outcome_classifies_status_and_body() {
    let page = UsdaFoodSearchResponse { total_pages: 1, foods: vec![] };
    assert_eq!(UsdaClient::fetch_outcome(200, Ok(page.clone())), Ok(page.clone()));
    assert_eq!(UsdaClient::fetch_outcome(503, Ok(page)), Err(SourceError::Upstream(503)));
    assert_eq!(
        UsdaClient::fetch_outcome(200, Err("missing field `foods`".to_string())),
        Err(SourceError::Deserialize("missing field `foods`".to_string()))
    );
    assert_eq!(UsdaClient::fetch_outcome(404, Err("x".to_string())), Err(SourceError::Upstream(404)));
}

#[test]
fn food_maps_to_entry() {
    let food = apple();
    assert_eq!(food.source(), "USDA");
    assert_eq!(food.name(), "Apple");
    assert_eq!(food.id(), 101);
    assert_eq!(food.fndds_code(), Some(63101000));
    assert_eq!(food.wweia_data(), Some((9, "Fruits".to_string())));
    assert_eq!(food.nutrients().len(), 1);
    let e = food.to_entry();
    assert_eq!(e.source, "USDA");
    assert_eq!(e.id, 101);
    assert_eq!(e.name, "Apple");
    assert_eq!(e.fndds_code, Some(63101000));
    assert_eq!(e.wweia, Some((9, "Fruits".to_string())));
    assert_eq!(e.nutrients[0].name, "Energy");
    assert_eq!(e.nutrients[0].unit_name, "KCAL");
    assert_eq!(e.nutrients[0].value, Some(52.0f32.to_bits()));
}

#[test]
fn category_needs_both_code_and_name() {
    let mut food = apple();
    food.food_category = None;
    assert_eq!(food.wweia_data(), None);
    let mut food = apple();
    food.food_category_id = None;
    assert_eq!(food.to_entry().wweia, None);
}

#[test]
fn nutrient_value_defaults_to_zero() {
    let n = UsdaFoodNutrient { nutrient_name: "Energy".to_string(), unit_name: "KCAL".to_string(), value: None };
    assert_eq!(n.name(), "Energy");
    assert_eq!(n.unit_name(), "KCAL");
    assert_eq!(n.value(), 0);
    assert_eq!(f32::from_bits(n.value()), 0.0);
    assert_eq!(n.to_entry_nutrient().value, None);
}

#[test]
fn response_entries_keep_order() {
    let mut banana = apple();
    banana.fdc_id = 102;
    banana.description = "Banana".to_string();
    let page = UsdaFoodSearchResponse { total_pages: 2, foods: vec![apple(), banana] };
    let entries = page.entries();
    assert_eq!(entries.iter().map(|e| e.id).collect::<Vec<_>>(), vec![101, 102]);
    let dims = collect_dimensions(&entries);
    assert_eq!(dims.categories, vec![(9, "Fruits".to_string())]);
}

#[test]
fn single_page_sweep_needs_no_supervisor() {
    let mut agg = UsdaAggregator::new(client());
    assert_eq!(agg.begin(0), AggregateStep::FetchFirstPage(client().search_request(1)));
    assert!(!agg.first_page_fetched(1));
    assert!(agg.is_done());
    assert_eq!(agg.next_worker(0), None);
    assert_eq!(agg.finish(), AggregateStatus::Finished);
}

#[test]
fn two_page_sweep_fetches_page_two() {
    let mut agg = UsdaAggregator::new(client());
    assert!(matches!(agg.begin(1_000), AggregateStep::FetchFirstPage(_)));
    assert!(agg.first_page_fetched(2));
    let task = agg.next_worker(0).unwrap();
    assert_eq!(task.page, 2);
    assert_eq!(agg.request_for(&task).page_number, 2);
    assert_eq!(agg.next_worker(0), None);
    assert_eq!(agg.complete(task.worker_id, Ok(2)), Completion::Persist { page: 2 });
    assert!(agg.is_done());
    assert_eq!(agg.finish(), AggregateStatus::Finished);
    // a finished sweep is dropped: the next run starts over with page 1
    assert!(matches!(agg.begin(1_000), AggregateStep::FetchFirstPage(_)));
}

#[test]
fn aborted_sweep_starts_over() {
    let mut agg = UsdaAggregator::new(client());
    assert!(matches!(agg.begin(1_000), AggregateStep::FetchFirstPage(_)));
    assert!(agg.first_page_fetched(5));
    agg.abort();
    assert!(agg.is_done());
    assert_eq!(agg.complete(food_aggregator::supervisor::WorkerId(0), Ok(5)), Completion::Unknown);
}

#[test]
fn quota_exhausted_mid_sweep_defers_and_resumes() {
    // quota 2 per hour, five pages: page 1 and page 2 take the two tokens
    let mut agg = UsdaAggregator::with_quota(client(), 2);
    assert!(matches!(agg.begin(1_000), AggregateStep::FetchFirstPage(_)));
    assert!(agg.first_page_fetched(5));
    let task = agg.next_worker(1_000).unwrap();
    assert_eq!(task.page, 2);
    assert_eq!(agg.next_worker(1_000), None);
    assert!(!agg.is_done());
    assert_eq!(agg.complete(task.worker_id, Ok(5)), Completion::Persist { page: 2 });
    assert!(agg.is_done());
    let wake = match agg.finish() {
        AggregateStatus::PendingUntil(t) => t,
        AggregateStatus::Finished => panic!("expected a deferral"),
    };
    // the next token comes about half an hour later
    assert!(wake > 1_000 && wake <= 1_000 + 30 * 60 * 1000);
    // resuming keeps the sweep: no new first page is asked for
    assert_eq!(agg.begin(1_000), AggregateStep::Resume);
    assert_eq!(agg.next_worker(1_000), None);
    assert!(agg.is_done());
    assert!(matches!(agg.finish(), AggregateStatus::PendingUntil(_)));
}

#[test]
fn first_page_token_refused_defers_the_run() {
    let mut agg = UsdaAggregator::with_quota(client(), 1);
    assert!(matches!(agg.begin(1_000), AggregateStep::FetchFirstPage(_)));
    assert!(!agg.first_page_fetched(1));
    assert_eq!(agg.finish(), AggregateStatus::Finished);
    // the only token of the hour is spent: no fetch, a deferral instead
    match agg.begin(1_000) {
        AggregateStep::DeferUntil(t) => assert!(t > 1_000 && t <= 1_000 + 60 * 60 * 1000),
        other => panic!("expected a deferral, got {other:?}"),
    }
    // no sweep was started
    assert!(agg.is_done());
    assert_eq!(agg.next_worker(1_000), None);
    assert_eq!(agg.finish(), AggregateStatus::Finished);
}
