use food_aggregator::api::{
    AppError, ClerkEmailAddress, ClerkError, ClerkUser, ClerkUserRecord, FoodSearchResult, HttpResponse,
};
use food_aggregator::models::{CreateFoodSourcePayload, CreateWWEIACategoryPayload};

fn record() -> ClerkUserRecord {
    ClerkUserRecord {
        id: Some("user_1".to_string()),
        primary_email_address_id: Some("idn_2".to_string()),
        email_addresses: Some(vec![
            ClerkEmailAddress { id: Some("idn_1".to_string()), email_address: "old@example.com".to_string() },
            ClerkEmailAddress { id: None, email_address: "none@example.com".to_string() },
            ClerkEmailAddress { id: Some("idn_2".to_string()), email_address: "main@example.com".to_string() },
        ]),
        has_image: None,
        image_url: Some("https://img.example.com/u.png".to_string()),
    }
}

#[test]
fn user_takes_primary_email() {
    let u = ClerkUser::try_from(record()).unwrap();
    assert_eq!(u.id(), "user_1");
    assert_eq!(u.email(), "main@example.com");
    assert!(!u.has_image());
    assert_eq!(u.image_url(), Some("https://img.example.com/u.png"));
}

#[test]
fn user_without_id_is_refused() {
    let mut r = record();
    r.id = None;
    assert_eq!(ClerkUser::try_from(r), Err(ClerkError::MissingId));
}

#[test]
fn user_without_primary_email_is_refused() {
    let mut r = record();
    r.primary_email_address_id = None;
    assert_eq!(ClerkUser::try_from(r), Err(ClerkError::MissingEmailAddress("user_1".to_string())));
    let mut r = record();
    r.email_addresses = None;
    assert_eq!(ClerkUser::try_from(r), Err(ClerkError::MissingEmailAddress("user_1".to_string())));
    let mut r = record();
    r.primary_email_address_id = Some("idn_9".to_string());
    assert_eq!(ClerkUser::try_from(r), Err(ClerkError::MissingEmailAddress("user_1".to_string())));
}

#[test]
fn error_messages() {
    assert_eq!(ClerkError::MissingId.message(), "User is missing required field: `id`");
    assert_eq!(
        ClerkError::MissingEmailAddress("u7".to_string()).message(),
        "User (ID: u7) is missing required field: `email_address`"
    );
    let e = AppError::ServerError("db down".to_string());
    assert_eq!(e.message(), "Something went wrong: db down");
    assert_eq!(e.error_code(), 500);
    assert_eq!(e.status_text(), "Internal Server Error");
    let u = AppError::Unauthorized(ClerkError::MissingId);
    assert_eq!(u.message(), "User is missing required field: `id`");
    assert_eq!(u.error_code(), 401);
    assert_eq!(u.status_text(), "Unauthorized");
}

#[test]
fn response_envelope_is_ok() {
    let r = HttpResponse::from(true);
    assert!(r.ok);
    assert_eq!(r.status, 200);
    assert_eq!(r.status_text, "OK");
    assert!(r.body);
    let hits = vec![FoodSearchResult { id: "1".to_string(), name: "Apple".to_string(), source: "USDA".to_string() }];
    assert_eq!(HttpResponse::from(hits.clone()).body, hits);
}

#[test]
fn payload_constructors_keep_fields() {
    assert_eq!(CreateFoodSourcePayload::new("USDA".to_string()).name, "USDA");
    let c = CreateWWEIACategoryPayload::new(9, "Fruits".to_string());
    assert_eq!((c.code, c.name.as_str()), (9, "Fruits"));
}
