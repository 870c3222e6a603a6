use rental_api::amount::Amount;
use rental_api::auth::register_user;
use rental_api::db::{create_property, list_properties, Database};
use rental_api::models::{CreateProperty, RegisterUser};

fn property_request(address: &str, rent: &str) -> CreateProperty {
    CreateProperty {
        address: address.to_string(),
        unit_number: None,
        current_rent_amount: Amount::parse(rent).expect("rent parses"),
        current_tenant_id: None,
    }
}

#[test]
fn created_properties_are_listed() {
    let mut db = Database::new();
    let p1 = create_property(&mut db, property_request("12 Elm Street", "950.00")).unwrap();
    let p2 = create_property(
        &mut db,
        CreateProperty {
            unit_number: Some("4b".to_string()),
            ..property_request("7 Oak Avenue", "1200.50")
        },
    )
    .unwrap();
    assert_ne!(p1.id, p2.id);

    let listed = list_properties(&db);
    assert_eq!(listed.len(), 2);
    assert_eq!(listed[0].id, p1.id);
    assert_eq!(listed[0].address, "12 Elm Street");
    assert_eq!(listed[1].id, p2.id);
    assert_eq!(listed[1].unit_number, Some("4b".to_string()));
    assert_eq!(listed[1].current_rent_amount.minor_units(), 120_050);
}

#[test]
fn properties_are_listed_sorted_by_address_then_unit() {
    let mut db = Database::new();
    let oak = create_property(&mut db, property_request("7 Oak Avenue", "1200.00")).unwrap();
    let elm_no_unit = create_property(&mut db, property_request("12 Elm Street", "950.00")).unwrap();
    let elm_2a = create_property(
        &mut db,
        CreateProperty {
            unit_number: Some("2a".to_string()),
            ..property_request("12 Elm Street", "900.00")
        },
    )
    .unwrap();
    let elm_1b = create_property(
        &mut db,
        CreateProperty {
            unit_number: Some("1b".to_string()),
            ..property_request("12 Elm Street", "800.00")
        },
    )
    .unwrap();

    let listed = list_properties(&db);
    let ids: Vec<u64> = listed.iter().map(|p| p.id).collect();
    // "12 Elm Street" precedes "7 Oak Avenue"; units ascend, none last
    assert_eq!(ids, vec![elm_1b.id, elm_2a.id, elm_no_unit.id, oak.id]);
}

#[test]
fn payment_may_reference_a_property() {
    let mut db = Database::new();
    let tenant = register_user(
        &mut db,
        RegisterUser { username: "carol".to_string(), password: "pw".to_string() },
    )
    .unwrap()
    .id;
    let home = create_property(&mut db, property_request("12 Elm Street", "950.00")).unwrap();

    let resp = rental_api::payments::create_payment(
        &mut db,
        rental_api::models::CreatePayment {
            user_id: tenant,
            property_id: Some(home.id),
            amount: Amount::parse("950.00").unwrap(),
            currency: "USD".to_string(),
            notes: None,
            due_date: Some(rental_api::models::CalendarDate { year: 2024, month: 3, day: 1 }),
            period_start: None,
            period_end: None,
        },
    )
    .unwrap();
    assert_eq!(resp.property_id, Some(home.id));
    assert_eq!(
        resp.due_date,
        Some(rental_api::models::CalendarDate { year: 2024, month: 3, day: 1 })
    );

    let by_property = rental_api::db::list_payments(&db, None, Some(home.id));
    assert_eq!(by_property.len(), 1);
    assert_eq!(by_property[0].id, resp.id);

    // a payment naming an unknown property is rejected as a store fault
    let bad = rental_api::payments::create_payment(
        &mut db,
        rental_api::models::CreatePayment {
            user_id: tenant,
            property_id: Some(home.id + 1000),
            amount: Amount::parse("1.00").unwrap(),
            currency: "USD".to_string(),
            notes: None,
            due_date: None,
            period_start: None,
            period_end: None,
        },
    );
    assert!(matches!(bad, Err(rental_api::errors::AppError::InternalServerError(_))));
}
