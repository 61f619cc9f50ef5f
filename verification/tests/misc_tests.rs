use dealer_store::codec::{encode_client, encode_setting, encode_vehicle};
use dealer_store::entities::{Client, Setting, Vehicle};
use dealer_store::errors::StoreError;
use dealer_store::ident::{get_current_user_id, require_user_id, MachineInfo};
use dealer_store::remote::generate_s3_key;
use dealer_store::store::Store;
use dealer_store::values::Value;

#[test]
fn user_id_is_never_known_locally() {
    assert_eq!(get_current_user_id(), None);
}

#[test]
fn require_user_id_accepts_only_non_empty() {
    assert_eq!(require_user_id(Some("u1".to_string())), Ok("u1".to_string()));
    let err = require_user_id(Some(String::new())).unwrap_err();
    assert_eq!(err, "User ID is required. Please log in.");
    let err = require_user_id(None).unwrap_err();
    assert_eq!(err, "User ID is required. Please log in.");
}

#[test]
fn s3_key_has_the_documented_shape() {
    let key = generate_s3_key("u1", "d9", "docA", "contract.pdf");
    assert_eq!(key, "standalone/u1/deals/d9/documents/docA_contract.pdf");
}

#[test]
fn machine_info_is_plain_data() {
    let info = MachineInfo {
        machine_id: "m".to_string(),
        platform: "linux".to_string(),
        hostname: "h".to_string(),
        app_version: "1.0.0".to_string(),
    };
    assert_eq!(info.clone(), info);
}

fn client(id: &str) -> Client {
    Client {
        id: id.to_string(),
        user_id: Some("u1".to_string()),
        first_name: "Ada".to_string(),
        last_name: "Lovelace".to_string(),
        email: None,
        phone: None,
        address: None,
        city: None,
        state: None,
        zip_code: None,
        drivers_license: None,
        created_at: 1,
        updated_at: 1,
        synced_at: None,
    }
}

fn vehicle(id: &str, vin: &str) -> Vehicle {
    Vehicle {
        id: id.to_string(),
        vin: vin.to_string(),
        stock_number: None,
        year: 2018,
        make: "Ford".to_string(),
        model: "Focus".to_string(),
        trim: None,
        body: None,
        doors: None,
        transmission: None,
        engine: None,
        cylinders: None,
        title_number: None,
        mileage: 5,
        color: None,
        price: 100,
        cost: None,
        status: "available".to_string(),
        description: None,
        images: None,
        created_at: 1,
        updated_at: 1,
        synced_at: None,
    }
}

#[test]
fn loader_round_trips_tables() {
    let rows = vec![encode_client(&client("c-1")), encode_client(&client("c-2"))];
    let mut store = Store::new();
    store.load_clients(&rows).unwrap();
    assert_eq!(store.clients.len(), 2);
    assert_eq!(store.clients[0].id, "c-1");
    assert_eq!(store.clients[1].id, "c-2");
    let srows = vec![encode_setting(&Setting {
        key: "theme".to_string(),
        value: "dark".to_string(),
        updated_at: 9,
    })];
    store.load_settings(&srows).unwrap();
    assert_eq!(store.db_get_setting("theme".to_string()).unwrap(), Some("dark".to_string()));
}

#[test]
fn loader_rejects_malformed_rows_and_duplicates() {
    let mut store = Store::new();
    let bad = vec![vec![Value::Int(1)]];
    assert_eq!(store.load_clients(&bad), Err(StoreError::DecodeError));
    assert!(store.clients.is_empty());
    let dup = vec![encode_client(&client("c-1")), encode_client(&client("c-1"))];
    assert_eq!(store.load_clients(&dup), Err(StoreError::DuplicateKey));
    let vin_dup = vec![
        encode_vehicle(&vehicle("v-1", "VINX")),
        encode_vehicle(&vehicle("v-2", "VINX")),
    ];
    assert_eq!(store.load_vehicles(&vin_dup), Err(StoreError::DuplicateKey));
}

#[test]
fn error_messages_are_available_without_display() {
    assert_eq!(StoreError::MissingTenant.message(), "User ID is required");
    assert_eq!(
        StoreError::NotFoundOrForbidden.message(),
        "not found or access denied"
    );
}
