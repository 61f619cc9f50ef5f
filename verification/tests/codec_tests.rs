use dealer_store::codec::{
    decode_client, decode_deal, decode_document, decode_setting, decode_vehicle, encode_client,
    encode_deal, encode_document, encode_setting, encode_vehicle,
};
use dealer_store::entities::{Client, Deal, Document, Setting, Vehicle};
use dealer_store::errors::StoreError;
use dealer_store::values::Value;

fn sample_client() -> Client {
    Client {
        id: "c-1".to_string(),
        user_id: Some("u1".to_string()),
        first_name: "Ada".to_string(),
        last_name: "Lovelace".to_string(),
        email: Some("ada@example.com".to_string()),
        phone: None,
        address: Some("12 Analytical Way".to_string()),
        city: None,
        state: None,
        zip_code: None,
        drivers_license: None,
        created_at: 111,
        updated_at: 222,
        synced_at: None,
    }
}

fn sample_vehicle() -> Vehicle {
    Vehicle {
        id: "v-1".to_string(),
        vin: "1HGCM82633A004352".to_string(),
        stock_number: Some("S-77".to_string()),
        year: 2019,
        make: "Honda".to_string(),
        model: "Accord".to_string(),
        trim: None,
        body: Some("Sedan".to_string()),
        doors: Some(4),
        transmission: None,
        engine: None,
        cylinders: Some(4),
        title_number: None,
        mileage: 42_000,
        color: Some("Blue".to_string()),
        price: 1_899_500,
        cost: Some(1_500_000),
        status: "available".to_string(),
        description: None,
        images: Some("[]".to_string()),
        created_at: 10,
        updated_at: 20,
        synced_at: Some(30),
    }
}

fn sample_deal() -> Deal {
    Deal {
        id: "d-1".to_string(),
        user_id: Some("u1".to_string()),
        deal_type: "sale".to_string(),
        client_id: "c-1".to_string(),
        vehicle_id: "v-1".to_string(),
        status: "pending".to_string(),
        total_amount: 2_000_000,
        sale_date: Some(1_700_000),
        sale_amount: Some(1_899_500),
        sales_tax: Some(94_975),
        doc_fee: Some(5_525),
        trade_in_value: None,
        down_payment: Some(200_000),
        financed_amount: None,
        document_ids: "[]".to_string(),
        cobuyer_data: None,
        created_at: 100,
        updated_at: 200,
        synced_at: None,
    }
}

fn sample_document() -> Document {
    Document {
        id: "doc-1".to_string(),
        deal_id: "d-1".to_string(),
        doc_type: "contract".to_string(),
        filename: "contract.pdf".to_string(),
        file_path: "/docs/contract.pdf".to_string(),
        file_size: Some(1024),
        file_checksum: Some("abcd".to_string()),
        created_at: 7,
        updated_at: 8,
        synced_at: None,
    }
}

#[test]
fn client_round_trip() {
    let c = sample_client();
    let row = encode_client(&c);
    assert_eq!(row.len(), 14);
    let back = decode_client(&row).unwrap();
    assert_eq!(back, c);
}

#[test]
fn vehicle_round_trip() {
    let v = sample_vehicle();
    let row = encode_vehicle(&v);
    assert_eq!(row.len(), 23);
    let back = decode_vehicle(&row).unwrap();
    assert_eq!(back, v);
}

#[test]
fn deal_round_trip() {
    let d = sample_deal();
    let row = encode_deal(&d);
    assert_eq!(row.len(), 19);
    let back = decode_deal(&row).unwrap();
    assert_eq!(back, d);
}

#[test]
fn document_round_trip() {
    let d = sample_document();
    let row = encode_document(&d);
    assert_eq!(row.len(), 10);
    let back = decode_document(&row).unwrap();
    assert_eq!(back, d);
}

#[test]
fn setting_round_trip() {
    let s = Setting { key: "theme".to_string(), value: "dark".to_string(), updated_at: 5 };
    let row = encode_setting(&s);
    let back = decode_setting(&row).unwrap();
    assert_eq!(back, s);
}

#[test]
fn legacy_client_row_decodes_with_tenant_defaulted() {
    // a row written before the tenant column existed has 13 columns; it
    // must decode with the tenant absent, not raise a decode error
    let c = sample_client();
    let mut row = encode_client(&c);
    row.truncate(13);
    let back = decode_client(&row).unwrap();
    assert_eq!(back.user_id, None);
    assert_eq!(back.first_name, c.first_name);
    assert_eq!(back.created_at, c.created_at);
}

#[test]
fn legacy_deal_row_decodes_with_tenant_defaulted() {
    let d = sample_deal();
    let mut row = encode_deal(&d);
    row.truncate(18);
    let back = decode_deal(&row).unwrap();
    assert_eq!(back.user_id, None);
    assert_eq!(back.total_amount, d.total_amount);
}

#[test]
fn pre_image_vehicle_row_decodes_with_null_image_column() {
    // a vehicle written before the image column existed arrives through
    // the fixed projection with a null in that position
    let mut v = sample_vehicle();
    v.images = None;
    let row = encode_vehicle(&v);
    assert_eq!(row[19], Value::Null);
    let back = decode_vehicle(&row).unwrap();
    assert_eq!(back.images, None);
}

#[test]
fn wrong_arity_is_a_decode_error() {
    let c = sample_client();
    let mut row = encode_client(&c);
    row.truncate(12);
    assert_eq!(decode_client(&row), Err(StoreError::DecodeError));
}

#[test]
fn wrong_column_type_is_a_decode_error() {
    let c = sample_client();
    let mut row = encode_client(&c);
    row[0] = Value::Int(7);
    assert_eq!(decode_client(&row), Err(StoreError::DecodeError));
    let d = sample_deal();
    let mut drow = encode_deal(&d);
    drow[5] = Value::Text("not a number".to_string());
    assert_eq!(decode_deal(&drow), Err(StoreError::DecodeError));
}

#[test]
fn out_of_range_year_is_a_decode_error() {
    let v = sample_vehicle();
    let mut row = encode_vehicle(&v);
    row[3] = Value::Int(i64::MAX);
    assert_eq!(decode_vehicle(&row), Err(StoreError::DecodeError));
}
