use dealer_store::entities::{Client, Deal, Document, Vehicle};
use dealer_store::errors::StoreError;
use dealer_store::patch::{ClientPatch, DealPatch, DocumentPatch, VehiclePatch};
use dealer_store::store::Store;

fn client(id: &str, created_at: i64) -> Client {
    Client {
        id: id.to_string(),
        user_id: None,
        first_name: "Ada".to_string(),
        last_name: "Lovelace".to_string(),
        email: Some("ada@example.com".to_string()),
        phone: Some("555-0100".to_string()),
        address: None,
        city: None,
        state: None,
        zip_code: None,
        drivers_license: None,
        created_at,
        updated_at: created_at,
        synced_at: None,
    }
}

fn vehicle(id: &str, vin: &str, created_at: i64) -> Vehicle {
    Vehicle {
        id: id.to_string(),
        vin: vin.to_string(),
        stock_number: Some(format!("S-{id}")),
        year: 2020,
        make: "Toyota".to_string(),
        model: "Camry".to_string(),
        trim: None,
        body: None,
        doors: Some(4),
        transmission: None,
        engine: None,
        cylinders: None,
        title_number: None,
        mileage: 10_000,
        color: None,
        price: 2_500_000,
        cost: None,
        status: "available".to_string(),
        description: None,
        images: None,
        created_at,
        updated_at: created_at,
        synced_at: None,
    }
}

fn deal(id: &str, client_id: &str, amount: i64, created_at: i64) -> Deal {
    Deal {
        id: id.to_string(),
        user_id: None,
        deal_type: "sale".to_string(),
        client_id: client_id.to_string(),
        vehicle_id: "v-1".to_string(),
        status: "pending".to_string(),
        total_amount: amount,
        sale_date: None,
        sale_amount: None,
        sales_tax: None,
        doc_fee: None,
        trade_in_value: None,
        down_payment: None,
        financed_amount: None,
        document_ids: "[]".to_string(),
        cobuyer_data: None,
        created_at,
        updated_at: created_at,
        synced_at: None,
    }
}

fn document(id: &str, deal_id: &str, created_at: i64) -> Document {
    Document {
        id: id.to_string(),
        deal_id: deal_id.to_string(),
        doc_type: "contract".to_string(),
        filename: "c.pdf".to_string(),
        file_path: "/tmp/c.pdf".to_string(),
        file_size: None,
        file_checksum: None,
        created_at,
        updated_at: created_at,
        synced_at: None,
    }
}

fn uid(s: &str) -> Option<String> {
    Some(s.to_string())
}

#[test]
fn create_assigns_tenant_and_get_round_trips() {
    let mut store = Store::new();
    let c = client("c-1", 100);
    let created = store.db_create_client(c.clone(), uid("u1")).unwrap();
    assert_eq!(created.user_id, Some("u1".to_string()));
    assert_eq!(created.first_name, c.first_name);
    assert_eq!(created.created_at, c.created_at);
    let fetched = store.db_get_client("c-1".to_string(), uid("u1")).unwrap().unwrap();
    assert_eq!(fetched, created);
}

#[test]
fn missing_tenant_is_rejected() {
    let mut store = Store::new();
    assert_eq!(store.db_create_client(client("c-1", 1), None), Err(StoreError::MissingTenant));
    assert_eq!(
        store.db_create_client(client("c-1", 1), uid("")),
        Err(StoreError::MissingTenant)
    );
    assert_eq!(store.db_get_client("c-1".to_string(), None), Err(StoreError::MissingTenant));
    assert_eq!(store.db_get_all_deals(None), Err(StoreError::MissingTenant));
    assert_eq!(store.db_get_deals_stats(None), Err(StoreError::MissingTenant));
}

#[test]
fn wrong_tenant_looks_like_missing_row() {
    let mut store = Store::new();
    store.db_create_client(client("c-1", 100), uid("u1")).unwrap();
    // a row of another tenant is indistinguishable from no row
    assert_eq!(store.db_get_client("c-1".to_string(), uid("u2")).unwrap(), None);
    assert_eq!(store.db_get_client("missing".to_string(), uid("u2")).unwrap(), None);
    let patch = ClientPatch { first_name: Some("Eve".to_string()), ..ClientPatch::empty() };
    assert_eq!(
        store.db_update_client_at("c-1".to_string(), patch, uid("u2"), 999),
        Err(StoreError::NotFoundOrForbidden)
    );
    store.db_delete_client("c-1".to_string(), uid("u2")).unwrap();
    // still there for its owner
    assert!(store.db_get_client("c-1".to_string(), uid("u1")).unwrap().is_some());
}

#[test]
fn duplicate_client_id_is_rejected() {
    let mut store = Store::new();
    store.db_create_client(client("c-1", 1), uid("u1")).unwrap();
    assert_eq!(
        store.db_create_client(client("c-1", 2), uid("u2")),
        Err(StoreError::DuplicateKey)
    );
}

#[test]
fn duplicate_vin_is_rejected_and_store_unchanged() {
    let mut store = Store::new();
    store.db_create_vehicle(vehicle("v-1", "VIN123", 1)).unwrap();
    let r = store.db_create_vehicle(vehicle("v-2", "VIN123", 2));
    assert_eq!(r, Err(StoreError::DuplicateKey));
    // no partial row: the second vehicle is nowhere to be found
    assert_eq!(store.vehicles.len(), 1);
    assert_eq!(store.db_get_vehicle("v-2".to_string()).unwrap(), None);
}

#[test]
fn vehicle_lookup_by_vin_and_stock() {
    let mut store = Store::new();
    store.db_create_vehicle(vehicle("v-1", "VIN123", 1)).unwrap();
    let by_vin = store.db_get_vehicle_by_vin("VIN123".to_string()).unwrap().unwrap();
    assert_eq!(by_vin.id, "v-1");
    let by_stock = store.db_get_vehicle_by_stock("S-v-1".to_string()).unwrap().unwrap();
    assert_eq!(by_stock.id, "v-1");
    assert_eq!(store.db_get_vehicle_by_vin("OTHER".to_string()).unwrap(), None);
}

#[test]
fn vehicle_update_cannot_steal_a_vin() {
    let mut store = Store::new();
    store.db_create_vehicle(vehicle("v-1", "VIN1", 1)).unwrap();
    store.db_create_vehicle(vehicle("v-2", "VIN2", 2)).unwrap();
    let patch = VehiclePatch { vin: Some("VIN1".to_string()), ..VehiclePatch::empty() };
    assert_eq!(
        store.db_update_vehicle_at("v-2".to_string(), patch, 50),
        Err(StoreError::DuplicateKey)
    );
    let unchanged = store.db_get_vehicle("v-2".to_string()).unwrap().unwrap();
    assert_eq!(unchanged.vin, "VIN2");
}

#[test]
fn listings_are_most_recent_first_and_tenant_scoped() {
    let mut store = Store::new();
    store.db_create_client(client("c-1", 100), uid("u1")).unwrap();
    store.db_create_client(client("c-2", 300), uid("u1")).unwrap();
    store.db_create_client(client("c-3", 200), uid("u1")).unwrap();
    store.db_create_client(client("c-4", 999), uid("u2")).unwrap();
    let list = store.db_get_all_clients(uid("u1")).unwrap();
    let ids: Vec<&str> = list.iter().map(|c| c.id.as_str()).collect();
    assert_eq!(ids, vec!["c-2", "c-3", "c-1"]);
    let other = store.db_get_all_clients(uid("u2")).unwrap();
    assert_eq!(other.len(), 1);
    assert_eq!(other[0].id, "c-4");
}

#[test]
fn one_tenants_client_is_invisible_to_another() {
    let mut store = Store::new();
    store.migrate(1).unwrap();
    store.db_create_client(client("c-1", 100), uid("u1")).unwrap();
    let mine = store.db_get_all_clients(uid("u1")).unwrap();
    assert_eq!(mine.len(), 1);
    assert_eq!(mine[0].id, "c-1");
    let theirs = store.db_get_all_clients(uid("u2")).unwrap();
    assert!(theirs.is_empty());
}

#[test]
fn update_applies_only_named_fields() {
    let mut store = Store::new();
    store.db_create_client(client("c-1", 100), uid("u1")).unwrap();
    let patch = ClientPatch {
        first_name: Some("Grace".to_string()),
        ..ClientPatch::empty()
    };
    let updated = store.db_update_client_at("c-1".to_string(), patch, uid("u1"), 555).unwrap();
    assert_eq!(updated.first_name, "Grace");
    assert_eq!(updated.last_name, "Lovelace");
    assert_eq!(updated.updated_at, 555);
    assert_eq!(updated.created_at, 100);
    let fetched = store.db_get_client("c-1".to_string(), uid("u1")).unwrap().unwrap();
    assert_eq!(fetched, updated);
}

#[test]
fn deal_status_update_changes_only_status_and_updated_at() {
    let mut store = Store::new();
    store.db_create_deal(deal("d-1", "c-1", 2_000_000, 100), uid("u1")).unwrap();
    let patch = DealPatch { status: Some("sold".to_string()), ..DealPatch::empty() };
    let updated = store.db_update_deal_at("d-1".to_string(), patch, uid("u1"), 777).unwrap();
    assert_eq!(updated.status, "sold");
    assert_eq!(updated.updated_at, 777);
    assert_eq!(updated.total_amount, 2_000_000);
    assert_eq!(updated.created_at, 100);
    let fetched = store.db_get_deal("d-1".to_string(), uid("u1")).unwrap().unwrap();
    assert_eq!(fetched.status, "sold");
    assert_eq!(fetched.updated_at, 777);
    assert_eq!(fetched.total_amount, 2_000_000);
}

#[test]
fn deals_by_client_vehicle_and_status() {
    let mut store = Store::new();
    store.db_create_deal(deal("d-1", "c-1", 10, 100), uid("u1")).unwrap();
    store.db_create_deal(deal("d-2", "c-2", 20, 200), uid("u1")).unwrap();
    store.db_create_deal(deal("d-3", "c-1", 30, 300), uid("u2")).unwrap();
    let for_c1 = store.db_get_deals_by_client("c-1".to_string(), uid("u1")).unwrap();
    assert_eq!(for_c1.len(), 1);
    assert_eq!(for_c1[0].id, "d-1");
    let by_vehicle = store.db_get_deals_by_vehicle("v-1".to_string(), uid("u1")).unwrap();
    assert_eq!(by_vehicle.len(), 2);
    let pending = store.db_get_deals_by_status("pending".to_string(), uid("u1")).unwrap();
    assert_eq!(pending.len(), 2);
    assert_eq!(store.db_get_deals_by_status("sold".to_string(), uid("u1")).unwrap().len(), 0);
}

#[test]
fn deletes_are_tenant_scoped() {
    let mut store = Store::new();
    store.db_create_deal(deal("d-1", "c-1", 10, 100), uid("u1")).unwrap();
    // another tenant's delete succeeds but removes nothing
    store.db_delete_deal("d-1".to_string(), uid("u2")).unwrap();
    assert!(store.db_get_deal("d-1".to_string(), uid("u1")).unwrap().is_some());
    assert_eq!(store.db_delete_deal("d-1".to_string(), None), Err(StoreError::MissingTenant));
    store.db_delete_deal("d-1".to_string(), uid("u1")).unwrap();
    assert_eq!(store.db_get_deal("d-1".to_string(), uid("u1")).unwrap(), None);
    store.db_create_client(client("c-1", 1), uid("u1")).unwrap();
    store.db_delete_client("c-1".to_string(), uid("u1")).unwrap();
    assert_eq!(store.db_get_client("c-1".to_string(), uid("u1")).unwrap(), None);
}

#[test]
fn search_is_case_insensitive_substring() {
    let mut store = Store::new();
    store.db_create_client(client("c-1", 100), uid("u1")).unwrap();
    let hits = store.db_search_clients("LOVE".to_string(), uid("u1")).unwrap();
    assert_eq!(hits.len(), 1);
    let hits = store.db_search_clients("ada@".to_string(), uid("u1")).unwrap();
    assert_eq!(hits.len(), 1);
    let hits = store.db_search_clients("nothing".to_string(), uid("u1")).unwrap();
    assert!(hits.is_empty());
    // other tenants never see the row
    let hits = store.db_search_clients("LOVE".to_string(), uid("u2")).unwrap();
    assert!(hits.is_empty());
    store.db_create_vehicle(vehicle("v-1", "VIN123", 1)).unwrap();
    let hits = store.db_search_vehicles("camry".to_string()).unwrap();
    assert_eq!(hits.len(), 1);
    let hits = store.db_search_vehicles("in12".to_string()).unwrap();
    assert_eq!(hits.len(), 1);
}

#[test]
fn empty_query_matches_every_visible_row() {
    let mut store = Store::new();
    store.db_create_client(client("c-1", 100), uid("u1")).unwrap();
    store.db_create_client(client("c-2", 200), uid("u1")).unwrap();
    store.db_create_client(client("c-3", 300), uid("u2")).unwrap();
    let hits = store.db_search_clients(String::new(), uid("u1")).unwrap();
    assert_eq!(hits.len(), 2);
}

#[test]
fn vehicles_by_status() {
    let mut store = Store::new();
    store.db_create_vehicle(vehicle("v-1", "VIN1", 1)).unwrap();
    let mut sold = vehicle("v-2", "VIN2", 2);
    sold.status = "sold".to_string();
    store.db_create_vehicle(sold).unwrap();
    let avail = store.db_get_vehicles_by_status("available".to_string()).unwrap();
    assert_eq!(avail.len(), 1);
    assert_eq!(avail[0].id, "v-1");
}

#[test]
fn vehicle_listing_requires_tenant_but_is_shared() {
    let mut store = Store::new();
    store.db_create_vehicle(vehicle("v-1", "VIN1", 1)).unwrap();
    assert_eq!(store.db_get_all_vehicles(None), Err(StoreError::MissingTenant));
    // inventory is shared: every tenant sees the same vehicles
    assert_eq!(store.db_get_all_vehicles(uid("u1")).unwrap().len(), 1);
    assert_eq!(store.db_get_all_vehicles(uid("u2")).unwrap().len(), 1);
}

#[test]
fn documents_by_deal_and_update() {
    let mut store = Store::new();
    store.db_create_document(document("doc-1", "d-1", 10)).unwrap();
    store.db_create_document(document("doc-2", "d-1", 30)).unwrap();
    store.db_create_document(document("doc-3", "d-9", 20)).unwrap();
    let docs = store.db_get_documents_by_deal("d-1".to_string()).unwrap();
    let ids: Vec<&str> = docs.iter().map(|d| d.id.as_str()).collect();
    assert_eq!(ids, vec!["doc-2", "doc-1"]);
    let patch = DocumentPatch { file_size: Some(2048), ..DocumentPatch::empty() };
    let updated = store.db_update_document_at("doc-1".to_string(), patch, 99).unwrap();
    assert_eq!(updated.file_size, Some(2048));
    assert_eq!(updated.updated_at, 99);
    store.db_delete_document("doc-1".to_string()).unwrap();
    assert_eq!(store.db_get_document("doc-1".to_string()).unwrap(), None);
}

#[test]
fn settings_upsert_keeps_keys_unique() {
    let mut store = Store::new();
    store.db_set_setting_at("theme".to_string(), "dark".to_string(), 1).unwrap();
    store.db_set_setting_at("theme".to_string(), "light".to_string(), 2).unwrap();
    store.db_set_setting_at("lang".to_string(), "en".to_string(), 3).unwrap();
    assert_eq!(store.settings.len(), 2);
    assert_eq!(store.db_get_setting("theme".to_string()).unwrap(), Some("light".to_string()));
    assert_eq!(store.db_get_setting("lang".to_string()).unwrap(), Some("en".to_string()));
    assert_eq!(store.db_get_setting("missing".to_string()).unwrap(), None);
}

#[test]
fn clear_all_empties_entities_and_keeps_settings() {
    let mut store = Store::new();
    store.migrate(1).unwrap();
    store.db_create_client(client("c-1", 1), uid("u1")).unwrap();
    store.db_create_vehicle(vehicle("v-1", "VIN1", 1)).unwrap();
    store.db_create_deal(deal("d-1", "c-1", 10, 1), uid("u1")).unwrap();
    store.db_create_document(document("doc-1", "d-1", 1)).unwrap();
    store.db_set_setting_at("theme".to_string(), "dark".to_string(), 1).unwrap();
    store.db_clear_all_data().unwrap();
    assert!(store.clients.is_empty());
    assert!(store.vehicles.is_empty());
    assert!(store.deals.is_empty());
    assert!(store.documents.is_empty());
    assert_eq!(store.settings.len(), 1);
    assert_eq!(store.versions.len(), 5);
}

#[test]
fn full_startup_scenario_isolates_tenants() {
    // migrate an empty store straight to the current version, insert one
    // client for one user, and list as both users
    let mut store = Store::new();
    store.migrate(42).unwrap();
    assert_eq!(store.versions.last().unwrap().version, 5);
    store.db_create_client(client("c-1", 100), uid("u1")).unwrap();
    let u1_list = store.db_get_all_clients(uid("u1")).unwrap();
    assert_eq!(u1_list.len(), 1);
    assert_eq!(u1_list[0].id, "c-1");
    let u2_list = store.db_get_all_clients(uid("u2")).unwrap();
    assert!(u2_list.is_empty());
}
