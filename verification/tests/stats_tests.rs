use dealer_store::entities::Deal;
use dealer_store::store::Store;

fn deal(id: &str, status: &str, amount: i64, created_at: i64) -> Deal {
    Deal {
        id: id.to_string(),
        user_id: None,
        deal_type: "sale".to_string(),
        client_id: "c-1".to_string(),
        vehicle_id: "v-1".to_string(),
        status: status.to_string(),
        total_amount: amount,
        sale_date: None,
        sale_amount: None,
        sales_tax: None,
        doc_fee: None,
        trade_in_value: None,
        down_payment: None,
        financed_amount: None,
        document_ids: "[]".to_string(),
        cobuyer_data: None,
        created_at,
        updated_at: created_at,
        synced_at: None,
    }
}

fn uid(s: &str) -> Option<String> {
    Some(s.to_string())
}

#[test]
fn stats_with_zero_deals_is_all_zero() {
    let store = Store::new();
    let s = store.db_get_deals_stats(uid("u1")).unwrap();
    assert_eq!(s.total, 0);
    assert_eq!(s.total_amount, 0);
    assert_eq!(s.average_amount, 0);
    assert!(s.by_status.is_empty());
}

#[test]
fn stats_groups_counts_and_averages() {
    let mut store = Store::new();
    store.db_create_deal(deal("d-1", "pending", 100, 1), uid("u1")).unwrap();
    store.db_create_deal(deal("d-2", "sold", 200, 2), uid("u1")).unwrap();
    store.db_create_deal(deal("d-3", "sold", 400, 3), uid("u1")).unwrap();
    store.db_create_deal(deal("d-4", "sold", 9_999, 4), uid("u2")).unwrap();
    let s = store.db_get_deals_stats(uid("u1")).unwrap();
    assert_eq!(s.total, 3);
    assert_eq!(s.total_amount, 700);
    assert_eq!(s.average_amount, 233);
    let mut pending = 0;
    let mut sold = 0;
    for row in &s.by_status {
        match row.status.as_str() {
            "pending" => pending = row.count,
            "sold" => sold = row.count,
            other => panic!("unexpected status {other}"),
        }
    }
    assert_eq!(pending, 1);
    assert_eq!(sold, 2);
}

#[test]
fn stats_only_counts_the_tenant() {
    let mut store = Store::new();
    store.db_create_deal(deal("d-1", "pending", 50, 1), uid("u2")).unwrap();
    let s = store.db_get_deals_stats(uid("u1")).unwrap();
    assert_eq!(s.total, 0);
    assert_eq!(s.average_amount, 0);
}

#[test]
fn stats_with_negative_amounts_truncates_toward_zero() {
    let mut store = Store::new();
    store.db_create_deal(deal("d-1", "adjust", -100, 1), uid("u1")).unwrap();
    store.db_create_deal(deal("d-2", "adjust", -101, 2), uid("u1")).unwrap();
    let s = store.db_get_deals_stats(uid("u1")).unwrap();
    assert_eq!(s.total_amount, -201);
    assert_eq!(s.average_amount, -100);
}
