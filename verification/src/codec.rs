//! The schema-drift-tolerant row mapper.
//!
//! Every reader names its columns in one fixed projection order per entity,
//! written down here once as a spec-level row layout. Columns appended by
//! later migrations sit at the tail of the projection; a decoder for a
//! tenant-extended table accepts both the legacy arity (without the tenant
//! column) and the current one, defaulting the missing field, so rows
//! produced under any historical schema version decode correctly.

use crate::entities::{Client, Deal, Document, Setting, Vehicle};
use crate::errors::StoreError;
use crate::values::{
    int_i32_ok, make_opt_i32, make_opt_int, make_opt_text, opt_i32_ok, opt_i32_value, opt_int_ok,
    opt_int_value, opt_text_ok, opt_text_value, spec_i32, spec_opt_i32, spec_opt_int,
    spec_opt_text, take_i32, take_int, take_opt_i32, take_opt_int, take_opt_text, take_text, Value,
};
use vstd::prelude::*;

verus! {

/// Arity of a client row under the current schema.
pub const CLIENT_COLS: usize = 14;

/// Arity of a client row before the tenant column was appended.
pub const CLIENT_COLS_LEGACY: usize = 13;

/// Arity of a vehicle row under the fixed projection order.
pub const VEHICLE_COLS: usize = 23;

/// Arity of a deal row under the current schema.
pub const DEAL_COLS: usize = 19;

/// Arity of a deal row before the tenant column was appended.
pub const DEAL_COLS_LEGACY: usize = 18;

/// Arity of a document row under the fixed projection order.
pub const DOCUMENT_COLS: usize = 10;

/// Arity of a settings row.
pub const SETTING_COLS: usize = 3;

// ---------------------------------------------------------------------------
// Clients: id, first_name, last_name, email, phone, address, city, state,
// zip_code, drivers_license, created_at, updated_at, synced_at [, user_id]
// ---------------------------------------------------------------------------

/// Whether `r` is a well-shaped client row (legacy or current arity).
pub open spec fn client_row_ok(r: Seq<Value>) -> bool {
    &&& (r.len() == CLIENT_COLS_LEGACY || r.len() == CLIENT_COLS)
    &&& r[0] is Text
    &&& r[1] is Text
    &&& r[2] is Text
    &&& opt_text_ok(r[3])
    &&& opt_text_ok(r[4])
    &&& opt_text_ok(r[5])
    &&& opt_text_ok(r[6])
    &&& opt_text_ok(r[7])
    &&& opt_text_ok(r[8])
    &&& opt_text_ok(r[9])
    &&& r[10] is Int
    &&& r[11] is Int
    &&& opt_int_ok(r[12])
    &&& (r.len() == CLIENT_COLS ==> opt_text_ok(r[13]))
}

/// The client a well-shaped row decodes to.
pub open spec fn client_of_row(r: Seq<Value>) -> Client {
    Client {
        id: r[0]->Text_0,
        user_id: if r.len() > 13 {
            spec_opt_text(r[13])
        } else {
            None
        },
        first_name: r[1]->Text_0,
        last_name: r[2]->Text_0,
        email: spec_opt_text(r[3]),
        phone: spec_opt_text(r[4]),
        address: spec_opt_text(r[5]),
        city: spec_opt_text(r[6]),
        state: spec_opt_text(r[7]),
        zip_code: spec_opt_text(r[8]),
        drivers_license: spec_opt_text(r[9]),
        created_at: r[10]->Int_0,
        updated_at: r[11]->Int_0,
        synced_at: spec_opt_int(r[12]),
    }
}

/// The current-schema row a client is stored as.
pub open spec fn client_to_row(c: Client) -> Seq<Value> {
    seq![
        Value::Text(c.id),
        Value::Text(c.first_name),
        Value::Text(c.last_name),
        opt_text_value(c.email),
        opt_text_value(c.phone),
        opt_text_value(c.address),
        opt_text_value(c.city),
        opt_text_value(c.state),
        opt_text_value(c.zip_code),
        opt_text_value(c.drivers_license),
        Value::Int(c.created_at),
        Value::Int(c.updated_at),
        opt_int_value(c.synced_at),
        opt_text_value(c.user_id),
    ]
}

/// Decodes a raw client row, tolerating the legacy arity.
pub fn decode_client(row: &Vec<Value>) -> (r: Result<Client, StoreError>)
    ensures
        match r {
            Ok(c) => client_row_ok(row@) && c == client_of_row(row@),
            Err(e) => e == StoreError::DecodeError && !client_row_ok(row@),
        },
{
    let n = row.len();
    if n != CLIENT_COLS_LEGACY && n != CLIENT_COLS {
        return Err(StoreError::DecodeError);
    }
    let id = match take_text(&row[0]) {
        Ok(v) => v,
        Err(e) => { return Err(e); },
    };
    let first_name = match take_text(&row[1]) {
        Ok(v) => v,
        Err(e) => { return Err(e); },
    };
    let last_name = match take_text(&row[2]) {
        Ok(v) => v,
        Err(e) => { return Err(e); },
    };
    let email = match take_opt_text(&row[3]) {
        Ok(v) => v,
        Err(e) => { return Err(e); },
    };
    let phone = match take_opt_text(&row[4]) {
        Ok(v) => v,
        Err(e) => { return Err(e); },
    };
    let address = match take_opt_text(&row[5]) {
        Ok(v) => v,
        Err(e) => { return Err(e); },
    };
    let city = match take_opt_text(&row[6]) {
        Ok(v) => v,
        Err(e) => { return Err(e); },
    };
    let state = match take_opt_text(&row[7]) {
        Ok(v) => v,
        Err(e) => { return Err(e); },
    };
    let zip_code = match take_opt_text(&row[8]) {
        Ok(v) => v,
        Err(e) => { return Err(e); },
    };
    let drivers_license = match take_opt_text(&row[9]) {
        Ok(v) => v,
        Err(e) => { return Err(e); },
    };
    let created_at = match take_int(&row[10]) {
        Ok(v) => v,
        Err(e) => { return Err(e); },
    };
    let updated_at = match take_int(&row[11]) {
        Ok(v) => v,
        Err(e) => { return Err(e); },
    };
    let synced_at = match take_opt_int(&row[12]) {
        Ok(v) => v,
        Err(e) => { return Err(e); },
    };
    let user_id = if n > CLIENT_COLS_LEGACY {
        match take_opt_text(&row[13]) {
            Ok(v) => v,
            Err(e) => { return Err(e); },
        }
    } else {
        None
    };
    Ok(Client {
        id,
        user_id,
        first_name,
        last_name,
        email,
        phone,
        address,
        city,
        state,
        zip_code,
        drivers_license,
        created_at,
        updated_at,
        synced_at,
    })
}

/// Encodes a client into the current-schema row.
pub fn encode_client(c: &Client) -> (r: Vec<Value>)
    ensures
        r@ == client_to_row(*c),
{
    let mut r: Vec<Value> = Vec::new();
    r.push(Value::Text(c.id.clone()));
    r.push(Value::Text(c.first_name.clone()));
    r.push(Value::Text(c.last_name.clone()));
    r.push(make_opt_text(&c.email));
    r.push(make_opt_text(&c.phone));
    r.push(make_opt_text(&c.address));
    r.push(make_opt_text(&c.city));
    r.push(make_opt_text(&c.state));
    r.push(make_opt_text(&c.zip_code));
    r.push(make_opt_text(&c.drivers_license));
    r.push(Value::Int(c.created_at));
    r.push(Value::Int(c.updated_at));
    r.push(make_opt_int(&c.synced_at));
    r.push(make_opt_text(&c.user_id));
    proof {
        assert(r@ =~= client_to_row(*c));
    }
    r
}

/// Round-trip law for nullable text columns.
pub proof fn lemma_opt_text_round_trip(o: Option<String>)
    ensures
        opt_text_ok(opt_text_value(o)),
        spec_opt_text(opt_text_value(o)) == o,
{
}

/// Round-trip law for nullable integer columns.
pub proof fn lemma_opt_int_round_trip(o: Option<i64>)
    ensures
        opt_int_ok(opt_int_value(o)),
        spec_opt_int(opt_int_value(o)) == o,
{
}

/// Round-trip law for nullable `i32` columns.
pub proof fn lemma_opt_i32_round_trip(o: Option<i32>)
    ensures
        opt_i32_ok(opt_i32_value(o)),
        spec_opt_i32(opt_i32_value(o)) == o,
{
}

/// Encoding a client always yields a well-shaped row that decodes back to
/// the same client, field for field.
pub proof fn lemma_client_round_trip(c: Client)
    ensures
        client_row_ok(client_to_row(c)),
        client_of_row(client_to_row(c)) == c,
{
    lemma_opt_text_round_trip(c.email);
    lemma_opt_text_round_trip(c.phone);
    lemma_opt_text_round_trip(c.address);
    lemma_opt_text_round_trip(c.city);
    lemma_opt_text_round_trip(c.state);
    lemma_opt_text_round_trip(c.zip_code);
    lemma_opt_text_round_trip(c.drivers_license);
    lemma_opt_text_round_trip(c.user_id);
    lemma_opt_int_round_trip(c.synced_at);
}

/// A client row truncated to the legacy arity (as written before the tenant
/// column existed) still decodes, with the tenant defaulted to absent and
/// every other field unchanged.
pub proof fn lemma_client_row_drift(r: Seq<Value>)
    requires
        client_row_ok(r),
        r.len() == CLIENT_COLS,
    ensures
        client_row_ok(r.subrange(0, CLIENT_COLS_LEGACY as int)),
        client_of_row(r.subrange(0, CLIENT_COLS_LEGACY as int)) == (Client {
            user_id: None,
            ..client_of_row(r)
        }),
{
}

// ---------------------------------------------------------------------------
// Vehicles: id, vin, stock_number, year, make, model, trim, body, doors,
// transmission, engine, cylinders, title_number, mileage, color, price,
// cost, status, description, images, created_at, updated_at, synced_at
//
// The images column was appended to the table by a later migration, so on
// disk it sits last; the projection order above is the one every vehicle
// reader must name explicitly. A row that predates the migration arrives
// with a null in that position.
// ---------------------------------------------------------------------------

/// Whether `r` is a well-shaped vehicle row in the fixed projection order.
pub open spec fn vehicle_row_ok(r: Seq<Value>) -> bool {
    &&& r.len() == VEHICLE_COLS
    &&& r[0] is Text
    &&& r[1] is Text
    &&& opt_text_ok(r[2])
    &&& int_i32_ok(r[3])
    &&& r[4] is Text
    &&& r[5] is Text
    &&& opt_text_ok(r[6])
    &&& opt_text_ok(r[7])
    &&& opt_i32_ok(r[8])
    &&& opt_text_ok(r[9])
    &&& opt_text_ok(r[10])
    &&& opt_i32_ok(r[11])
    &&& opt_text_ok(r[12])
    &&& int_i32_ok(r[13])
    &&& opt_text_ok(r[14])
    &&& r[15] is Int
    &&& opt_int_ok(r[16])
    &&& r[17] is Text
    &&& opt_text_ok(r[18])
    &&& opt_text_ok(r[19])
    &&& r[20] is Int
    &&& r[21] is Int
    &&& opt_int_ok(r[22])
}

/// The vehicle a well-shaped row decodes to.
pub open spec fn vehicle_of_row(r: Seq<Value>) -> Vehicle {
    Vehicle {
        id: r[0]->Text_0,
        vin: r[1]->Text_0,
        stock_number: spec_opt_text(r[2]),
        year: spec_i32(r[3]),
        make: r[4]->Text_0,
        model: r[5]->Text_0,
        trim: spec_opt_text(r[6]),
        body: spec_opt_text(r[7]),
        doors: spec_opt_i32(r[8]),
        transmission: spec_opt_text(r[9]),
        engine: spec_opt_text(r[10]),
        cylinders: spec_opt_i32(r[11]),
        title_number: spec_opt_text(r[12]),
        mileage: spec_i32(r[13]),
        color: spec_opt_text(r[14]),
        price: r[15]->Int_0,
        cost: spec_opt_int(r[16]),
        status: r[17]->Text_0,
        description: spec_opt_text(r[18]),
        images: spec_opt_text(r[19]),
        created_at: r[20]->Int_0,
        updated_at: r[21]->Int_0,
        synced_at: spec_opt_int(r[22]),
    }
}

/// The row a vehicle is stored as, in the fixed projection order.
pub open spec fn vehicle_to_row(v: Vehicle) -> Seq<Value> {
    seq![
        Value::Text(v.id),
        Value::Text(v.vin),
        opt_text_value(v.stock_number),
        Value::Int(v.year as i64),
        Value::Text(v.make),
        Value::Text(v.model),
        opt_text_value(v.trim),
        opt_text_value(v.body),
        opt_i32_value(v.doors),
        opt_text_value(v.transmission),
        opt_text_value(v.engine),
        opt_i32_value(v.cylinders),
        opt_text_value(v.title_number),
        Value::Int(v.mileage as i64),
        opt_text_value(v.color),
        Value::Int(v.price),
        opt_int_value(v.cost),
        Value::Text(v.status),
        opt_text_value(v.description),
        opt_text_value(v.images),
        Value::Int(v.created_at),
        Value::Int(v.updated_at),
        opt_int_value(v.synced_at),
    ]
}

/// Decodes a raw vehicle row.
pub fn decode_vehicle(row: &Vec<Value>) -> (r: Result<Vehicle, StoreError>)
    ensures
        match r {
            Ok(v) => vehicle_row_ok(row@) && v == vehicle_of_row(row@),
            Err(e) => e == StoreError::DecodeError && !vehicle_row_ok(row@),
        },
{
    if row.len() != VEHICLE_COLS {
        return Err(StoreError::DecodeError);
    }
    let id = match take_text(&row[0]) {
        Ok(v) => v,
        Err(e) => { return Err(e); },
    };
    let vin = match take_text(&row[1]) {
        Ok(v) => v,
        Err(e) => { return Err(e); },
    };
    let stock_number = match take_opt_text(&row[2]) {
        Ok(v) => v,
        Err(e) => { return Err(e); },
    };
    let year = match take_i32(&row[3]) {
        Ok(v) => v,
        Err(e) => { return Err(e); },
    };
    let make = match take_text(&row[4]) {
        Ok(v) => v,
        Err(e) => { return Err(e); },
    };
    let model = match take_text(&row[5]) {
        Ok(v) => v,
        Err(e) => { return Err(e); },
    };
    let trim = match take_opt_text(&row[6]) {
        Ok(v) => v,
        Err(e) => { return Err(e); },
    };
    let body = match take_opt_text(&row[7]) {
        Ok(v) => v,
        Err(e) => { return Err(e); },
    };
    let doors = match take_opt_i32(&row[8]) {
        Ok(v) => v,
        Err(e) => { return Err(e); },
    };
    let transmission = match take_opt_text(&row[9]) {
        Ok(v) => v,
        Err(e) => { return Err(e); },
    };
    let engine = match take_opt_text(&row[10]) {
        Ok(v) => v,
        Err(e) => { return Err(e); },
    };
    let cylinders = match take_opt_i32(&row[11]) {
        Ok(v) => v,
        Err(e) => { return Err(e); },
    };
    let title_number = match take_opt_text(&row[12]) {
        Ok(v) => v,
        Err(e) => { return Err(e); },
    };
    let mileage = match take_i32(&row[13]) {
        Ok(v) => v,
        Err(e) => { return Err(e); },
    };
    let color = match take_opt_text(&row[14]) {
        Ok(v) => v,
        Err(e) => { return Err(e); },
    };
    let price = match take_int(&row[15]) {
        Ok(v) => v,
        Err(e) => { return Err(e); },
    };
    let cost = match take_opt_int(&row[16]) {
        Ok(v) => v,
        Err(e) => { return Err(e); },
    };
    let status = match take_text(&row[17]) {
        Ok(v) => v,
        Err(e) => { return Err(e); },
    };
    let description = match take_opt_text(&row[18]) {
        Ok(v) => v,
        Err(e) => { return Err(e); },
    };
    let images = match take_opt_text(&row[19]) {
        Ok(v) => v,
        Err(e) => { return Err(e); },
    };
    let created_at = match take_int(&row[20]) {
        Ok(v) => v,
        Err(e) => { return Err(e); },
    };
    let updated_at = match take_int(&row[21]) {
        Ok(v) => v,
        Err(e) => { return Err(e); },
    };
    let synced_at = match take_opt_int(&row[22]) {
        Ok(v) => v,
        Err(e) => { return Err(e); },
    };
    Ok(Vehicle {
        id,
        vin,
        stock_number,
        year,
        make,
        model,
        trim,
        body,
        doors,
        transmission,
        engine,
        cylinders,
        title_number,
        mileage,
        color,
        price,
        cost,
        status,
        description,
        images,
        created_at,
        updated_at,
        synced_at,
    })
}

/// Encodes a vehicle into its projection-order row.
pub fn encode_vehicle(v: &Vehicle) -> (r: Vec<Value>)
    ensures
        r@ == vehicle_to_row(*v),
{
    let mut r: Vec<Value> = Vec::new();
    r.push(Value::Text(v.id.clone()));
    r.push(Value::Text(v.vin.clone()));
    r.push(make_opt_text(&v.stock_number));
    r.push(Value::Int(v.year as i64));
    r.push(Value::Text(v.make.clone()));
    r.push(Value::Text(v.model.clone()));
    r.push(make_opt_text(&v.trim));
    r.push(make_opt_text(&v.body));
    r.push(make_opt_i32(&v.doors));
    r.push(make_opt_text(&v.transmission));
    r.push(make_opt_text(&v.engine));
    r.push(make_opt_i32(&v.cylinders));
    r.push(make_opt_text(&v.title_number));
    r.push(Value::Int(v.mileage as i64));
    r.push(make_opt_text(&v.color));
    r.push(Value::Int(v.price));
    r.push(make_opt_int(&v.cost));
    r.push(Value::Text(v.status.clone()));
    r.push(make_opt_text(&v.description));
    r.push(make_opt_text(&v.images));
    r.push(Value::Int(v.created_at));
    r.push(Value::Int(v.updated_at));
    r.push(make_opt_int(&v.synced_at));
    proof {
        assert(r@ =~= vehicle_to_row(*v));
    }
    r
}

/// Encoding a vehicle yields a well-shaped row that decodes back to the
/// same vehicle, field for field.
pub proof fn lemma_vehicle_round_trip(v: Vehicle)
    ensures
        vehicle_row_ok(vehicle_to_row(v)),
        vehicle_of_row(vehicle_to_row(v)) == v,
{
    lemma_opt_text_round_trip(v.stock_number);
    lemma_opt_text_round_trip(v.trim);
    lemma_opt_text_round_trip(v.body);
    lemma_opt_i32_round_trip(v.doors);
    lemma_opt_text_round_trip(v.transmission);
    lemma_opt_text_round_trip(v.engine);
    lemma_opt_i32_round_trip(v.cylinders);
    lemma_opt_text_round_trip(v.title_number);
    lemma_opt_text_round_trip(v.color);
    lemma_opt_int_round_trip(v.cost);
    lemma_opt_text_round_trip(v.description);
    lemma_opt_text_round_trip(v.images);
    lemma_opt_int_round_trip(v.synced_at);
}

// ---------------------------------------------------------------------------
// Deals: id, deal_type, client_id, vehicle_id, status, total_amount,
// sale_date, sale_amount, sales_tax, doc_fee, trade_in_value, down_payment,
// financed_amount, document_ids, cobuyer_data, created_at, updated_at,
// synced_at [, user_id]
// ---------------------------------------------------------------------------

/// Whether `r` is a well-shaped deal row (legacy or current arity).
pub open spec fn deal_row_ok(r: Seq<Value>) -> bool {
    &&& (r.len() == DEAL_COLS_LEGACY || r.len() == DEAL_COLS)
    &&& r[0] is Text
    &&& r[1] is Text
    &&& r[2] is Text
    &&& r[3] is Text
    &&& r[4] is Text
    &&& r[5] is Int
    &&& opt_int_ok(r[6])
    &&& opt_int_ok(r[7])
    &&& opt_int_ok(r[8])
    &&& opt_int_ok(r[9])
    &&& opt_int_ok(r[10])
    &&& opt_int_ok(r[11])
    &&& opt_int_ok(r[12])
    &&& r[13] is Text
    &&& opt_text_ok(r[14])
    &&& r[15] is Int
    &&& r[16] is Int
    &&& opt_int_ok(r[17])
    &&& (r.len() == DEAL_COLS ==> opt_text_ok(r[18]))
}

/// The deal a well-shaped row decodes to.
pub open spec fn deal_of_row(r: Seq<Value>) -> Deal {
    Deal {
        id: r[0]->Text_0,
        user_id: if r.len() > 18 {
            spec_opt_text(r[18])
        } else {
            None
        },
        deal_type: r[1]->Text_0,
        client_id: r[2]->Text_0,
        vehicle_id: r[3]->Text_0,
        status: r[4]->Text_0,
        total_amount: r[5]->Int_0,
        sale_date: spec_opt_int(r[6]),
        sale_amount: spec_opt_int(r[7]),
        sales_tax: spec_opt_int(r[8]),
        doc_fee: spec_opt_int(r[9]),
        trade_in_value: spec_opt_int(r[10]),
        down_payment: spec_opt_int(r[11]),
        financed_amount: spec_opt_int(r[12]),
        document_ids: r[13]->Text_0,
        cobuyer_data: spec_opt_text(r[14]),
        created_at: r[15]->Int_0,
        updated_at: r[16]->Int_0,
        synced_at: spec_opt_int(r[17]),
    }
}

/// The current-schema row a deal is stored as.
pub open spec fn deal_to_row(d: Deal) -> Seq<Value> {
    seq![
        Value::Text(d.id),
        Value::Text(d.deal_type),
        Value::Text(d.client_id),
        Value::Text(d.vehicle_id),
        Value::Text(d.status),
        Value::Int(d.total_amount),
        opt_int_value(d.sale_date),
        opt_int_value(d.sale_amount),
        opt_int_value(d.sales_tax),
        opt_int_value(d.doc_fee),
        opt_int_value(d.trade_in_value),
        opt_int_value(d.down_payment),
        opt_int_value(d.financed_amount),
        Value::Text(d.document_ids),
        opt_text_value(d.cobuyer_data),
        Value::Int(d.created_at),
        Value::Int(d.updated_at),
        opt_int_value(d.synced_at),
        opt_text_value(d.user_id),
    ]
}

/// Decodes a raw deal row, tolerating the legacy arity.
pub fn decode_deal(row: &Vec<Value>) -> (r: Result<Deal, StoreError>)
    ensures
        match r {
            Ok(d) => deal_row_ok(row@) && d == deal_of_row(row@),
            Err(e) => e == StoreError::DecodeError && !deal_row_ok(row@),
        },
{
    let n = row.len();
    if n != DEAL_COLS_LEGACY && n != DEAL_COLS {
        return Err(StoreError::DecodeError);
    }
    let id = match take_text(&row[0]) {
        Ok(v) => v,
        Err(e) => { return Err(e); },
    };
    let deal_type = match take_text(&row[1]) {
        Ok(v) => v,
        Err(e) => { return Err(e); },
    };
    let client_id = match take_text(&row[2]) {
        Ok(v) => v,
        Err(e) => { return Err(e); },
    };
    let vehicle_id = match take_text(&row[3]) {
        Ok(v) => v,
        Err(e) => { return Err(e); },
    };
    let status = match take_text(&row[4]) {
        Ok(v) => v,
        Err(e) => { return Err(e); },
    };
    let total_amount = match take_int(&row[5]) {
        Ok(v) => v,
        Err(e) => { return Err(e); },
    };
    let sale_date = match take_opt_int(&row[6]) {
        Ok(v) => v,
        Err(e) => { return Err(e); },
    };
    let sale_amount = match take_opt_int(&row[7]) {
        Ok(v) => v,
        Err(e) => { return Err(e); },
    };
    let sales_tax = match take_opt_int(&row[8]) {
        Ok(v) => v,
        Err(e) => { return Err(e); },
    };
    let doc_fee = match take_opt_int(&row[9]) {
        Ok(v) => v,
        Err(e) => { return Err(e); },
    };
    let trade_in_value = match take_opt_int(&row[10]) {
        Ok(v) => v,
        Err(e) => { return Err(e); },
    };
    let down_payment = match take_opt_int(&row[11]) {
        Ok(v) => v,
        Err(e) => { return Err(e); },
    };
    let financed_amount = match take_opt_int(&row[12]) {
        Ok(v) => v,
        Err(e) => { return Err(e); },
    };
    let document_ids = match take_text(&row[13]) {
        Ok(v) => v,
        Err(e) => { return Err(e); },
    };
    let cobuyer_data = match take_opt_text(&row[14]) {
        Ok(v) => v,
        Err(e) => { return Err(e); },
    };
    let created_at = match take_int(&row[15]) {
        Ok(v) => v,
        Err(e) => { return Err(e); },
    };
    let updated_at = match take_int(&row[16]) {
        Ok(v) => v,
        Err(e) => { return Err(e); },
    };
    let synced_at = match take_opt_int(&row[17]) {
        Ok(v) => v,
        Err(e) => { return Err(e); },
    };
    let user_id = if n > DEAL_COLS_LEGACY {
        match take_opt_text(&row[18]) {
            Ok(v) => v,
            Err(e) => { return Err(e); },
        }
    } else {
        None
    };
    Ok(Deal {
        id,
        user_id,
        deal_type,
        client_id,
        vehicle_id,
        status,
        total_amount,
        sale_date,
        sale_amount,
        sales_tax,
        doc_fee,
        trade_in_value,
        down_payment,
        financed_amount,
        document_ids,
        cobuyer_data,
        created_at,
        updated_at,
        synced_at,
    })
}

/// Encodes a deal into the current-schema row.
pub fn encode_deal(d: &Deal) -> (r: Vec<Value>)
    ensures
        r@ == deal_to_row(*d),
{
    let mut r: Vec<Value> = Vec::new();
    r.push(Value::Text(d.id.clone()));
    r.push(Value::Text(d.deal_type.clone()));
    r.push(Value::Text(d.client_id.clone()));
    r.push(Value::Text(d.vehicle_id.clone()));
    r.push(Value::Text(d.status.clone()));
    r.push(Value::Int(d.total_amount));
    r.push(make_opt_int(&d.sale_date));
    r.push(make_opt_int(&d.sale_amount));
    r.push(make_opt_int(&d.sales_tax));
    r.push(make_opt_int(&d.doc_fee));
    r.push(make_opt_int(&d.trade_in_value));
    r.push(make_opt_int(&d.down_payment));
    r.push(make_opt_int(&d.financed_amount));
    r.push(Value::Text(d.document_ids.clone()));
    r.push(make_opt_text(&d.cobuyer_data));
    r.push(Value::Int(d.created_at));
    r.push(Value::Int(d.updated_at));
    r.push(make_opt_int(&d.synced_at));
    r.push(make_opt_text(&d.user_id));
    proof {
        assert(r@ =~= deal_to_row(*d));
    }
    r
}

/// Encoding a deal yields a well-shaped row that decodes back to the same
/// deal, field for field.
pub proof fn lemma_deal_round_trip(d: Deal)
    ensures
        deal_row_ok(deal_to_row(d)),
        deal_of_row(deal_to_row(d)) == d,
{
    lemma_opt_int_round_trip(d.sale_date);
    lemma_opt_int_round_trip(d.sale_amount);
    lemma_opt_int_round_trip(d.sales_tax);
    lemma_opt_int_round_trip(d.doc_fee);
    lemma_opt_int_round_trip(d.trade_in_value);
    lemma_opt_int_round_trip(d.down_payment);
    lemma_opt_int_round_trip(d.financed_amount);
    lemma_opt_text_round_trip(d.cobuyer_data);
    lemma_opt_int_round_trip(d.synced_at);
    lemma_opt_text_round_trip(d.user_id);
}

/// A deal row truncated to the legacy arity still decodes, with the tenant
/// defaulted to absent and every other field unchanged.
pub proof fn lemma_deal_row_drift(r: Seq<Value>)
    requires
        deal_row_ok(r),
        r.len() == DEAL_COLS,
    ensures
        deal_row_ok(r.subrange(0, DEAL_COLS_LEGACY as int)),
        deal_of_row(r.subrange(0, DEAL_COLS_LEGACY as int)) == (Deal {
            user_id: None,
            ..deal_of_row(r)
        }),
{
}

// ---------------------------------------------------------------------------
// Documents: id, deal_id, doc_type, filename, file_path, file_size,
// file_checksum, created_at, updated_at, synced_at
//
// On disk the size and checksum columns sit at the table's tail (appended
// by a later migration); the projection order above is the one every
// document reader must name explicitly.
// ---------------------------------------------------------------------------

/// Whether `r` is a well-shaped document row in the fixed projection order.
pub open spec fn document_row_ok(r: Seq<Value>) -> bool {
    &&& r.len() == DOCUMENT_COLS
    &&& r[0] is Text
    &&& r[1] is Text
    &&& r[2] is Text
    &&& r[3] is Text
    &&& r[4] is Text
    &&& opt_int_ok(r[5])
    &&& opt_text_ok(r[6])
    &&& r[7] is Int
    &&& r[8] is Int
    &&& opt_int_ok(r[9])
}

/// The document a well-shaped row decodes to.
pub open spec fn document_of_row(r: Seq<Value>) -> Document {
    Document {
        id: r[0]->Text_0,
        deal_id: r[1]->Text_0,
        doc_type: r[2]->Text_0,
        filename: r[3]->Text_0,
        file_path: r[4]->Text_0,
        file_size: spec_opt_int(r[5]),
        file_checksum: spec_opt_text(r[6]),
        created_at: r[7]->Int_0,
        updated_at: r[8]->Int_0,
        synced_at: spec_opt_int(r[9]),
    }
}

/// The row a document is stored as, in the fixed projection order.
pub open spec fn document_to_row(d: Document) -> Seq<Value> {
    seq![
        Value::Text(d.id),
        Value::Text(d.deal_id),
        Value::Text(d.doc_type),
        Value::Text(d.filename),
        Value::Text(d.file_path),
        opt_int_value(d.file_size),
        opt_text_value(d.file_checksum),
        Value::Int(d.created_at),
        Value::Int(d.updated_at),
        opt_int_value(d.synced_at),
    ]
}

/// Decodes a raw document row.
pub fn decode_document(row: &Vec<Value>) -> (r: Result<Document, StoreError>)
    ensures
        match r {
            Ok(d) => document_row_ok(row@) && d == document_of_row(row@),
            Err(e) => e == StoreError::DecodeError && !document_row_ok(row@),
        },
{
    if row.len() != DOCUMENT_COLS {
        return Err(StoreError::DecodeError);
    }
    let id = match take_text(&row[0]) {
        Ok(v) => v,
        Err(e) => { return Err(e); },
    };
    let deal_id = match take_text(&row[1]) {
        Ok(v) => v,
        Err(e) => { return Err(e); },
    };
    let doc_type = match take_text(&row[2]) {
        Ok(v) => v,
        Err(e) => { return Err(e); },
    };
    let filename = match take_text(&row[3]) {
        Ok(v) => v,
        Err(e) => { return Err(e); },
    };
    let file_path = match take_text(&row[4]) {
        Ok(v) => v,
        Err(e) => { return Err(e); },
    };
    let file_size = match take_opt_int(&row[5]) {
        Ok(v) => v,
        Err(e) => { return Err(e); },
    };
    let file_checksum = match take_opt_text(&row[6]) {
        Ok(v) => v,
        Err(e) => { return Err(e); },
    };
    let created_at = match take_int(&row[7]) {
        Ok(v) => v,
        Err(e) => { return Err(e); },
    };
    let updated_at = match take_int(&row[8]) {
        Ok(v) => v,
        Err(e) => { return Err(e); },
    };
    let synced_at = match take_opt_int(&row[9]) {
        Ok(v) => v,
        Err(e) => { return Err(e); },
    };
    Ok(Document {
        id,
        deal_id,
        doc_type,
        filename,
        file_path,
        file_size,
        file_checksum,
        created_at,
        updated_at,
        synced_at,
    })
}

/// Encodes a document into its projection-order row.
pub fn encode_document(d: &Document) -> (r: Vec<Value>)
    ensures
        r@ == document_to_row(*d),
{
    let mut r: Vec<Value> = Vec::new();
    r.push(Value::Text(d.id.clone()));
    r.push(Value::Text(d.deal_id.clone()));
    r.push(Value::Text(d.doc_type.clone()));
    r.push(Value::Text(d.filename.clone()));
    r.push(Value::Text(d.file_path.clone()));
    r.push(make_opt_int(&d.file_size));
    r.push(make_opt_text(&d.file_checksum));
    r.push(Value::Int(d.created_at));
    r.push(Value::Int(d.updated_at));
    r.push(make_opt_int(&d.synced_at));
    proof {
        assert(r@ =~= document_to_row(*d));
    }
    r
}

/// Encoding a document yields a well-shaped row that decodes back to the
/// same document, field for field.
pub proof fn lemma_document_round_trip(d: Document)
    ensures
        document_row_ok(document_to_row(d)),
        document_of_row(document_to_row(d)) == d,
{
    lemma_opt_int_round_trip(d.file_size);
    lemma_opt_text_round_trip(d.file_checksum);
    lemma_opt_int_round_trip(d.synced_at);
}

// ---------------------------------------------------------------------------
// Settings: key, value, updated_at
// ---------------------------------------------------------------------------

/// Whether `r` is a well-shaped settings row.
pub open spec fn setting_row_ok(r: Seq<Value>) -> bool {
    &&& r.len() == SETTING_COLS
    &&& r[0] is Text
    &&& r[1] is Text
    &&& r[2] is Int
}

/// The setting a well-shaped row decodes to.
pub open spec fn setting_of_row(r: Seq<Value>) -> Setting {
    Setting { key: r[0]->Text_0, value: r[1]->Text_0, updated_at: r[2]->Int_0 }
}

/// The row a setting is stored as.
pub open spec fn setting_to_row(s: Setting) -> Seq<Value> {
    seq![Value::Text(s.key), Value::Text(s.value), Value::Int(s.updated_at)]
}

/// Decodes a raw settings row.
pub fn decode_setting(row: &Vec<Value>) -> (r: Result<Setting, StoreError>)
    ensures
        match r {
            Ok(s) => setting_row_ok(row@) && s == setting_of_row(row@),
            Err(e) => e == StoreError::DecodeError && !setting_row_ok(row@),
        },
{
    if row.len() != SETTING_COLS {
        return Err(StoreError::DecodeError);
    }
    let key = match take_text(&row[0]) {
        Ok(v) => v,
        Err(e) => { return Err(e); },
    };
    let value = match take_text(&row[1]) {
        Ok(v) => v,
        Err(e) => { return Err(e); },
    };
    let updated_at = match take_int(&row[2]) {
        Ok(v) => v,
        Err(e) => { return Err(e); },
    };
    Ok(Setting { key, value, updated_at })
}

/// Encodes a setting into its row.
pub fn encode_setting(s: &Setting) -> (r: Vec<Value>)
    ensures
        r@ == setting_to_row(*s),
{
    let mut r: Vec<Value> = Vec::new();
    r.push(Value::Text(s.key.clone()));
    r.push(Value::Text(s.value.clone()));
    r.push(Value::Int(s.updated_at));
    proof {
        assert(r@ =~= setting_to_row(*s));
    }
    r
}

/// Encoding a setting yields a well-shaped row that decodes back to the
/// same setting.
pub proof fn lemma_setting_round_trip(s: Setting)
    ensures
        setting_row_ok(setting_to_row(s)),
        setting_of_row(setting_to_row(s)) == s,
{
}

} // verus!
