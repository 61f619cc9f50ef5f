//! Structured partial updates.
//!
//! An update names only the fields it sets, one optional slot per mutable
//! entity field, so the allowed update surface is enumerable and statically
//! checked. Applying a patch never touches a row's id, tenant, creation
//! time or sync time, and always stamps the update time.

use crate::entities::{Client, Deal, Document, Vehicle};
use vstd::prelude::*;

verus! {

/// The fields a client update may set.
#[derive(Debug, PartialEq)]
pub struct ClientPatch {
    pub first_name: Option<String>,
    pub last_name: Option<String>,
    pub email: Option<String>,
    pub phone: Option<String>,
    pub address: Option<String>,
    pub city: Option<String>,
    pub state: Option<String>,
    pub zip_code: Option<String>,
    pub drivers_license: Option<String>,
}

impl ClientPatch {
    /// A patch that sets nothing.
    pub fn empty() -> (r: ClientPatch)
        ensures
            r == (ClientPatch {
                first_name: None,
                last_name: None,
                email: None,
                phone: None,
                address: None,
                city: None,
                state: None,
                zip_code: None,
                drivers_license: None,
            }),
    {
        ClientPatch {
            first_name: None,
            last_name: None,
            email: None,
            phone: None,
            address: None,
            city: None,
            state: None,
            zip_code: None,
            drivers_license: None,
        }
    }
}

/// A required field keeps its value unless the patch sets it.
pub open spec fn patched_string(p: Option<String>, c: String) -> String {
    match p {
        Some(v) => v,
        None => c,
    }
}

/// An optional field keeps its value unless the patch sets it; a patch can
/// set a value but never clear one, mirroring the update surface of the
/// storage layer.
pub open spec fn patched_opt_string(p: Option<String>, c: Option<String>) -> Option<String> {
    match p {
        Some(v) => Some(v),
        None => c,
    }
}

/// As [`patched_opt_string`], for integer fields.
pub open spec fn patched_opt_i64(p: Option<i64>, c: Option<i64>) -> Option<i64> {
    match p {
        Some(v) => Some(v),
        None => c,
    }
}

/// As [`patched_opt_string`], for `i32` fields.
pub open spec fn patched_opt_i32(p: Option<i32>, c: Option<i32>) -> Option<i32> {
    match p {
        Some(v) => Some(v),
        None => c,
    }
}

/// A required integer field keeps its value unless the patch sets it.
pub open spec fn patched_i64(p: Option<i64>, c: i64) -> i64 {
    match p {
        Some(v) => v,
        None => c,
    }
}

/// As [`patched_i64`], for `i32` fields.
pub open spec fn patched_i32(p: Option<i32>, c: i32) -> i32 {
    match p {
        Some(v) => v,
        None => c,
    }
}

/// The client a patch leaves behind: patched fields set, the update time
/// stamped, and the id, tenant, creation and sync times untouched.
pub open spec fn spec_apply_client_patch(c: Client, p: ClientPatch, now: i64) -> Client {
    Client {
        first_name: patched_string(p.first_name, c.first_name),
        last_name: patched_string(p.last_name, c.last_name),
        email: patched_opt_string(p.email, c.email),
        phone: patched_opt_string(p.phone, c.phone),
        address: patched_opt_string(p.address, c.address),
        city: patched_opt_string(p.city, c.city),
        state: patched_opt_string(p.state, c.state),
        zip_code: patched_opt_string(p.zip_code, c.zip_code),
        drivers_license: patched_opt_string(p.drivers_license, c.drivers_license),
        updated_at: now,
        ..c
    }
}

/// Picks the patched value of a required string field.
fn pick_string(p: &Option<String>, c: &String) -> (r: String)
    ensures
        r == patched_string(*p, *c),
{
    match p {
        Some(v) => v.clone(),
        None => c.clone(),
    }
}

/// Picks the patched value of an optional string field.
fn pick_opt_string(p: &Option<String>, c: &Option<String>) -> (r: Option<String>)
    ensures
        r == patched_opt_string(*p, *c),
{
    match p {
        Some(v) => Some(v.clone()),
        None => crate::entities::clone_opt_string(c),
    }
}

/// Applies a client patch.
pub fn apply_client_patch(c: &Client, p: &ClientPatch, now: i64) -> (r: Client)
    ensures
        r == spec_apply_client_patch(*c, *p, now),
{
    Client {
        id: c.id.clone(),
        user_id: crate::entities::clone_opt_string(&c.user_id),
        first_name: pick_string(&p.first_name, &c.first_name),
        last_name: pick_string(&p.last_name, &c.last_name),
        email: pick_opt_string(&p.email, &c.email),
        phone: pick_opt_string(&p.phone, &c.phone),
        address: pick_opt_string(&p.address, &c.address),
        city: pick_opt_string(&p.city, &c.city),
        state: pick_opt_string(&p.state, &c.state),
        zip_code: pick_opt_string(&p.zip_code, &c.zip_code),
        drivers_license: pick_opt_string(&p.drivers_license, &c.drivers_license),
        created_at: c.created_at,
        updated_at: now,
        synced_at: c.synced_at,
    }
}

/// The fields a vehicle update may set.
#[derive(Debug, PartialEq)]
pub struct VehiclePatch {
    pub vin: Option<String>,
    pub stock_number: Option<String>,
    pub year: Option<i32>,
    pub make: Option<String>,
    pub model: Option<String>,
    pub trim: Option<String>,
    pub body: Option<String>,
    pub doors: Option<i32>,
    pub transmission: Option<String>,
    pub engine: Option<String>,
    pub cylinders: Option<i32>,
    pub title_number: Option<String>,
    pub mileage: Option<i32>,
    pub color: Option<String>,
    pub price: Option<i64>,
    pub cost: Option<i64>,
    pub status: Option<String>,
    pub description: Option<String>,
    pub images: Option<String>,
}

impl VehiclePatch {
    /// A patch that sets nothing.
    pub fn empty() -> (r: VehiclePatch)
        ensures
            r == (VehiclePatch {
                vin: None,
                stock_number: None,
                year: None,
                make: None,
                model: None,
                trim: None,
                body: None,
                doors: None,
                transmission: None,
                engine: None,
                cylinders: None,
                title_number: None,
                mileage: None,
                color: None,
                price: None,
                cost: None,
                status: None,
                description: None,
                images: None,
            }),
    {
        VehiclePatch {
            vin: None,
            stock_number: None,
            year: None,
            make: None,
            model: None,
            trim: None,
            body: None,
            doors: None,
            transmission: None,
            engine: None,
            cylinders: None,
            title_number: None,
            mileage: None,
            color: None,
            price: None,
            cost: None,
            status: None,
            description: None,
            images: None,
        }
    }
}

/// The vehicle a patch leaves behind.
pub open spec fn spec_apply_vehicle_patch(v: Vehicle, p: VehiclePatch, now: i64) -> Vehicle {
    Vehicle {
        vin: patched_string(p.vin, v.vin),
        stock_number: patched_opt_string(p.stock_number, v.stock_number),
        year: patched_i32(p.year, v.year),
        make: patched_string(p.make, v.make),
        model: patched_string(p.model, v.model),
        trim: patched_opt_string(p.trim, v.trim),
        body: patched_opt_string(p.body, v.body),
        doors: patched_opt_i32(p.doors, v.doors),
        transmission: patched_opt_string(p.transmission, v.transmission),
        engine: patched_opt_string(p.engine, v.engine),
        cylinders: patched_opt_i32(p.cylinders, v.cylinders),
        title_number: patched_opt_string(p.title_number, v.title_number),
        mileage: patched_i32(p.mileage, v.mileage),
        color: patched_opt_string(p.color, v.color),
        price: patched_i64(p.price, v.price),
        cost: patched_opt_i64(p.cost, v.cost),
        status: patched_string(p.status, v.status),
        description: patched_opt_string(p.description, v.description),
        images: patched_opt_string(p.images, v.images),
        updated_at: now,
        ..v
    }
}

/// Applies a vehicle patch.
pub fn apply_vehicle_patch(v: &Vehicle, p: &VehiclePatch, now: i64) -> (r: Vehicle)
    ensures
        r == spec_apply_vehicle_patch(*v, *p, now),
{
    Vehicle {
        id: v.id.clone(),
        vin: pick_string(&p.vin, &v.vin),
        stock_number: pick_opt_string(&p.stock_number, &v.stock_number),
        year: match p.year {
            Some(x) => x,
            None => v.year,
        },
        make: pick_string(&p.make, &v.make),
        model: pick_string(&p.model, &v.model),
        trim: pick_opt_string(&p.trim, &v.trim),
        body: pick_opt_string(&p.body, &v.body),
        doors: match p.doors {
            Some(x) => Some(x),
            None => v.doors,
        },
        transmission: pick_opt_string(&p.transmission, &v.transmission),
        engine: pick_opt_string(&p.engine, &v.engine),
        cylinders: match p.cylinders {
            Some(x) => Some(x),
            None => v.cylinders,
        },
        title_number: pick_opt_string(&p.title_number, &v.title_number),
        mileage: match p.mileage {
            Some(x) => x,
            None => v.mileage,
        },
        color: pick_opt_string(&p.color, &v.color),
        price: match p.price {
            Some(x) => x,
            None => v.price,
        },
        cost: match p.cost {
            Some(x) => Some(x),
            None => v.cost,
        },
        status: pick_string(&p.status, &v.status),
        description: pick_opt_string(&p.description, &v.description),
        images: pick_opt_string(&p.images, &v.images),
        created_at: v.created_at,
        updated_at: now,
        synced_at: v.synced_at,
    }
}

/// The fields a deal update may set.
#[derive(Debug, PartialEq)]
pub struct DealPatch {
    pub deal_type: Option<String>,
    pub status: Option<String>,
    pub total_amount: Option<i64>,
    pub sale_date: Option<i64>,
    pub sale_amount: Option<i64>,
    pub sales_tax: Option<i64>,
    pub doc_fee: Option<i64>,
    pub trade_in_value: Option<i64>,
    pub down_payment: Option<i64>,
    pub financed_amount: Option<i64>,
    pub document_ids: Option<String>,
    pub cobuyer_data: Option<String>,
}

impl DealPatch {
    /// A patch that sets nothing.
    pub fn empty() -> (r: DealPatch)
        ensures
            r == (DealPatch {
                deal_type: None,
                status: None,
                total_amount: None,
                sale_date: None,
                sale_amount: None,
                sales_tax: None,
                doc_fee: None,
                trade_in_value: None,
                down_payment: None,
                financed_amount: None,
                document_ids: None,
                cobuyer_data: None,
            }),
    {
        DealPatch {
            deal_type: None,
            status: None,
            total_amount: None,
            sale_date: None,
            sale_amount: None,
            sales_tax: None,
            doc_fee: None,
            trade_in_value: None,
            down_payment: None,
            financed_amount: None,
            document_ids: None,
            cobuyer_data: None,
        }
    }
}

/// The deal a patch leaves behind.
pub open spec fn spec_apply_deal_patch(d: Deal, p: DealPatch, now: i64) -> Deal {
    Deal {
        deal_type: patched_string(p.deal_type, d.deal_type),
        status: patched_string(p.status, d.status),
        total_amount: patched_i64(p.total_amount, d.total_amount),
        sale_date: patched_opt_i64(p.sale_date, d.sale_date),
        sale_amount: patched_opt_i64(p.sale_amount, d.sale_amount),
        sales_tax: patched_opt_i64(p.sales_tax, d.sales_tax),
        doc_fee: patched_opt_i64(p.doc_fee, d.doc_fee),
        trade_in_value: patched_opt_i64(p.trade_in_value, d.trade_in_value),
        down_payment: patched_opt_i64(p.down_payment, d.down_payment),
        financed_amount: patched_opt_i64(p.financed_amount, d.financed_amount),
        document_ids: patched_string(p.document_ids, d.document_ids),
        cobuyer_data: patched_opt_string(p.cobuyer_data, d.cobuyer_data),
        updated_at: now,
        ..d
    }
}

/// Applies a deal patch.
pub fn apply_deal_patch(d: &Deal, p: &DealPatch, now: i64) -> (r: Deal)
    ensures
        r == spec_apply_deal_patch(*d, *p, now),
{
    Deal {
        id: d.id.clone(),
        user_id: crate::entities::clone_opt_string(&d.user_id),
        deal_type: pick_string(&p.deal_type, &d.deal_type),
        client_id: d.client_id.clone(),
        vehicle_id: d.vehicle_id.clone(),
        status: pick_string(&p.status, &d.status),
        total_amount: match p.total_amount {
            Some(x) => x,
            None => d.total_amount,
        },
        sale_date: match p.sale_date {
            Some(x) => Some(x),
            None => d.sale_date,
        },
        sale_amount: match p.sale_amount {
            Some(x) => Some(x),
            None => d.sale_amount,
        },
        sales_tax: match p.sales_tax {
            Some(x) => Some(x),
            None => d.sales_tax,
        },
        doc_fee: match p.doc_fee {
            Some(x) => Some(x),
            None => d.doc_fee,
        },
        trade_in_value: match p.trade_in_value {
            Some(x) => Some(x),
            None => d.trade_in_value,
        },
        down_payment: match p.down_payment {
            Some(x) => Some(x),
            None => d.down_payment,
        },
        financed_amount: match p.financed_amount {
            Some(x) => Some(x),
            None => d.financed_amount,
        },
        document_ids: pick_string(&p.document_ids, &d.document_ids),
        cobuyer_data: pick_opt_string(&p.cobuyer_data, &d.cobuyer_data),
        created_at: d.created_at,
        updated_at: now,
        synced_at: d.synced_at,
    }
}

/// The fields a document update may set.
#[derive(Debug, PartialEq)]
pub struct DocumentPatch {
    pub filename: Option<String>,
    pub file_path: Option<String>,
    pub file_size: Option<i64>,
    pub file_checksum: Option<String>,
}

impl DocumentPatch {
    /// A patch that sets nothing.
    pub fn empty() -> (r: DocumentPatch)
        ensures
            r == (DocumentPatch {
                filename: None,
                file_path: None,
                file_size: None,
                file_checksum: None,
            }),
    {
        DocumentPatch { filename: None, file_path: None, file_size: None, file_checksum: None }
    }
}

/// The document a patch leaves behind.
pub open spec fn spec_apply_document_patch(d: Document, p: DocumentPatch, now: i64) -> Document {
    Document {
        filename: patched_string(p.filename, d.filename),
        file_path: patched_string(p.file_path, d.file_path),
        file_size: patched_opt_i64(p.file_size, d.file_size),
        file_checksum: patched_opt_string(p.file_checksum, d.file_checksum),
        updated_at: now,
        ..d
    }
}

/// Applies a document patch.
pub fn apply_document_patch(d: &Document, p: &DocumentPatch, now: i64) -> (r: Document)
    ensures
        r == spec_apply_document_patch(*d, *p, now),
{
    Document {
        id: d.id.clone(),
        deal_id: d.deal_id.clone(),
        doc_type: d.doc_type.clone(),
        filename: pick_string(&p.filename, &d.filename),
        file_path: pick_string(&p.file_path, &d.file_path),
        file_size: match p.file_size {
            Some(x) => Some(x),
            None => d.file_size,
        },
        file_checksum: pick_opt_string(&p.file_checksum, &d.file_checksum),
        created_at: d.created_at,
        updated_at: now,
        synced_at: d.synced_at,
    }
}

/// A patch that sets only a deal's status changes that status, stamps the
/// update time, and leaves every other field of the deal unchanged.
pub proof fn lemma_deal_patch_status_only(d: Deal, st: String, now: i64)
    ensures
        ({
            let p = DealPatch { status: Some(st), ..DealPatch::spec_empty() };
            let n = spec_apply_deal_patch(d, p, now);
            &&& n.status == st
            &&& n.updated_at == now
            &&& n == (Deal { status: st, updated_at: now, ..d })
        }),
{
}

impl DealPatch {
    /// The patch that sets nothing, as a spec value.
    pub open spec fn spec_empty() -> DealPatch {
        DealPatch {
            deal_type: None,
            status: None,
            total_amount: None,
            sale_date: None,
            sale_amount: None,
            sales_tax: None,
            doc_fee: None,
            trade_in_value: None,
            down_payment: None,
            financed_amount: None,
            document_ids: None,
            cobuyer_data: None,
        }
    }
}

} // verus!
