//! The typed entities held by the store.
//!
//! All fields are plain transfer values: opaque string ids, integer
//! timestamps (milliseconds), and monetary amounts in integer cents.
//! List- and object-valued fields (vehicle images, deal document ids,
//! co-buyer data) are carried in their serialized text shape and are
//! encoded or decoded at the caller's boundary, not here.

use vstd::prelude::*;

verus! {

/// A record of one applied schema migration.
#[derive(Debug, Clone, Copy, PartialEq, Eq, Structural)]
pub struct VersionRecord {
    pub version: i64,
    pub applied_at: i64,
}

/// A client (customer) row. Tenant-scoped: rows written before tenant
/// isolation existed carry no tenant and stay invisible to scoped reads.
#[derive(Debug, PartialEq)]
pub struct Client {
    pub id: String,
    pub user_id: Option<String>,
    pub first_name: String,
    pub last_name: String,
    pub email: Option<String>,
    pub phone: Option<String>,
    pub address: Option<String>,
    pub city: Option<String>,
    pub state: Option<String>,
    pub zip_code: Option<String>,
    pub drivers_license: Option<String>,
    pub created_at: i64,
    pub updated_at: i64,
    pub synced_at: Option<i64>,
}

/// A vehicle row. Deliberately not tenant-scoped: inventory is shared
/// across the store's users. The VIN is a natural key, unique store-wide.
#[derive(Debug, PartialEq)]
pub struct Vehicle {
    pub id: String,
    pub vin: String,
    pub stock_number: Option<String>,
    pub year: i32,
    pub make: String,
    pub model: String,
    pub trim: Option<String>,
    pub body: Option<String>,
    pub doors: Option<i32>,
    pub transmission: Option<String>,
    pub engine: Option<String>,
    pub cylinders: Option<i32>,
    pub title_number: Option<String>,
    pub mileage: i32,
    pub color: Option<String>,
    /// Asking price in cents.
    pub price: i64,
    /// Acquisition cost in cents.
    pub cost: Option<i64>,
    pub status: String,
    pub description: Option<String>,
    /// Serialized list of image references.
    pub images: Option<String>,
    pub created_at: i64,
    pub updated_at: i64,
    pub synced_at: Option<i64>,
}

/// A deal row. Tenant-scoped. Monetary fields are in cents.
#[derive(Debug, PartialEq)]
pub struct Deal {
    pub id: String,
    pub user_id: Option<String>,
    pub deal_type: String,
    pub client_id: String,
    pub vehicle_id: String,
    pub status: String,
    pub total_amount: i64,
    pub sale_date: Option<i64>,
    pub sale_amount: Option<i64>,
    pub sales_tax: Option<i64>,
    pub doc_fee: Option<i64>,
    pub trade_in_value: Option<i64>,
    pub down_payment: Option<i64>,
    pub financed_amount: Option<i64>,
    /// Serialized list of document ids.
    pub document_ids: String,
    /// Serialized co-buyer record, if any.
    pub cobuyer_data: Option<String>,
    pub created_at: i64,
    pub updated_at: i64,
    pub synced_at: Option<i64>,
}

/// A document row: metadata only; the bytes live outside the store.
/// Not tenant-scoped.
#[derive(Debug, PartialEq)]
pub struct Document {
    pub id: String,
    pub deal_id: String,
    pub doc_type: String,
    pub filename: String,
    pub file_path: String,
    pub file_size: Option<i64>,
    pub file_checksum: Option<String>,
    pub created_at: i64,
    pub updated_at: i64,
    pub synced_at: Option<i64>,
}

/// A key/value setting with upsert semantics. Keys are unique.
#[derive(Debug, PartialEq)]
pub struct Setting {
    pub key: String,
    pub value: String,
    pub updated_at: i64,
}

/// Clones an optional string, preserving the value exactly.
pub fn clone_opt_string(o: &Option<String>) -> (r: Option<String>)
    ensures
        r == *o,
{
    match o {
        Some(s) => Some(s.clone()),
        None => None,
    }
}

impl Clone for Client {
    fn clone(&self) -> (r: Self)
        ensures
            r == *self,
    {
        Client {
            id: self.id.clone(),
            user_id: clone_opt_string(&self.user_id),
            first_name: self.first_name.clone(),
            last_name: self.last_name.clone(),
            email: clone_opt_string(&self.email),
            phone: clone_opt_string(&self.phone),
            address: clone_opt_string(&self.address),
            city: clone_opt_string(&self.city),
            state: clone_opt_string(&self.state),
            zip_code: clone_opt_string(&self.zip_code),
            drivers_license: clone_opt_string(&self.drivers_license),
            created_at: self.created_at,
            updated_at: self.updated_at,
            synced_at: self.synced_at,
        }
    }
}

impl Clone for Vehicle {
    fn clone(&self) -> (r: Self)
        ensures
            r == *self,
    {
        Vehicle {
            id: self.id.clone(),
            vin: self.vin.clone(),
            stock_number: clone_opt_string(&self.stock_number),
            year: self.year,
            make: self.make.clone(),
            model: self.model.clone(),
            trim: clone_opt_string(&self.trim),
            body: clone_opt_string(&self.body),
            doors: self.doors,
            transmission: clone_opt_string(&self.transmission),
            engine: clone_opt_string(&self.engine),
            cylinders: self.cylinders,
            title_number: clone_opt_string(&self.title_number),
            mileage: self.mileage,
            color: clone_opt_string(&self.color),
            price: self.price,
            cost: self.cost,
            status: self.status.clone(),
            description: clone_opt_string(&self.description),
            images: clone_opt_string(&self.images),
            created_at: self.created_at,
            updated_at: self.updated_at,
            synced_at: self.synced_at,
        }
    }
}

impl Clone for Deal {
    fn clone(&self) -> (r: Self)
        ensures
            r == *self,
    {
        Deal {
            id: self.id.clone(),
            user_id: clone_opt_string(&self.user_id),
            deal_type: self.deal_type.clone(),
            client_id: self.client_id.clone(),
            vehicle_id: self.vehicle_id.clone(),
            status: self.status.clone(),
            total_amount: self.total_amount,
            sale_date: self.sale_date,
            sale_amount: self.sale_amount,
            sales_tax: self.sales_tax,
            doc_fee: self.doc_fee,
            trade_in_value: self.trade_in_value,
            down_payment: self.down_payment,
            financed_amount: self.financed_amount,
            document_ids: self.document_ids.clone(),
            cobuyer_data: clone_opt_string(&self.cobuyer_data),
            created_at: self.created_at,
            updated_at: self.updated_at,
            synced_at: self.synced_at,
        }
    }
}

impl Clone for Document {
    fn clone(&self) -> (r: Self)
        ensures
            r == *self,
    {
        Document {
            id: self.id.clone(),
            deal_id: self.deal_id.clone(),
            doc_type: self.doc_type.clone(),
            filename: self.filename.clone(),
            file_path: self.file_path.clone(),
            file_size: self.file_size,
            file_checksum: clone_opt_string(&self.file_checksum),
            created_at: self.created_at,
            updated_at: self.updated_at,
            synced_at: self.synced_at,
        }
    }
}

impl Clone for Setting {
    fn clone(&self) -> (r: Self)
        ensures
            r == *self,
    {
        Setting {
            key: self.key.clone(),
            value: self.value.clone(),
            updated_at: self.updated_at,
        }
    }
}

} // verus!
