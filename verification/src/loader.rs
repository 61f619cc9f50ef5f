//! Filling the store from raw rows read off the file at startup.
//!
//! Each loader decodes one table's raw rows through the drift-tolerant
//! codec, rejects a malformed row with `DecodeError`, and enforces the
//! table's key uniqueness with `DuplicateKey`, so a loaded store always
//! satisfies the store invariant. On any error the store is untouched.

#![verifier::loop_isolation(false)]

use crate::codec::{
    client_of_row, client_row_ok, deal_of_row, deal_row_ok, decode_client, decode_deal,
    decode_document, decode_setting, decode_vehicle, document_of_row, document_row_ok,
    setting_of_row, setting_row_ok, vehicle_of_row, vehicle_row_ok,
};
use crate::entities::{Client, Deal, Document, Setting, Vehicle};
use crate::errors::StoreError;
use crate::store::{
    only_clients_changed, only_deals_changed, only_documents_changed, only_settings_changed,
    only_vehicles_changed, same_store, Store,
};
use crate::values::Value;
use vstd::prelude::*;

verus! {

impl Store {
    /// Replaces the client table with the decoded rows, in row order.
    pub fn load_clients(&mut self, rows: &Vec<Vec<Value>>) -> (r: Result<(), StoreError>)
        requires
            old(self).wf(),
        ensures
            final(self).wf(),
            match r {
                Ok(_) => {
                    &&& only_clients_changed(*old(self), *final(self))
                    &&& final(self).clients@.len() == rows@.len()
                    &&& (forall|i: int|
                        0 <= i < rows@.len() ==> #[trigger] client_row_ok(rows@[i]@) && final(self).clients@[i] == client_of_row(rows@[i]@))
                },
                Err(e) => {
                    &&& same_store(*old(self), *final(self))
                    &&& (e == StoreError::DecodeError || e == StoreError::DuplicateKey)
                    &&& (e == StoreError::DecodeError ==> exists|i: int|
                        0 <= i < rows@.len() && !(#[trigger] client_row_ok(rows@[i]@)))
                    &&& (e == StoreError::DuplicateKey ==> exists|i: int, j: int|
                        0 <= i < j < rows@.len() && #[trigger] client_row_ok(rows@[i]@)
                            && #[trigger] client_row_ok(rows@[j]@) && client_of_row(rows@[i]@).id@
                            == client_of_row(rows@[j]@).id@)
                },
            },
    {
        let n = rows.len();
        let mut acc: Vec<Client> = Vec::new();
        let mut i: usize = 0;
        while i < n
            invariant
                n == rows@.len(),
                i <= n,
                acc@.len() == i,
                forall|t: int|
                    0 <= t < i ==> #[trigger] client_row_ok(rows@[t]@) && acc@[t] == client_of_row(
                        rows@[t]@,
                    ),
                forall|a: int, b: int|
                    0 <= a < b < i ==> (#[trigger] acc@[a]).id@ != (#[trigger] acc@[b]).id@,
            decreases n - i,
        {
            let c = match decode_client(&rows[i]) {
                Ok(c) => c,
                Err(e) => { return Err(e); },
            };
            let mut k: usize = 0;
            while k < i
                invariant
                    k <= i,
                    i < n,
                    n == rows@.len(),
                    acc@.len() == i,
                    forall|t: int| 0 <= t < k ==> (#[trigger] acc@[t]).id@ != c.id@,
                decreases i - k,
            {
                if acc[k].id == c.id {
                    proof {
                        assert(client_row_ok(rows@[k as int]@));
                        assert(client_of_row(rows@[k as int]@).id@ == client_of_row(
                            rows@[i as int]@,
                        ).id@);
                    }
                    return Err(StoreError::DuplicateKey);
                }
                k += 1;
            }
            acc.push(c);
            i += 1;
        }
        self.clients = acc;
        Ok(())
    }

    /// Replaces the vehicle table with the decoded rows, in row order.
    pub fn load_vehicles(&mut self, rows: &Vec<Vec<Value>>) -> (r: Result<(), StoreError>)
        requires
            old(self).wf(),
        ensures
            final(self).wf(),
            match r {
                Ok(_) => {
                    &&& only_vehicles_changed(*old(self), *final(self))
                    &&& final(self).vehicles@.len() == rows@.len()
                    &&& (forall|i: int|
                        0 <= i < rows@.len() ==> #[trigger] vehicle_row_ok(rows@[i]@) && final(self).vehicles@[i] == vehicle_of_row(rows@[i]@))
                },
                Err(e) => {
                    &&& same_store(*old(self), *final(self))
                    &&& (e == StoreError::DecodeError || e == StoreError::DuplicateKey)
                    &&& (e == StoreError::DecodeError ==> exists|i: int|
                        0 <= i < rows@.len() && !(#[trigger] vehicle_row_ok(rows@[i]@)))
                },
            },
    {
        let n = rows.len();
        let mut acc: Vec<Vehicle> = Vec::new();
        let mut i: usize = 0;
        while i < n
            invariant
                n == rows@.len(),
                i <= n,
                acc@.len() == i,
                forall|t: int|
                    0 <= t < i ==> #[trigger] vehicle_row_ok(rows@[t]@) && acc@[t]
                        == vehicle_of_row(rows@[t]@),
                forall|a: int, b: int|
                    0 <= a < b < i ==> (#[trigger] acc@[a]).id@ != (#[trigger] acc@[b]).id@ && (
                    acc@[a]).vin@ != (acc@[b]).vin@,
            decreases n - i,
        {
            let v = match decode_vehicle(&rows[i]) {
                Ok(v) => v,
                Err(e) => { return Err(e); },
            };
            let mut k: usize = 0;
            while k < i
                invariant
                    k <= i,
                    i < n,
                    n == rows@.len(),
                    acc@.len() == i,
                    forall|t: int|
                        0 <= t < k ==> (#[trigger] acc@[t]).id@ != v.id@ && (acc@[t]).vin@ != v.vin@,
                decreases i - k,
            {
                if acc[k].id == v.id || acc[k].vin == v.vin {
                    return Err(StoreError::DuplicateKey);
                }
                k += 1;
            }
            acc.push(v);
            i += 1;
        }
        self.vehicles = acc;
        Ok(())
    }

    /// Replaces the deal table with the decoded rows, in row order.
    pub fn load_deals(&mut self, rows: &Vec<Vec<Value>>) -> (r: Result<(), StoreError>)
        requires
            old(self).wf(),
        ensures
            final(self).wf(),
            match r {
                Ok(_) => {
                    &&& only_deals_changed(*old(self), *final(self))
                    &&& final(self).deals@.len() == rows@.len()
                    &&& (forall|i: int|
                        0 <= i < rows@.len() ==> #[trigger] deal_row_ok(rows@[i]@) && final(self).deals@[i] == deal_of_row(rows@[i]@))
                },
                Err(e) => {
                    &&& same_store(*old(self), *final(self))
                    &&& (e == StoreError::DecodeError || e == StoreError::DuplicateKey)
                    &&& (e == StoreError::DecodeError ==> exists|i: int|
                        0 <= i < rows@.len() && !(#[trigger] deal_row_ok(rows@[i]@)))
                },
            },
    {
        let n = rows.len();
        let mut acc: Vec<Deal> = Vec::new();
        let mut i: usize = 0;
        while i < n
            invariant
                n == rows@.len(),
                i <= n,
                acc@.len() == i,
                forall|t: int|
                    0 <= t < i ==> #[trigger] deal_row_ok(rows@[t]@) && acc@[t] == deal_of_row(
                        rows@[t]@,
                    ),
                forall|a: int, b: int|
                    0 <= a < b < i ==> (#[trigger] acc@[a]).id@ != (#[trigger] acc@[b]).id@,
            decreases n - i,
        {
            let d = match decode_deal(&rows[i]) {
                Ok(d) => d,
                Err(e) => { return Err(e); },
            };
            let mut k: usize = 0;
            while k < i
                invariant
                    k <= i,
                    i < n,
                    n == rows@.len(),
                    acc@.len() == i,
                    forall|t: int| 0 <= t < k ==> (#[trigger] acc@[t]).id@ != d.id@,
                decreases i - k,
            {
                if acc[k].id == d.id {
                    return Err(StoreError::DuplicateKey);
                }
                k += 1;
            }
            acc.push(d);
            i += 1;
        }
        self.deals = acc;
        Ok(())
    }

    /// Replaces the document table with the decoded rows, in row order.
    pub fn load_documents(&mut self, rows: &Vec<Vec<Value>>) -> (r: Result<(), StoreError>)
        requires
            old(self).wf(),
        ensures
            final(self).wf(),
            match r {
                Ok(_) => {
                    &&& only_documents_changed(*old(self), *final(self))
                    &&& final(self).documents@.len() == rows@.len()
                    &&& (forall|i: int|
                        0 <= i < rows@.len() ==> #[trigger] document_row_ok(rows@[i]@) && final(self).documents@[i] == document_of_row(rows@[i]@))
                },
                Err(e) => {
                    &&& same_store(*old(self), *final(self))
                    &&& (e == StoreError::DecodeError || e == StoreError::DuplicateKey)
                    &&& (e == StoreError::DecodeError ==> exists|i: int|
                        0 <= i < rows@.len() && !(#[trigger] document_row_ok(rows@[i]@)))
                },
            },
    {
        let n = rows.len();
        let mut acc: Vec<Document> = Vec::new();
        let mut i: usize = 0;
        while i < n
            invariant
                n == rows@.len(),
                i <= n,
                acc@.len() == i,
                forall|t: int|
                    0 <= t < i ==> #[trigger] document_row_ok(rows@[t]@) && acc@[t]
                        == document_of_row(rows@[t]@),
                forall|a: int, b: int|
                    0 <= a < b < i ==> (#[trigger] acc@[a]).id@ != (#[trigger] acc@[b]).id@,
            decreases n - i,
        {
            let d = match decode_document(&rows[i]) {
                Ok(d) => d,
                Err(e) => { return Err(e); },
            };
            let mut k: usize = 0;
            while k < i
                invariant
                    k <= i,
                    i < n,
                    n == rows@.len(),
                    acc@.len() == i,
                    forall|t: int| 0 <= t < k ==> (#[trigger] acc@[t]).id@ != d.id@,
                decreases i - k,
            {
                if acc[k].id == d.id {
                    return Err(StoreError::DuplicateKey);
                }
                k += 1;
            }
            acc.push(d);
            i += 1;
        }
        self.documents = acc;
        Ok(())
    }

    /// Replaces the settings table with the decoded rows, in row order.
    pub fn load_settings(&mut self, rows: &Vec<Vec<Value>>) -> (r: Result<(), StoreError>)
        requires
            old(self).wf(),
        ensures
            final(self).wf(),
            match r {
                Ok(_) => {
                    &&& only_settings_changed(*old(self), *final(self))
                    &&& final(self).settings@.len() == rows@.len()
                    &&& (forall|i: int|
                        0 <= i < rows@.len() ==> #[trigger] setting_row_ok(rows@[i]@) && final(self).settings@[i] == setting_of_row(rows@[i]@))
                },
                Err(e) => {
                    &&& same_store(*old(self), *final(self))
                    &&& (e == StoreError::DecodeError || e == StoreError::DuplicateKey)
                    &&& (e == StoreError::DecodeError ==> exists|i: int|
                        0 <= i < rows@.len() && !(#[trigger] setting_row_ok(rows@[i]@)))
                },
            },
    {
        let n = rows.len();
        let mut acc: Vec<Setting> = Vec::new();
        let mut i: usize = 0;
        while i < n
            invariant
                n == rows@.len(),
                i <= n,
                acc@.len() == i,
                forall|t: int|
                    0 <= t < i ==> #[trigger] setting_row_ok(rows@[t]@) && acc@[t]
                        == setting_of_row(rows@[t]@),
                forall|a: int, b: int|
                    0 <= a < b < i ==> (#[trigger] acc@[a]).key@ != (#[trigger] acc@[b]).key@,
            decreases n - i,
        {
            let s = match decode_setting(&rows[i]) {
                Ok(s) => s,
                Err(e) => { return Err(e); },
            };
            let mut k: usize = 0;
            while k < i
                invariant
                    k <= i,
                    i < n,
                    n == rows@.len(),
                    acc@.len() == i,
                    forall|t: int| 0 <= t < k ==> (#[trigger] acc@[t]).key@ != s.key@,
                decreases i - k,
            {
                if acc[k].key == s.key {
                    return Err(StoreError::DuplicateKey);
                }
                k += 1;
            }
            acc.push(s);
            i += 1;
        }
        self.settings = acc;
        Ok(())
    }
}

} // verus!
