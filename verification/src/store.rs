//! The entity access layer over an explicitly owned store.
//!
//! A [`Store`] holds the typed tables, the schema and the migration
//! records. It is constructed once at startup, migrated, and then injected
//! wherever entity access is needed; durability is the caller's concern.
//! Tenant-scoped tables (clients, deals) take a tenant identifier on every
//! read, write and delete: a row of another tenant is indistinguishable
//! from a missing row. Vehicles and documents are deliberately not
//! tenant-scoped; that asymmetry is part of the storage contract.

#![verifier::loop_isolation(false)]

use crate::clock::now_millis;
use crate::entities::{Client, Deal, Document, Setting, Vehicle, VersionRecord};
use crate::errors::StoreError;
use crate::order::{sort_by_created_desc, sorted_desc};
use crate::patch::{
    apply_client_patch, spec_apply_client_patch, ClientPatch,
};
use crate::schema::{run_migrations, spec_migrate, Schema};
use crate::search::{opt_match, str_match, text_match};
use vstd::pervasive::VecAdditionalExecFns;
use vstd::prelude::*;
use vstd::seq_lib::group_to_multiset_ensures;

verus! {

/// The tenant a caller supplied: present only when non-empty.
pub open spec fn spec_tenant(user_id: Option<String>) -> Option<Seq<char>> {
    match user_id {
        Some(u) => if u@.len() > 0 {
            Some(u@)
        } else {
            None
        },
        None => None,
    }
}

/// Whether a client row belongs to the given tenant. Rows written before
/// tenant isolation carry no tenant and are visible to nobody.
pub open spec fn client_visible(c: Client, uid: Seq<char>) -> bool {
    match c.user_id {
        Some(u) => u@ == uid,
        None => false,
    }
}

/// The scoped lookup predicate for clients: the id matches and the row
/// belongs to the tenant.
pub open spec fn client_matches(c: Client, id: Seq<char>, uid: Seq<char>) -> bool {
    c.id@ == id && client_visible(c, uid)
}

/// Whether a deal row belongs to the given tenant.
pub open spec fn deal_visible(d: Deal, uid: Seq<char>) -> bool {
    match d.user_id {
        Some(u) => u@ == uid,
        None => false,
    }
}

/// The scoped lookup predicate for deals.
pub open spec fn deal_matches(d: Deal, id: Seq<char>, uid: Seq<char>) -> bool {
    d.id@ == id && deal_visible(d, uid)
}

/// The persistence core's state: schema, migration records, and the typed
/// tables.
pub struct Store {
    pub schema: Schema,
    pub versions: Vec<VersionRecord>,
    pub clients: Vec<Client>,
    pub vehicles: Vec<Vehicle>,
    pub deals: Vec<Deal>,
    pub documents: Vec<Document>,
    pub settings: Vec<Setting>,
}

/// Nothing changed.
pub open spec fn same_store(pre: Store, post: Store) -> bool {
    &&& post.schema == pre.schema
    &&& post.versions@ == pre.versions@
    &&& post.clients@ == pre.clients@
    &&& post.vehicles@ == pre.vehicles@
    &&& post.deals@ == pre.deals@
    &&& post.documents@ == pre.documents@
    &&& post.settings@ == pre.settings@
}

/// Only the client table changed.
pub open spec fn only_clients_changed(pre: Store, post: Store) -> bool {
    &&& post.schema == pre.schema
    &&& post.versions@ == pre.versions@
    &&& post.vehicles@ == pre.vehicles@
    &&& post.deals@ == pre.deals@
    &&& post.documents@ == pre.documents@
    &&& post.settings@ == pre.settings@
}

/// Only the vehicle table changed.
pub open spec fn only_vehicles_changed(pre: Store, post: Store) -> bool {
    &&& post.schema == pre.schema
    &&& post.versions@ == pre.versions@
    &&& post.clients@ == pre.clients@
    &&& post.deals@ == pre.deals@
    &&& post.documents@ == pre.documents@
    &&& post.settings@ == pre.settings@
}

/// Only the deal table changed.
pub open spec fn only_deals_changed(pre: Store, post: Store) -> bool {
    &&& post.schema == pre.schema
    &&& post.versions@ == pre.versions@
    &&& post.clients@ == pre.clients@
    &&& post.vehicles@ == pre.vehicles@
    &&& post.documents@ == pre.documents@
    &&& post.settings@ == pre.settings@
}

/// Only the document table changed.
pub open spec fn only_documents_changed(pre: Store, post: Store) -> bool {
    &&& post.schema == pre.schema
    &&& post.versions@ == pre.versions@
    &&& post.clients@ == pre.clients@
    &&& post.vehicles@ == pre.vehicles@
    &&& post.deals@ == pre.deals@
    &&& post.settings@ == pre.settings@
}

/// Only the settings table changed.
pub open spec fn only_settings_changed(pre: Store, post: Store) -> bool {
    &&& post.schema == pre.schema
    &&& post.versions@ == pre.versions@
    &&& post.clients@ == pre.clients@
    &&& post.vehicles@ == pre.vehicles@
    &&& post.deals@ == pre.deals@
    &&& post.documents@ == pre.documents@
}

/// Only the schema and the migration records changed.
pub open spec fn only_schema_changed(pre: Store, post: Store) -> bool {
    &&& post.clients@ == pre.clients@
    &&& post.vehicles@ == pre.vehicles@
    &&& post.deals@ == pre.deals@
    &&& post.documents@ == pre.documents@
    &&& post.settings@ == pre.settings@
}

impl Store {
    /// The store's invariant: ids are unique per table, the vehicle VIN is
    /// unique store-wide, and setting keys are unique.
    pub open spec fn wf(&self) -> bool {
        &&& (forall|i: int, j: int|
            0 <= i < j < self.clients@.len() ==> (#[trigger] self.clients@[i]).id@ != (
            #[trigger] self.clients@[j]).id@)
        &&& (forall|i: int, j: int|
            0 <= i < j < self.vehicles@.len() ==> (#[trigger] self.vehicles@[i]).id@ != (
            #[trigger] self.vehicles@[j]).id@)
        &&& (forall|i: int, j: int|
            0 <= i < j < self.vehicles@.len() ==> (#[trigger] self.vehicles@[i]).vin@ != (
            #[trigger] self.vehicles@[j]).vin@)
        &&& (forall|i: int, j: int|
            0 <= i < j < self.deals@.len() ==> (#[trigger] self.deals@[i]).id@ != (
            #[trigger] self.deals@[j]).id@)
        &&& (forall|i: int, j: int|
            0 <= i < j < self.documents@.len() ==> (#[trigger] self.documents@[i]).id@ != (
            #[trigger] self.documents@[j]).id@)
        &&& (forall|i: int, j: int|
            0 <= i < j < self.settings@.len() ==> (#[trigger] self.settings@[i]).key@ != (
            #[trigger] self.settings@[j]).key@)
    }

    /// A fresh, unmigrated, empty store.
    pub fn new() -> (r: Store)
        ensures
            r.wf(),
            r.schema == Schema::spec_initial(),
            r.versions@ == Seq::<VersionRecord>::empty(),
            r.clients@ == Seq::<Client>::empty(),
            r.vehicles@ == Seq::<Vehicle>::empty(),
            r.deals@ == Seq::<Deal>::empty(),
            r.documents@ == Seq::<Document>::empty(),
            r.settings@ == Seq::<Setting>::empty(),
    {
        Store {
            schema: Schema::initial(),
            versions: Vec::new(),
            clients: Vec::new(),
            vehicles: Vec::new(),
            deals: Vec::new(),
            documents: Vec::new(),
            settings: Vec::new(),
        }
    }

    /// Brings the store to the current schema version, recording each
    /// applied migration at the given time. Safe to run on every startup.
    pub fn migrate(&mut self, now: i64) -> (r: Result<(), StoreError>)
        requires
            old(self).wf(),
        ensures
            final(self).wf(),
            r is Ok,
            (final(self).schema, final(self).versions@) == spec_migrate(
                old(self).schema,
                old(self).versions@,
                now,
            ),
            only_schema_changed(*old(self), *final(self)),
    {
        run_migrations(&mut self.schema, &mut self.versions, now)
    }

    /// As [`Store::migrate`], stamping the records with the wall clock.
    pub fn migrate_now(&mut self) -> (r: Result<(), StoreError>)
        requires
            old(self).wf(),
        ensures
            final(self).wf(),
            r is Ok,
            only_schema_changed(*old(self), *final(self)),
            exists|t: i64|
                (final(self).schema, final(self).versions@) == #[trigger] spec_migrate(
                    old(self).schema,
                    old(self).versions@,
                    t,
                ),
    {
        let now = now_millis();
        let r = self.migrate(now);
        r
    }
}

/// Checks the tenant identifier a caller supplied, handing back the
/// non-empty id or the canonical error.
fn require_tenant(user_id: Option<String>) -> (r: Result<String, StoreError>)
    ensures
        match r {
            Ok(u) => spec_tenant(user_id) == Some(u@) && user_id == Some(u),
            Err(e) => e == StoreError::MissingTenant && spec_tenant(user_id) is None,
        },
{
    match user_id {
        Some(u) => {
            if u.as_str().is_empty() {
                Err(StoreError::MissingTenant)
            } else {
                Ok(u)
            }
        },
        None => Err(StoreError::MissingTenant),
    }
}

/// Whether the client row belongs to the tenant.
fn client_visible_exec(c: &Client, uid: &String) -> (r: bool)
    ensures
        r == client_visible(*c, uid@),
{
    match &c.user_id {
        Some(u) => *u == *uid,
        None => false,
    }
}

/// Whether the client row matches the scoped lookup key.
fn client_key_match(c: &Client, id: &String, uid: &String) -> (r: bool)
    ensures
        r == client_matches(*c, id@, uid@),
{
    if c.id == *id {
        client_visible_exec(c, uid)
    } else {
        false
    }
}

/// Whether the deal row belongs to the tenant.
fn deal_visible_exec(d: &Deal, uid: &String) -> (r: bool)
    ensures
        r == deal_visible(*d, uid@),
{
    match &d.user_id {
        Some(u) => *u == *uid,
        None => false,
    }
}

/// Whether the deal row matches the scoped lookup key.
fn deal_key_match(d: &Deal, id: &String, uid: &String) -> (r: bool)
    ensures
        r == deal_matches(*d, id@, uid@),
{
    if d.id == *id {
        deal_visible_exec(d, uid)
    } else {
        false
    }
}

// ---------------------------------------------------------------------------
// Clients
// ---------------------------------------------------------------------------

/// How many client rows the tenant can see.
pub open spec fn count_visible_clients(s: Seq<Client>, uid: Seq<char>) -> int
    decreases s.len(),
{
    if s.len() == 0 {
        0
    } else {
        count_visible_clients(s.drop_last(), uid) + if client_visible(s.last(), uid) {
            1int
        } else {
            0int
        }
    }
}

/// Whether `out` lists exactly the tenant's client rows, most recent
/// first.
pub open spec fn client_listing(table: Seq<Client>, out: Seq<Client>, uid: Seq<char>) -> bool {
    &&& sorted_desc(out)
    &&& out.len() == count_visible_clients(table, uid)
    &&& (forall|k: int|
        0 <= k < out.len() ==> client_visible(#[trigger] out[k], uid) && table.contains(out[k]))
    &&& (forall|i: int|
        0 <= i < table.len() && client_visible(#[trigger] table[i], uid) ==> out.contains(
            table[i],
        ))
}

/// The outcome of creating a client: the tenant must be present, the id
/// must be fresh, and the stored row is the input with the tenant
/// assigned.
pub open spec fn create_client_outcome(
    pre: Store,
    post: Store,
    r: Result<Client, StoreError>,
    client: Client,
    user_id: Option<String>,
) -> bool {
    match spec_tenant(user_id) {
        None => r == Err::<Client, StoreError>(StoreError::MissingTenant) && same_store(pre, post),
        Some(uid) => {
            let stored = Client { user_id: Some(user_id->Some_0), ..client };
            if exists|i: int|
                0 <= i < pre.clients@.len() && (#[trigger] pre.clients@[i]).id@ == client.id@ {
                r == Err::<Client, StoreError>(StoreError::DuplicateKey) && same_store(pre, post)
            } else {
                &&& r == Ok::<Client, StoreError>(stored)
                &&& post.clients@ == pre.clients@.push(stored)
                &&& only_clients_changed(pre, post)
            }
        },
    }
}

/// The outcome of a scoped client lookup: the row with the given id, if it
/// belongs to the tenant; a row of another tenant looks exactly like no
/// row at all.
pub open spec fn get_client_outcome(
    pre: Store,
    r: Result<Option<Client>, StoreError>,
    id: Seq<char>,
    user_id: Option<String>,
) -> bool {
    match spec_tenant(user_id) {
        None => r == Err::<Option<Client>, StoreError>(StoreError::MissingTenant),
        Some(uid) => match r {
            Ok(found) => match found {
                Some(c) => pre.clients@.contains(c) && client_matches(c, id, uid),
                None => forall|i: int|
                    0 <= i < pre.clients@.len() ==> !client_matches(
                        #[trigger] pre.clients@[i],
                        id,
                        uid,
                    ),
            },
            Err(_) => false,
        },
    }
}

/// The outcome of a scoped client update: the matching row is patched and
/// the update time stamped; absence and foreign ownership are one error.
pub open spec fn update_client_outcome(
    pre: Store,
    post: Store,
    r: Result<Client, StoreError>,
    id: Seq<char>,
    p: ClientPatch,
    user_id: Option<String>,
    now: i64,
) -> bool {
    match spec_tenant(user_id) {
        None => r == Err::<Client, StoreError>(StoreError::MissingTenant) && same_store(pre, post),
        Some(uid) => if exists|i: int|
            0 <= i < pre.clients@.len() && client_matches(#[trigger] pre.clients@[i], id, uid) {
            let i = choose|i: int|
                0 <= i < pre.clients@.len() && client_matches(#[trigger] pre.clients@[i], id, uid);
            let patched = spec_apply_client_patch(pre.clients@[i], p, now);
            &&& r == Ok::<Client, StoreError>(patched)
            &&& post.clients@ == pre.clients@.update(i, patched)
            &&& only_clients_changed(pre, post)
        } else {
            r == Err::<Client, StoreError>(StoreError::NotFoundOrForbidden) && same_store(pre, post)
        },
    }
}

/// The outcome of a scoped client delete: the matching row disappears;
/// deleting what the tenant cannot see changes nothing and still
/// succeeds.
pub open spec fn delete_client_outcome(
    pre: Store,
    post: Store,
    r: Result<(), StoreError>,
    id: Seq<char>,
    user_id: Option<String>,
) -> bool {
    match spec_tenant(user_id) {
        None => r == Err::<(), StoreError>(StoreError::MissingTenant) && same_store(pre, post),
        Some(uid) => {
            &&& r == Ok::<(), StoreError>(())
            &&& if exists|i: int|
                0 <= i < pre.clients@.len() && client_matches(#[trigger] pre.clients@[i], id, uid) {
                let i = choose|i: int|
                    0 <= i < pre.clients@.len() && client_matches(
                        #[trigger] pre.clients@[i],
                        id,
                        uid,
                    );
                post.clients@ == pre.clients@.remove(i) && only_clients_changed(pre, post)
            } else {
                same_store(pre, post)
            }
        },
    }
}

impl Store {
    /// Creates a client for the tenant. The stored row is the input with
    /// the tenant assigned; a taken id is rejected whole, leaving the
    /// store unchanged.
    pub fn db_create_client(&mut self, client: Client, user_id: Option<String>) -> (r: Result<
        Client,
        StoreError,
    >)
        requires
            old(self).wf(),
        ensures
            final(self).wf(),
            create_client_outcome(*old(self), *final(self), r, client, user_id),
    {
        let uid = match require_tenant(user_id) {
            Ok(u) => u,
            Err(e) => { return Err(e); },
        };
        let n = self.clients.len();
        let mut i: usize = 0;
        while i < n
            invariant
                n == self.clients@.len(),
                i <= n,
                forall|j: int| 0 <= j < i ==> (#[trigger] self.clients@[j]).id@ != client.id@,
            decreases n - i,
        {
            if self.clients[i].id == client.id {
                return Err(StoreError::DuplicateKey);
            }
            i += 1;
        }
        let stored = Client { user_id: Some(uid), ..client };
        let echo = stored.clone();
        self.clients.push(stored);
        Ok(echo)
    }

    /// Looks a client up by id for the tenant.
    pub fn db_get_client(&self, id: String, user_id: Option<String>) -> (r: Result<
        Option<Client>,
        StoreError,
    >)
        ensures
            get_client_outcome(*self, r, id@, user_id),
    {
        let uid = match require_tenant(user_id) {
            Ok(u) => u,
            Err(e) => { return Err(e); },
        };
        let n = self.clients.len();
        let mut i: usize = 0;
        while i < n
            invariant
                n == self.clients@.len(),
                i <= n,
                forall|j: int|
                    0 <= j < i ==> !client_matches(#[trigger] self.clients@[j], id@, uid@),
            decreases n - i,
        {
            if client_key_match(&self.clients[i], &id, &uid) {
                return Ok(Some(self.clients[i].clone()));
            }
            i += 1;
        }
        Ok(None)
    }

    /// Lists the tenant's clients, most recent first.
    pub fn db_get_all_clients(&self, user_id: Option<String>) -> (r: Result<
        Vec<Client>,
        StoreError,
    >)
        ensures
            match spec_tenant(user_id) {
                None => r == Err::<Vec<Client>, StoreError>(StoreError::MissingTenant),
                Some(uid) => match r {
                    Ok(v) => client_listing(self.clients@, v@, uid),
                    Err(_) => false,
                },
            },
    {
        let uid = match require_tenant(user_id) {
            Ok(u) => u,
            Err(e) => { return Err(e); },
        };
        let n = self.clients.len();
        let mut picked: Vec<Client> = Vec::new();
        let mut i: usize = 0;
        while i < n
            invariant
                n == self.clients@.len(),
                i <= n,
                picked@.len() == count_visible_clients(self.clients@.take(i as int), uid@),
                forall|k: int|
                    0 <= k < picked@.len() ==> client_visible(#[trigger] picked@[k], uid@) && (
                    exists|j: int| 0 <= j < i && self.clients@[j] == picked@[k]),
                forall|j: int|
                    0 <= j < i && client_visible(#[trigger] self.clients@[j], uid@)
                        ==> picked@.contains(self.clients@[j]),
            decreases n - i,
        {
            proof {
                assert(self.clients@.take(i as int + 1).drop_last() =~= self.clients@.take(
                    i as int,
                ));
                assert(self.clients@.take(i as int + 1).last() == self.clients@[i as int]);
            }
            if client_visible_exec(&self.clients[i], &uid) {
                let ghost pre_picked = picked@;
                picked.push(self.clients[i].clone());
                proof {
                    assert forall|j: int|
                        0 <= j < i as int + 1 && client_visible(
                            #[trigger] self.clients@[j],
                            uid@,
                        ) implies picked@.contains(self.clients@[j]) by {
                        if j < i as int {
                            assert(pre_picked.contains(self.clients@[j]));
                            let k = choose|k: int|
                                0 <= k < pre_picked.len() && pre_picked[k] == self.clients@[j];
                            assert(picked@[k] == self.clients@[j]);
                        } else {
                            assert(picked@[picked@.len() - 1] == self.clients@[j]);
                        }
                    };
                }
            }
            i += 1;
        }
        proof {
            assert(self.clients@.take(n as int) =~= self.clients@);
        }
        let ghost pk = picked@;
        let out = sort_by_created_desc(picked);
        proof {
            broadcast use group_to_multiset_ensures;

            assert(out@.len() == out@.to_multiset().len());
            assert(pk.len() == pk.to_multiset().len());
            assert forall|k: int|
                0 <= k < out@.len() implies client_visible(#[trigger] out@[k], uid@)
                && self.clients@.contains(out@[k]) by {
                assert(out@.contains(out@[k]));
                assert(out@.to_multiset().count(out@[k]) > 0);
                assert(pk.contains(out@[k]));
                let kk = choose|kk: int| 0 <= kk < pk.len() && pk[kk] == out@[k];
                assert(client_visible(pk[kk], uid@));
                assert(self.clients@.contains(pk[kk]));
            };
            assert forall|j: int|
                0 <= j < self.clients@.len() && client_visible(#[trigger] self.clients@[j], uid@)
                implies out@.contains(self.clients@[j]) by {
                assert(pk.contains(self.clients@[j]));
                assert(pk.to_multiset().count(self.clients@[j]) > 0);
                assert(out@.to_multiset().count(self.clients@[j]) > 0);
            };
        }
        Ok(out)
    }

    /// Updates the fields a patch names on the tenant's client, stamping
    /// the update time.
    pub fn db_update_client_at(
        &mut self,
        id: String,
        updates: ClientPatch,
        user_id: Option<String>,
        now: i64,
    ) -> (r: Result<Client, StoreError>)
        requires
            old(self).wf(),
        ensures
            final(self).wf(),
            update_client_outcome(*old(self), *final(self), r, id@, updates, user_id, now),
    {
        let uid = match require_tenant(user_id) {
            Ok(u) => u,
            Err(e) => { return Err(e); },
        };
        let n = self.clients.len();
        let mut i: usize = 0;
        while i < n
            invariant
                *self == *old(self),
                n == self.clients@.len(),
                i <= n,
                forall|j: int|
                    0 <= j < i ==> !client_matches(#[trigger] self.clients@[j], id@, uid@),
            decreases n - i,
        {
            if client_key_match(&self.clients[i], &id, &uid) {
                let patched = apply_client_patch(&self.clients[i], &updates, now);
                let echo = patched.clone();
                proof {
                    let w = choose|w: int|
                        0 <= w < old(self).clients@.len() && client_matches(
                            #[trigger] old(self).clients@[w],
                            id@,
                            uid@,
                        );
                    assert(client_matches(old(self).clients@[i as int], id@, uid@));
                    assert(old(self).clients@[w].id@ == old(self).clients@[i as int].id@);
                    assert(w == i as int);
                }
                self.clients.set(i, patched);
                return Ok(echo);
            }
            i += 1;
        }
        Err(StoreError::NotFoundOrForbidden)
    }

    /// As [`Store::db_update_client_at`], stamping the wall clock.
    pub fn db_update_client(
        &mut self,
        id: String,
        updates: ClientPatch,
        user_id: Option<String>,
    ) -> (r: Result<Client, StoreError>)
        requires
            old(self).wf(),
        ensures
            final(self).wf(),
            exists|t: i64|
                #[trigger] update_client_outcome(
                    *old(self),
                    *final(self),
                    r,
                    id@,
                    updates,
                    user_id,
                    t,
                ),
    {
        let now = now_millis();
        let r = self.db_update_client_at(id, updates, user_id, now);
        r
    }

    /// Deletes the tenant's client with the given id, if the tenant can
    /// see it.
    pub fn db_delete_client(&mut self, id: String, user_id: Option<String>) -> (r: Result<
        (),
        StoreError,
    >)
        requires
            old(self).wf(),
        ensures
            final(self).wf(),
            delete_client_outcome(*old(self), *final(self), r, id@, user_id),
    {
        let uid = match require_tenant(user_id) {
            Ok(u) => u,
            Err(e) => { return Err(e); },
        };
        let n = self.clients.len();
        let mut i: usize = 0;
        while i < n
            invariant
                *self == *old(self),
                n == self.clients@.len(),
                i <= n,
                forall|j: int|
                    0 <= j < i ==> !client_matches(#[trigger] self.clients@[j], id@, uid@),
            decreases n - i,
        {
            if client_key_match(&self.clients[i], &id, &uid) {
                proof {
                    let w = choose|w: int|
                        0 <= w < old(self).clients@.len() && client_matches(
                            #[trigger] old(self).clients@[w],
                            id@,
                            uid@,
                        );
                    assert(client_matches(old(self).clients@[i as int], id@, uid@));
                    assert(old(self).clients@[w].id@ == old(self).clients@[i as int].id@);
                    assert(w == i as int);
                }
                self.clients.remove(i);
                proof {
                    assert forall|a: int, b: int|
                        0 <= a < b < self.clients@.len() implies (
                        #[trigger] self.clients@[a]).id@ != (#[trigger] self.clients@[b]).id@ by {
                        let pre = old(self).clients@;
                        assert(self.clients@[a] == (if a < i as int {
                            pre[a]
                        } else {
                            pre[a + 1]
                        }));
                        assert(self.clients@[b] == (if b < i as int {
                            pre[b]
                        } else {
                            pre[b + 1]
                        }));
                    };
                }
                return Ok(());
            }
            i += 1;
        }
        Ok(())
    }
}

/// Whether a client row matches the tenant and the free-text query over
/// the searched fields: first name, last name, email, phone.
pub open spec fn client_query_match(c: Client, uid: Seq<char>, q: Seq<char>) -> bool {
    &&& client_visible(c, uid)
    &&& {
        ||| text_match(c.first_name@, q)
        ||| text_match(c.last_name@, q)
        ||| (match c.email {
            Some(e) => text_match(e@, q),
            None => false,
        })
        ||| (match c.phone {
            Some(p) => text_match(p@, q),
            None => false,
        })
    }
}

/// How many client rows match the tenant and query.
pub open spec fn count_client_query(s: Seq<Client>, uid: Seq<char>, q: Seq<char>) -> int
    decreases s.len(),
{
    if s.len() == 0 {
        0
    } else {
        count_client_query(s.drop_last(), uid, q) + if client_query_match(s.last(), uid, q) {
            1int
        } else {
            0int
        }
    }
}

/// Whether `out` lists exactly the tenant's matching client rows, most
/// recent first.
pub open spec fn client_search_listing(
    table: Seq<Client>,
    out: Seq<Client>,
    uid: Seq<char>,
    q: Seq<char>,
) -> bool {
    &&& sorted_desc(out)
    &&& out.len() == count_client_query(table, uid, q)
    &&& (forall|k: int|
        0 <= k < out.len() ==> client_query_match(#[trigger] out[k], uid, q) && table.contains(
            out[k],
        ))
    &&& (forall|i: int|
        0 <= i < table.len() && client_query_match(#[trigger] table[i], uid, q) ==> out.contains(
            table[i],
        ))
}

/// Whether the client matches the query, over the searched fields.
fn client_query_match_exec(c: &Client, uid: &String, q: &String) -> (r: bool)
    ensures
        r == client_query_match(*c, uid@, q@),
{
    if !client_visible_exec(c, uid) {
        return false;
    }
    if str_match(c.first_name.as_str(), q.as_str()) {
        return true;
    }
    if str_match(c.last_name.as_str(), q.as_str()) {
        return true;
    }
    if opt_match(&c.email, q.as_str()) {
        return true;
    }
    opt_match(&c.phone, q.as_str())
}

impl Store {
    /// Case-insensitive substring search over the tenant's clients, most
    /// recent first.
    pub fn db_search_clients(&self, query: String, user_id: Option<String>) -> (r: Result<
        Vec<Client>,
        StoreError,
    >)
        ensures
            match spec_tenant(user_id) {
                None => r == Err::<Vec<Client>, StoreError>(StoreError::MissingTenant),
                Some(uid) => match r {
                    Ok(v) => client_search_listing(self.clients@, v@, uid, query@),
                    Err(_) => false,
                },
            },
    {
        let uid = match require_tenant(user_id) {
            Ok(u) => u,
            Err(e) => { return Err(e); },
        };
        let n = self.clients.len();
        let mut picked: Vec<Client> = Vec::new();
        let mut i: usize = 0;
        while i < n
            invariant
                n == self.clients@.len(),
                i <= n,
                picked@.len() == count_client_query(self.clients@.take(i as int), uid@, query@),
                forall|k: int|
                    0 <= k < picked@.len() ==> client_query_match(#[trigger] picked@[k], uid@, query@)
                        && (exists|j: int| 0 <= j < i && self.clients@[j] == picked@[k]),
                forall|j: int|
                    0 <= j < i && client_query_match(#[trigger] self.clients@[j], uid@, query@)
                        ==> picked@.contains(self.clients@[j]),
            decreases n - i,
        {
            proof {
                assert(self.clients@.take(i as int + 1).drop_last() =~= self.clients@.take(
                    i as int,
                ));
                assert(self.clients@.take(i as int + 1).last() == self.clients@[i as int]);
            }
            if client_query_match_exec(&self.clients[i], &uid, &query) {
                let ghost pre_picked = picked@;
                picked.push(self.clients[i].clone());
                proof {
                    assert forall|j: int|
                        0 <= j < i as int + 1 && client_query_match(
                            #[trigger] self.clients@[j],
                            uid@,
                            query@,
                        ) implies picked@.contains(self.clients@[j]) by {
                        if j < i as int {
                            assert(pre_picked.contains(self.clients@[j]));
                            let k = choose|k: int|
                                0 <= k < pre_picked.len() && pre_picked[k] == self.clients@[j];
                            assert(picked@[k] == self.clients@[j]);
                        } else {
                            assert(picked@[picked@.len() - 1] == self.clients@[j]);
                        }
                    };
                }
            }
            i += 1;
        }
        proof {
            assert(self.clients@.take(n as int) =~= self.clients@);
        }
        let ghost pk = picked@;
        let out = sort_by_created_desc(picked);
        proof {
            broadcast use group_to_multiset_ensures;

            assert(out@.len() == out@.to_multiset().len());
            assert(pk.len() == pk.to_multiset().len());
            assert forall|k: int|
                0 <= k < out@.len() implies client_query_match(#[trigger] out@[k], uid@, query@)
                && self.clients@.contains(out@[k]) by {
                assert(out@.contains(out@[k]));
                assert(out@.to_multiset().count(out@[k]) > 0);
                assert(pk.contains(out@[k]));
                let kk = choose|kk: int| 0 <= kk < pk.len() && pk[kk] == out@[k];
                assert(client_query_match(pk[kk], uid@, query@));
                assert(self.clients@.contains(pk[kk]));
            };
            assert forall|j: int|
                0 <= j < self.clients@.len() && client_query_match(
                    #[trigger] self.clients@[j],
                    uid@,
                    query@,
                ) implies out@.contains(self.clients@[j]) by {
                assert(pk.contains(self.clients@[j]));
                assert(pk.to_multiset().count(self.clients@[j]) > 0);
                assert(out@.to_multiset().count(self.clients@[j]) > 0);
            };
        }
        Ok(out)
    }
}

// ---------------------------------------------------------------------------
// Vehicles (not tenant-scoped: inventory is shared)
// ---------------------------------------------------------------------------

/// Whether some vehicle row already carries this id.
pub open spec fn vehicle_id_taken(s: Seq<Vehicle>, id: Seq<char>) -> bool {
    exists|i: int| 0 <= i < s.len() && (#[trigger] s[i]).id@ == id
}

/// Whether some vehicle row already carries this VIN.
pub open spec fn vehicle_vin_taken(s: Seq<Vehicle>, vin: Seq<char>) -> bool {
    exists|i: int| 0 <= i < s.len() && (#[trigger] s[i]).vin@ == vin
}

/// Whether the vehicle's stock number is present and equals `stock`.
pub open spec fn vehicle_stock_is(v: Vehicle, stock: Seq<char>) -> bool {
    match v.stock_number {
        Some(s) => s@ == stock,
        None => false,
    }
}

/// The outcome of creating a vehicle: a VIN collision is rejected whole,
/// leaving the store unchanged (the VIN is the natural key); a taken id is
/// rejected the same way.
pub open spec fn create_vehicle_outcome(
    pre: Store,
    post: Store,
    r: Result<Vehicle, StoreError>,
    vehicle: Vehicle,
) -> bool {
    if vehicle_vin_taken(pre.vehicles@, vehicle.vin@) || vehicle_id_taken(
        pre.vehicles@,
        vehicle.id@,
    ) {
        r == Err::<Vehicle, StoreError>(StoreError::DuplicateKey) && same_store(pre, post)
    } else {
        &&& r == Ok::<Vehicle, StoreError>(vehicle)
        &&& post.vehicles@ == pre.vehicles@.push(vehicle)
        &&& only_vehicles_changed(pre, post)
    }
}

/// The outcome of a vehicle lookup by id.
pub open spec fn get_vehicle_outcome(
    pre: Store,
    r: Result<Option<Vehicle>, StoreError>,
    id: Seq<char>,
) -> bool {
    match r {
        Ok(found) => match found {
            Some(v) => pre.vehicles@.contains(v) && v.id@ == id,
            None => forall|i: int|
                0 <= i < pre.vehicles@.len() ==> (#[trigger] pre.vehicles@[i]).id@ != id,
        },
        Err(_) => false,
    }
}

/// The outcome of a vehicle lookup by VIN.
pub open spec fn get_vehicle_by_vin_outcome(
    pre: Store,
    r: Result<Option<Vehicle>, StoreError>,
    vin: Seq<char>,
) -> bool {
    match r {
        Ok(found) => match found {
            Some(v) => pre.vehicles@.contains(v) && v.vin@ == vin,
            None => forall|i: int|
                0 <= i < pre.vehicles@.len() ==> (#[trigger] pre.vehicles@[i]).vin@ != vin,
        },
        Err(_) => false,
    }
}

/// The outcome of a vehicle lookup by stock number.
pub open spec fn get_vehicle_by_stock_outcome(
    pre: Store,
    r: Result<Option<Vehicle>, StoreError>,
    stock: Seq<char>,
) -> bool {
    match r {
        Ok(found) => match found {
            Some(v) => pre.vehicles@.contains(v) && vehicle_stock_is(v, stock),
            None => forall|i: int|
                0 <= i < pre.vehicles@.len() ==> !vehicle_stock_is(
                    #[trigger] pre.vehicles@[i],
                    stock,
                ),
        },
        Err(_) => false,
    }
}

/// The outcome of a vehicle update: the row with the given id is patched,
/// unless the patch would move its VIN onto another row's VIN.
pub open spec fn update_vehicle_outcome(
    pre: Store,
    post: Store,
    r: Result<Vehicle, StoreError>,
    id: Seq<char>,
    p: crate::patch::VehiclePatch,
    now: i64,
) -> bool {
    if exists|i: int| 0 <= i < pre.vehicles@.len() && (#[trigger] pre.vehicles@[i]).id@ == id {
        let i = choose|i: int|
            0 <= i < pre.vehicles@.len() && (#[trigger] pre.vehicles@[i]).id@ == id;
        let patched = crate::patch::spec_apply_vehicle_patch(pre.vehicles@[i], p, now);
        if exists|j: int|
            0 <= j < pre.vehicles@.len() && j != i && (#[trigger] pre.vehicles@[j]).vin@
                == patched.vin@ {
            r == Err::<Vehicle, StoreError>(StoreError::DuplicateKey) && same_store(pre, post)
        } else {
            &&& r == Ok::<Vehicle, StoreError>(patched)
            &&& post.vehicles@ == pre.vehicles@.update(i, patched)
            &&& only_vehicles_changed(pre, post)
        }
    } else {
        r == Err::<Vehicle, StoreError>(StoreError::NotFoundOrForbidden) && same_store(pre, post)
    }
}

/// The outcome of a vehicle delete: the row disappears if present; the
/// operation succeeds either way.
pub open spec fn delete_vehicle_outcome(
    pre: Store,
    post: Store,
    r: Result<(), StoreError>,
    id: Seq<char>,
) -> bool {
    &&& r == Ok::<(), StoreError>(())
    &&& if exists|i: int| 0 <= i < pre.vehicles@.len() && (#[trigger] pre.vehicles@[i]).id@ == id {
        let i = choose|i: int|
            0 <= i < pre.vehicles@.len() && (#[trigger] pre.vehicles@[i]).id@ == id;
        post.vehicles@ == pre.vehicles@.remove(i) && only_vehicles_changed(pre, post)
    } else {
        same_store(pre, post)
    }
}

/// Whether `out` lists the whole vehicle table, most recent first.
pub open spec fn vehicle_full_listing(table: Seq<Vehicle>, out: Seq<Vehicle>) -> bool {
    &&& sorted_desc(out)
    &&& out.len() == table.len()
    &&& (forall|k: int| 0 <= k < out.len() ==> table.contains(#[trigger] out[k]))
    &&& (forall|i: int| 0 <= i < table.len() ==> out.contains(#[trigger] table[i]))
}

/// Whether a vehicle's status equals `status`.
pub open spec fn vehicle_status_is(v: Vehicle, status: Seq<char>) -> bool {
    v.status@ == status
}

/// How many vehicle rows carry this status.
pub open spec fn count_vehicle_status(s: Seq<Vehicle>, status: Seq<char>) -> int
    decreases s.len(),
{
    if s.len() == 0 {
        0
    } else {
        count_vehicle_status(s.drop_last(), status) + if vehicle_status_is(s.last(), status) {
            1int
        } else {
            0int
        }
    }
}

/// Whether `out` lists exactly the vehicles with the given status, most
/// recent first.
pub open spec fn vehicle_status_listing(
    table: Seq<Vehicle>,
    out: Seq<Vehicle>,
    status: Seq<char>,
) -> bool {
    &&& sorted_desc(out)
    &&& out.len() == count_vehicle_status(table, status)
    &&& (forall|k: int|
        0 <= k < out.len() ==> vehicle_status_is(#[trigger] out[k], status) && table.contains(
            out[k],
        ))
    &&& (forall|i: int|
        0 <= i < table.len() && vehicle_status_is(#[trigger] table[i], status) ==> out.contains(
            table[i],
        ))
}

/// Whether a vehicle row matches the free-text query over the searched
/// fields: make, model, VIN, stock number.
pub open spec fn vehicle_query_match(v: Vehicle, q: Seq<char>) -> bool {
    ||| text_match(v.make@, q)
    ||| text_match(v.model@, q)
    ||| text_match(v.vin@, q)
    ||| (match v.stock_number {
        Some(s) => text_match(s@, q),
        None => false,
    })
}

/// How many vehicle rows match the query.
pub open spec fn count_vehicle_query(s: Seq<Vehicle>, q: Seq<char>) -> int
    decreases s.len(),
{
    if s.len() == 0 {
        0
    } else {
        count_vehicle_query(s.drop_last(), q) + if vehicle_query_match(s.last(), q) {
            1int
        } else {
            0int
        }
    }
}

/// Whether `out` lists exactly the vehicles matching the query, most
/// recent first.
pub open spec fn vehicle_search_listing(table: Seq<Vehicle>, out: Seq<Vehicle>, q: Seq<char>) -> bool {
    &&& sorted_desc(out)
    &&& out.len() == count_vehicle_query(table, q)
    &&& (forall|k: int|
        0 <= k < out.len() ==> vehicle_query_match(#[trigger] out[k], q) && table.contains(out[k]))
    &&& (forall|i: int|
        0 <= i < table.len() && vehicle_query_match(#[trigger] table[i], q) ==> out.contains(
            table[i],
        ))
}

/// Whether the vehicle matches the query, over the searched fields.
fn vehicle_query_match_exec(v: &Vehicle, q: &String) -> (r: bool)
    ensures
        r == vehicle_query_match(*v, q@),
{
    if str_match(v.make.as_str(), q.as_str()) {
        return true;
    }
    if str_match(v.model.as_str(), q.as_str()) {
        return true;
    }
    if str_match(v.vin.as_str(), q.as_str()) {
        return true;
    }
    opt_match(&v.stock_number, q.as_str())
}

impl Store {
    /// Creates a vehicle. An insert whose VIN matches an existing row is
    /// rejected whole with `DuplicateKey`, leaving the store unchanged.
    pub fn db_create_vehicle(&mut self, vehicle: Vehicle) -> (r: Result<Vehicle, StoreError>)
        requires
            old(self).wf(),
        ensures
            final(self).wf(),
            create_vehicle_outcome(*old(self), *final(self), r, vehicle),
    {
        let n = self.vehicles.len();
        let mut i: usize = 0;
        while i < n
            invariant
                n == self.vehicles@.len(),
                i <= n,
                forall|j: int| 0 <= j < i ==> (#[trigger] self.vehicles@[j]).vin@ != vehicle.vin@,
            decreases n - i,
        {
            if self.vehicles[i].vin == vehicle.vin {
                return Err(StoreError::DuplicateKey);
            }
            i += 1;
        }
        let mut k: usize = 0;
        while k < n
            invariant
                n == self.vehicles@.len(),
                k <= n,
                forall|j: int| 0 <= j < k ==> (#[trigger] self.vehicles@[j]).id@ != vehicle.id@,
            decreases n - k,
        {
            if self.vehicles[k].id == vehicle.id {
                return Err(StoreError::DuplicateKey);
            }
            k += 1;
        }
        let echo = vehicle.clone();
        self.vehicles.push(vehicle);
        Ok(echo)
    }

    /// Looks a vehicle up by id.
    pub fn db_get_vehicle(&self, id: String) -> (r: Result<Option<Vehicle>, StoreError>)
        ensures
            get_vehicle_outcome(*self, r, id@),
    {
        let n = self.vehicles.len();
        let mut i: usize = 0;
        while i < n
            invariant
                n == self.vehicles@.len(),
                i <= n,
                forall|j: int| 0 <= j < i ==> (#[trigger] self.vehicles@[j]).id@ != id@,
            decreases n - i,
        {
            if self.vehicles[i].id == id {
                return Ok(Some(self.vehicles[i].clone()));
            }
            i += 1;
        }
        Ok(None)
    }

    /// Looks a vehicle up by VIN.
    pub fn db_get_vehicle_by_vin(&self, vin: String) -> (r: Result<Option<Vehicle>, StoreError>)
        ensures
            get_vehicle_by_vin_outcome(*self, r, vin@),
    {
        let n = self.vehicles.len();
        let mut i: usize = 0;
        while i < n
            invariant
                n == self.vehicles@.len(),
                i <= n,
                forall|j: int| 0 <= j < i ==> (#[trigger] self.vehicles@[j]).vin@ != vin@,
            decreases n - i,
        {
            if self.vehicles[i].vin == vin {
                return Ok(Some(self.vehicles[i].clone()));
            }
            i += 1;
        }
        Ok(None)
    }

    /// Looks a vehicle up by stock number.
    pub fn db_get_vehicle_by_stock(&self, stock_number: String) -> (r: Result<
        Option<Vehicle>,
        StoreError,
    >)
        ensures
            get_vehicle_by_stock_outcome(*self, r, stock_number@),
    {
        let n = self.vehicles.len();
        let mut i: usize = 0;
        while i < n
            invariant
                n == self.vehicles@.len(),
                i <= n,
                forall|j: int|
                    0 <= j < i ==> !vehicle_stock_is(#[trigger] self.vehicles@[j], stock_number@),
            decreases n - i,
        {
            let hit = match &self.vehicles[i].stock_number {
                Some(s) => *s == stock_number,
                None => false,
            };
            if hit {
                return Ok(Some(self.vehicles[i].clone()));
            }
            i += 1;
        }
        Ok(None)
    }

    /// Lists the whole vehicle inventory, most recent first. The tenant
    /// identifier must be present, as for every entity listing, but does
    /// not narrow the result: inventory is deliberately shared across the
    /// store's users.
    pub fn db_get_all_vehicles(&self, user_id: Option<String>) -> (r: Result<
        Vec<Vehicle>,
        StoreError,
    >)
        ensures
            match spec_tenant(user_id) {
                None => r == Err::<Vec<Vehicle>, StoreError>(StoreError::MissingTenant),
                Some(uid) => match r {
                    Ok(v) => vehicle_full_listing(self.vehicles@, v@),
                    Err(_) => false,
                },
            },
    {
        let _uid = match require_tenant(user_id) {
            Ok(u) => u,
            Err(e) => { return Err(e); },
        };
        let n = self.vehicles.len();
        let mut picked: Vec<Vehicle> = Vec::new();
        let mut i: usize = 0;
        while i < n
            invariant
                n == self.vehicles@.len(),
                i <= n,
                picked@.len() == i,
                forall|k: int| 0 <= k < i ==> #[trigger] picked@[k] == self.vehicles@[k],
            decreases n - i,
        {
            picked.push(self.vehicles[i].clone());
            i += 1;
        }
        let ghost pk = picked@;
        let out = sort_by_created_desc(picked);
        proof {
            broadcast use group_to_multiset_ensures;

            assert(out@.len() == out@.to_multiset().len());
            assert(pk.len() == pk.to_multiset().len());
            assert forall|k: int|
                0 <= k < out@.len() implies self.vehicles@.contains(#[trigger] out@[k]) by {
                assert(out@.contains(out@[k]));
                assert(out@.to_multiset().count(out@[k]) > 0);
                assert(pk.contains(out@[k]));
                let kk = choose|kk: int| 0 <= kk < pk.len() && pk[kk] == out@[k];
                assert(self.vehicles@[kk] == out@[k]);
            };
            assert forall|j: int|
                0 <= j < self.vehicles@.len() implies out@.contains(#[trigger] self.vehicles@[j]) by {
                assert(pk[j] == self.vehicles@[j]);
                assert(pk.contains(self.vehicles@[j]));
                assert(pk.to_multiset().count(self.vehicles@[j]) > 0);
                assert(out@.to_multiset().count(self.vehicles@[j]) > 0);
            };
        }
        Ok(out)
    }

    /// Updates the fields a patch names on a vehicle, stamping the update
    /// time. A patch that would move the VIN onto another row's VIN is
    /// rejected whole.
    pub fn db_update_vehicle_at(
        &mut self,
        id: String,
        updates: crate::patch::VehiclePatch,
        now: i64,
    ) -> (r: Result<Vehicle, StoreError>)
        requires
            old(self).wf(),
        ensures
            final(self).wf(),
            update_vehicle_outcome(*old(self), *final(self), r, id@, updates, now),
    {
        let n = self.vehicles.len();
        let mut i: usize = 0;
        while i < n
            invariant
                *self == *old(self),
                n == self.vehicles@.len(),
                i <= n,
                forall|j: int| 0 <= j < i ==> (#[trigger] self.vehicles@[j]).id@ != id@,
            decreases n - i,
        {
            if self.vehicles[i].id == id {
                proof {
                    let w = choose|w: int|
                        0 <= w < old(self).vehicles@.len() && (#[trigger] old(
                            self,
                        ).vehicles@[w]).id@ == id@;
                    assert(old(self).vehicles@[i as int].id@ == id@);
                    assert(w == i as int);
                }
                let patched = crate::patch::apply_vehicle_patch(&self.vehicles[i], &updates, now);
                let mut j: usize = 0;
                while j < n
                    invariant
                        *self == *old(self),
                        n == self.vehicles@.len(),
                        i < n,
                        j <= n,
                        patched == crate::patch::spec_apply_vehicle_patch(
                            self.vehicles@[i as int],
                            updates,
                            now,
                        ),
                        forall|t: int|
                            0 <= t < j && t != i ==> (#[trigger] self.vehicles@[t]).vin@
                                != patched.vin@,
                    decreases n - j,
                {
                    if j != i && self.vehicles[j].vin == patched.vin {
                        return Err(StoreError::DuplicateKey);
                    }
                    j += 1;
                }
                let echo = patched.clone();
                self.vehicles.set(i, patched);
                proof {
                    assert forall|a: int, b: int|
                        0 <= a < b < self.vehicles@.len() implies (
                    #[trigger] self.vehicles@[a]).vin@ != (#[trigger] self.vehicles@[b]).vin@ by {
                        let pre = old(self).vehicles@;
                        if a != i as int && b != i as int {
                            assert(self.vehicles@[a] == pre[a]);
                            assert(self.vehicles@[b] == pre[b]);
                        }
                    };
                }
                return Ok(echo);
            }
            i += 1;
        }
        Err(StoreError::NotFoundOrForbidden)
    }

    /// As [`Store::db_update_vehicle_at`], stamping the wall clock.
    pub fn db_update_vehicle(&mut self, id: String, updates: crate::patch::VehiclePatch) -> (r:
        Result<Vehicle, StoreError>)
        requires
            old(self).wf(),
        ensures
            final(self).wf(),
            exists|t: i64|
                #[trigger] update_vehicle_outcome(*old(self), *final(self), r, id@, updates, t),
    {
        let now = now_millis();
        let r = self.db_update_vehicle_at(id, updates, now);
        r
    }

    /// Deletes the vehicle with the given id, if present.
    pub fn db_delete_vehicle(&mut self, id: String) -> (r: Result<(), StoreError>)
        requires
            old(self).wf(),
        ensures
            final(self).wf(),
            delete_vehicle_outcome(*old(self), *final(self), r, id@),
    {
        let n = self.vehicles.len();
        let mut i: usize = 0;
        while i < n
            invariant
                *self == *old(self),
                n == self.vehicles@.len(),
                i <= n,
                forall|j: int| 0 <= j < i ==> (#[trigger] self.vehicles@[j]).id@ != id@,
            decreases n - i,
        {
            if self.vehicles[i].id == id {
                proof {
                    let w = choose|w: int|
                        0 <= w < old(self).vehicles@.len() && (#[trigger] old(
                            self,
                        ).vehicles@[w]).id@ == id@;
                    assert(old(self).vehicles@[i as int].id@ == id@);
                    assert(w == i as int);
                }
                self.vehicles.remove(i);
                proof {
                    let pre = old(self).vehicles@;
                    assert forall|a: int, b: int|
                        0 <= a < b < self.vehicles@.len() implies (#[trigger] self.vehicles@[a]).id@
                        != (#[trigger] self.vehicles@[b]).id@ && (self.vehicles@[a]).vin@ != (
                        self.vehicles@[b]).vin@ by {
                        assert(self.vehicles@[a] == (if a < i as int {
                            pre[a]
                        } else {
                            pre[a + 1]
                        }));
                        assert(self.vehicles@[b] == (if b < i as int {
                            pre[b]
                        } else {
                            pre[b + 1]
                        }));
                    };
                }
                return Ok(());
            }
            i += 1;
        }
        Ok(())
    }

    /// Case-insensitive substring search over the vehicle inventory, most
    /// recent first.
    pub fn db_search_vehicles(&self, query: String) -> (r: Result<Vec<Vehicle>, StoreError>)
        ensures
            match r {
                Ok(v) => vehicle_search_listing(self.vehicles@, v@, query@),
                Err(_) => false,
            },
    {
        let n = self.vehicles.len();
        let mut picked: Vec<Vehicle> = Vec::new();
        let mut i: usize = 0;
        while i < n
            invariant
                n == self.vehicles@.len(),
                i <= n,
                picked@.len() == count_vehicle_query(self.vehicles@.take(i as int), query@),
                forall|k: int|
                    0 <= k < picked@.len() ==> vehicle_query_match(#[trigger] picked@[k], query@)
                        && (exists|j: int| 0 <= j < i && self.vehicles@[j] == picked@[k]),
                forall|j: int|
                    0 <= j < i && vehicle_query_match(#[trigger] self.vehicles@[j], query@)
                        ==> picked@.contains(self.vehicles@[j]),
            decreases n - i,
        {
            proof {
                assert(self.vehicles@.take(i as int + 1).drop_last() =~= self.vehicles@.take(
                    i as int,
                ));
                assert(self.vehicles@.take(i as int + 1).last() == self.vehicles@[i as int]);
            }
            if vehicle_query_match_exec(&self.vehicles[i], &query) {
                let ghost pre_picked = picked@;
                picked.push(self.vehicles[i].clone());
                proof {
                    assert forall|j: int|
                        0 <= j < i as int + 1 && vehicle_query_match(
                            #[trigger] self.vehicles@[j],
                            query@,
                        ) implies picked@.contains(self.vehicles@[j]) by {
                        if j < i as int {
                            assert(pre_picked.contains(self.vehicles@[j]));
                            let k = choose|k: int|
                                0 <= k < pre_picked.len() && pre_picked[k] == self.vehicles@[j];
                            assert(picked@[k] == self.vehicles@[j]);
                        } else {
                            assert(picked@[picked@.len() - 1] == self.vehicles@[j]);
                        }
                    };
                }
            }
            i += 1;
        }
        proof {
            assert(self.vehicles@.take(n as int) =~= self.vehicles@);
        }
        let ghost pk = picked@;
        let out = sort_by_created_desc(picked);
        proof {
            broadcast use group_to_multiset_ensures;

            assert(out@.len() == out@.to_multiset().len());
            assert(pk.len() == pk.to_multiset().len());
            assert forall|k: int|
                0 <= k < out@.len() implies vehicle_query_match(#[trigger] out@[k], query@)
                && self.vehicles@.contains(out@[k]) by {
                assert(out@.contains(out@[k]));
                assert(out@.to_multiset().count(out@[k]) > 0);
                assert(pk.contains(out@[k]));
                let kk = choose|kk: int| 0 <= kk < pk.len() && pk[kk] == out@[k];
                assert(vehicle_query_match(pk[kk], query@));
                assert(self.vehicles@.contains(pk[kk]));
            };
            assert forall|j: int|
                0 <= j < self.vehicles@.len() && vehicle_query_match(
                    #[trigger] self.vehicles@[j],
                    query@,
                ) implies out@.contains(self.vehicles@[j]) by {
                assert(pk.contains(self.vehicles@[j]));
                assert(pk.to_multiset().count(self.vehicles@[j]) > 0);
                assert(out@.to_multiset().count(self.vehicles@[j]) > 0);
            };
        }
        Ok(out)
    }

    /// Lists the vehicles with the given status, most recent first.
    pub fn db_get_vehicles_by_status(&self, status: String) -> (r: Result<Vec<Vehicle>, StoreError>)
        ensures
            match r {
                Ok(v) => vehicle_status_listing(self.vehicles@, v@, status@),
                Err(_) => false,
            },
    {
        let n = self.vehicles.len();
        let mut picked: Vec<Vehicle> = Vec::new();
        let mut i: usize = 0;
        while i < n
            invariant
                n == self.vehicles@.len(),
                i <= n,
                picked@.len() == count_vehicle_status(self.vehicles@.take(i as int), status@),
                forall|k: int|
                    0 <= k < picked@.len() ==> vehicle_status_is(#[trigger] picked@[k], status@)
                        && (exists|j: int| 0 <= j < i && self.vehicles@[j] == picked@[k]),
                forall|j: int|
                    0 <= j < i && vehicle_status_is(#[trigger] self.vehicles@[j], status@)
                        ==> picked@.contains(self.vehicles@[j]),
            decreases n - i,
        {
            proof {
                assert(self.vehicles@.take(i as int + 1).drop_last() =~= self.vehicles@.take(
                    i as int,
                ));
                assert(self.vehicles@.take(i as int + 1).last() == self.vehicles@[i as int]);
            }
            if self.vehicles[i].status == status {
                let ghost pre_picked = picked@;
                picked.push(self.vehicles[i].clone());
                proof {
                    assert forall|j: int|
                        0 <= j < i as int + 1 && vehicle_status_is(
                            #[trigger] self.vehicles@[j],
                            status@,
                        ) implies picked@.contains(self.vehicles@[j]) by {
                        if j < i as int {
                            assert(pre_picked.contains(self.vehicles@[j]));
                            let k = choose|k: int|
                                0 <= k < pre_picked.len() && pre_picked[k] == self.vehicles@[j];
                            assert(picked@[k] == self.vehicles@[j]);
                        } else {
                            assert(picked@[picked@.len() - 1] == self.vehicles@[j]);
                        }
                    };
                }
            }
            i += 1;
        }
        proof {
            assert(self.vehicles@.take(n as int) =~= self.vehicles@);
        }
        let ghost pk = picked@;
        let out = sort_by_created_desc(picked);
        proof {
            broadcast use group_to_multiset_ensures;

            assert(out@.len() == out@.to_multiset().len());
            assert(pk.len() == pk.to_multiset().len());
            assert forall|k: int|
                0 <= k < out@.len() implies vehicle_status_is(#[trigger] out@[k], status@)
                && self.vehicles@.contains(out@[k]) by {
                assert(out@.contains(out@[k]));
                assert(out@.to_multiset().count(out@[k]) > 0);
                assert(pk.contains(out@[k]));
                let kk = choose|kk: int| 0 <= kk < pk.len() && pk[kk] == out@[k];
                assert(vehicle_status_is(pk[kk], status@));
                assert(self.vehicles@.contains(pk[kk]));
            };
            assert forall|j: int|
                0 <= j < self.vehicles@.len() && vehicle_status_is(
                    #[trigger] self.vehicles@[j],
                    status@,
                ) implies out@.contains(self.vehicles@[j]) by {
                assert(pk.contains(self.vehicles@[j]));
                assert(pk.to_multiset().count(self.vehicles@[j]) > 0);
                assert(out@.to_multiset().count(self.vehicles@[j]) > 0);
            };
        }
        Ok(out)
    }
}

// ---------------------------------------------------------------------------
// Deals (tenant-scoped)
// ---------------------------------------------------------------------------

/// Whether some deal row already carries this id.
pub open spec fn deal_id_taken(s: Seq<Deal>, id: Seq<char>) -> bool {
    exists|i: int| 0 <= i < s.len() && (#[trigger] s[i]).id@ == id
}

/// How many deal rows the tenant can see.
pub open spec fn count_visible_deals(s: Seq<Deal>, uid: Seq<char>) -> int
    decreases s.len(),
{
    if s.len() == 0 {
        0
    } else {
        count_visible_deals(s.drop_last(), uid) + if deal_visible(s.last(), uid) {
            1int
        } else {
            0int
        }
    }
}

/// Whether the deal is the tenant's and references the client.
pub open spec fn deal_by_client_match(d: Deal, cid: Seq<char>, uid: Seq<char>) -> bool {
    deal_visible(d, uid) && d.client_id@ == cid
}

/// How many of the tenant's deals reference the client.
pub open spec fn count_deals_by_client(s: Seq<Deal>, cid: Seq<char>, uid: Seq<char>) -> int
    decreases s.len(),
{
    if s.len() == 0 {
        0
    } else {
        count_deals_by_client(s.drop_last(), cid, uid) + if deal_by_client_match(
            s.last(),
            cid,
            uid,
        ) {
            1int
        } else {
            0int
        }
    }
}

/// Whether the deal is the tenant's and references the vehicle.
pub open spec fn deal_by_vehicle_match(d: Deal, vid: Seq<char>, uid: Seq<char>) -> bool {
    deal_visible(d, uid) && d.vehicle_id@ == vid
}

/// How many of the tenant's deals reference the vehicle.
pub open spec fn count_deals_by_vehicle(s: Seq<Deal>, vid: Seq<char>, uid: Seq<char>) -> int
    decreases s.len(),
{
    if s.len() == 0 {
        0
    } else {
        count_deals_by_vehicle(s.drop_last(), vid, uid) + if deal_by_vehicle_match(
            s.last(),
            vid,
            uid,
        ) {
            1int
        } else {
            0int
        }
    }
}

/// Whether the deal is the tenant's and carries the status.
pub open spec fn deal_by_status_match(d: Deal, st: Seq<char>, uid: Seq<char>) -> bool {
    deal_visible(d, uid) && d.status@ == st
}

/// How many of the tenant's deals carry the status.
pub open spec fn count_deals_by_status(s: Seq<Deal>, st: Seq<char>, uid: Seq<char>) -> int
    decreases s.len(),
{
    if s.len() == 0 {
        0
    } else {
        count_deals_by_status(s.drop_last(), st, uid) + if deal_by_status_match(s.last(), st, uid) {
            1int
        } else {
            0int
        }
    }
}

/// Whether a deal row matches the tenant and the free-text query over the
/// searched fields: id, type, status.
pub open spec fn deal_query_match(d: Deal, uid: Seq<char>, q: Seq<char>) -> bool {
    &&& deal_visible(d, uid)
    &&& {
        ||| text_match(d.id@, q)
        ||| text_match(d.deal_type@, q)
        ||| text_match(d.status@, q)
    }
}

/// How many deal rows match the tenant and query.
pub open spec fn count_deal_query(s: Seq<Deal>, uid: Seq<char>, q: Seq<char>) -> int
    decreases s.len(),
{
    if s.len() == 0 {
        0
    } else {
        count_deal_query(s.drop_last(), uid, q) + if deal_query_match(s.last(), uid, q) {
            1int
        } else {
            0int
        }
    }
}

/// The outcome of creating a deal for the tenant.
pub open spec fn create_deal_outcome(
    pre: Store,
    post: Store,
    r: Result<Deal, StoreError>,
    deal: Deal,
    user_id: Option<String>,
) -> bool {
    match spec_tenant(user_id) {
        None => r == Err::<Deal, StoreError>(StoreError::MissingTenant) && same_store(pre, post),
        Some(uid) => {
            let stored = Deal { user_id: Some(user_id->Some_0), ..deal };
            if deal_id_taken(pre.deals@, deal.id@) {
                r == Err::<Deal, StoreError>(StoreError::DuplicateKey) && same_store(pre, post)
            } else {
                &&& r == Ok::<Deal, StoreError>(stored)
                &&& post.deals@ == pre.deals@.push(stored)
                &&& only_deals_changed(pre, post)
            }
        },
    }
}

/// The outcome of a scoped deal lookup.
pub open spec fn get_deal_outcome(
    pre: Store,
    r: Result<Option<Deal>, StoreError>,
    id: Seq<char>,
    user_id: Option<String>,
) -> bool {
    match spec_tenant(user_id) {
        None => r == Err::<Option<Deal>, StoreError>(StoreError::MissingTenant),
        Some(uid) => match r {
            Ok(found) => match found {
                Some(d) => pre.deals@.contains(d) && deal_matches(d, id, uid),
                None => forall|i: int|
                    0 <= i < pre.deals@.len() ==> !deal_matches(#[trigger] pre.deals@[i], id, uid),
            },
            Err(_) => false,
        },
    }
}

/// The outcome of a scoped deal update.
pub open spec fn update_deal_outcome(
    pre: Store,
    post: Store,
    r: Result<Deal, StoreError>,
    id: Seq<char>,
    p: crate::patch::DealPatch,
    user_id: Option<String>,
    now: i64,
) -> bool {
    match spec_tenant(user_id) {
        None => r == Err::<Deal, StoreError>(StoreError::MissingTenant) && same_store(pre, post),
        Some(uid) => if exists|i: int|
            0 <= i < pre.deals@.len() && deal_matches(#[trigger] pre.deals@[i], id, uid) {
            let i = choose|i: int|
                0 <= i < pre.deals@.len() && deal_matches(#[trigger] pre.deals@[i], id, uid);
            let patched = crate::patch::spec_apply_deal_patch(pre.deals@[i], p, now);
            &&& r == Ok::<Deal, StoreError>(patched)
            &&& post.deals@ == pre.deals@.update(i, patched)
            &&& only_deals_changed(pre, post)
        } else {
            r == Err::<Deal, StoreError>(StoreError::NotFoundOrForbidden) && same_store(pre, post)
        },
    }
}

/// The outcome of a scoped deal delete: the matching row disappears;
/// deleting what the tenant cannot see — another tenant's row included —
/// changes nothing and still succeeds.
pub open spec fn delete_deal_outcome(
    pre: Store,
    post: Store,
    r: Result<(), StoreError>,
    id: Seq<char>,
    user_id: Option<String>,
) -> bool {
    match spec_tenant(user_id) {
        None => r == Err::<(), StoreError>(StoreError::MissingTenant) && same_store(pre, post),
        Some(uid) => {
            &&& r == Ok::<(), StoreError>(())
            &&& if exists|i: int|
                0 <= i < pre.deals@.len() && deal_matches(#[trigger] pre.deals@[i], id, uid) {
                let i = choose|i: int|
                    0 <= i < pre.deals@.len() && deal_matches(#[trigger] pre.deals@[i], id, uid);
                post.deals@ == pre.deals@.remove(i) && only_deals_changed(pre, post)
            } else {
                same_store(pre, post)
            }
        },
    }
}

/// Whether `out` lists exactly the tenant's deals, most recent first.
pub open spec fn deal_listing(table: Seq<Deal>, out: Seq<Deal>, uid: Seq<char>) -> bool {
    &&& sorted_desc(out)
    &&& out.len() == count_visible_deals(table, uid)
    &&& (forall|k: int|
        0 <= k < out.len() ==> deal_visible(#[trigger] out[k], uid) && table.contains(out[k]))
    &&& (forall|i: int|
        0 <= i < table.len() && deal_visible(#[trigger] table[i], uid) ==> out.contains(table[i]))
}

/// Whether `out` lists exactly the tenant's deals for the client, most
/// recent first.
pub open spec fn deal_client_listing(
    table: Seq<Deal>,
    out: Seq<Deal>,
    cid: Seq<char>,
    uid: Seq<char>,
) -> bool {
    &&& sorted_desc(out)
    &&& out.len() == count_deals_by_client(table, cid, uid)
    &&& (forall|k: int|
        0 <= k < out.len() ==> deal_by_client_match(#[trigger] out[k], cid, uid) && table.contains(
            out[k],
        ))
    &&& (forall|i: int|
        0 <= i < table.len() && deal_by_client_match(#[trigger] table[i], cid, uid)
            ==> out.contains(table[i]))
}

/// Whether `out` lists exactly the tenant's deals for the vehicle, most
/// recent first.
pub open spec fn deal_vehicle_listing(
    table: Seq<Deal>,
    out: Seq<Deal>,
    vid: Seq<char>,
    uid: Seq<char>,
) -> bool {
    &&& sorted_desc(out)
    &&& out.len() == count_deals_by_vehicle(table, vid, uid)
    &&& (forall|k: int|
        0 <= k < out.len() ==> deal_by_vehicle_match(#[trigger] out[k], vid, uid) && table.contains(
            out[k],
        ))
    &&& (forall|i: int|
        0 <= i < table.len() && deal_by_vehicle_match(#[trigger] table[i], vid, uid)
            ==> out.contains(table[i]))
}

/// Whether `out` lists exactly the tenant's deals with the status, most
/// recent first.
pub open spec fn deal_status_listing(
    table: Seq<Deal>,
    out: Seq<Deal>,
    st: Seq<char>,
    uid: Seq<char>,
) -> bool {
    &&& sorted_desc(out)
    &&& out.len() == count_deals_by_status(table, st, uid)
    &&& (forall|k: int|
        0 <= k < out.len() ==> deal_by_status_match(#[trigger] out[k], st, uid) && table.contains(
            out[k],
        ))
    &&& (forall|i: int|
        0 <= i < table.len() && deal_by_status_match(#[trigger] table[i], st, uid) ==> out.contains(
            table[i],
        ))
}

/// Whether `out` lists exactly the tenant's deals matching the query,
/// most recent first.
pub open spec fn deal_search_listing(
    table: Seq<Deal>,
    out: Seq<Deal>,
    uid: Seq<char>,
    q: Seq<char>,
) -> bool {
    &&& sorted_desc(out)
    &&& out.len() == count_deal_query(table, uid, q)
    &&& (forall|k: int|
        0 <= k < out.len() ==> deal_query_match(#[trigger] out[k], uid, q) && table.contains(
            out[k],
        ))
    &&& (forall|i: int|
        0 <= i < table.len() && deal_query_match(#[trigger] table[i], uid, q) ==> out.contains(
            table[i],
        ))
}

/// Whether the deal matches the query, over the searched fields.
fn deal_query_match_exec(d: &Deal, uid: &String, q: &String) -> (r: bool)
    ensures
        r == deal_query_match(*d, uid@, q@),
{
    if !deal_visible_exec(d, uid) {
        return false;
    }
    if str_match(d.id.as_str(), q.as_str()) {
        return true;
    }
    if str_match(d.deal_type.as_str(), q.as_str()) {
        return true;
    }
    str_match(d.status.as_str(), q.as_str())
}

impl Store {
    /// Creates a deal for the tenant. The stored row is the input with the
    /// tenant assigned; a taken id is rejected whole.
    pub fn db_create_deal(&mut self, deal: Deal, user_id: Option<String>) -> (r: Result<
        Deal,
        StoreError,
    >)
        requires
            old(self).wf(),
        ensures
            final(self).wf(),
            create_deal_outcome(*old(self), *final(self), r, deal, user_id),
    {
        let uid = match require_tenant(user_id) {
            Ok(u) => u,
            Err(e) => { return Err(e); },
        };
        let n = self.deals.len();
        let mut i: usize = 0;
        while i < n
            invariant
                n == self.deals@.len(),
                i <= n,
                forall|j: int| 0 <= j < i ==> (#[trigger] self.deals@[j]).id@ != deal.id@,
            decreases n - i,
        {
            if self.deals[i].id == deal.id {
                return Err(StoreError::DuplicateKey);
            }
            i += 1;
        }
        let stored = Deal { user_id: Some(uid), ..deal };
        let echo = stored.clone();
        self.deals.push(stored);
        Ok(echo)
    }

    /// Looks a deal up by id for the tenant.
    pub fn db_get_deal(&self, id: String, user_id: Option<String>) -> (r: Result<
        Option<Deal>,
        StoreError,
    >)
        ensures
            get_deal_outcome(*self, r, id@, user_id),
    {
        let uid = match require_tenant(user_id) {
            Ok(u) => u,
            Err(e) => { return Err(e); },
        };
        let n = self.deals.len();
        let mut i: usize = 0;
        while i < n
            invariant
                n == self.deals@.len(),
                i <= n,
                forall|j: int| 0 <= j < i ==> !deal_matches(#[trigger] self.deals@[j], id@, uid@),
            decreases n - i,
        {
            if deal_key_match(&self.deals[i], &id, &uid) {
                return Ok(Some(self.deals[i].clone()));
            }
            i += 1;
        }
        Ok(None)
    }

    /// Updates the fields a patch names on the tenant's deal, stamping the
    /// update time.
    pub fn db_update_deal_at(
        &mut self,
        id: String,
        updates: crate::patch::DealPatch,
        user_id: Option<String>,
        now: i64,
    ) -> (r: Result<Deal, StoreError>)
        requires
            old(self).wf(),
        ensures
            final(self).wf(),
            update_deal_outcome(*old(self), *final(self), r, id@, updates, user_id, now),
    {
        let uid = match require_tenant(user_id) {
            Ok(u) => u,
            Err(e) => { return Err(e); },
        };
        let n = self.deals.len();
        let mut i: usize = 0;
        while i < n
            invariant
                *self == *old(self),
                n == self.deals@.len(),
                i <= n,
                forall|j: int| 0 <= j < i ==> !deal_matches(#[trigger] self.deals@[j], id@, uid@),
            decreases n - i,
        {
            if deal_key_match(&self.deals[i], &id, &uid) {
                let patched = crate::patch::apply_deal_patch(&self.deals[i], &updates, now);
                let echo = patched.clone();
                proof {
                    let w = choose|w: int|
                        0 <= w < old(self).deals@.len() && deal_matches(
                            #[trigger] old(self).deals@[w],
                            id@,
                            uid@,
                        );
                    assert(deal_matches(old(self).deals@[i as int], id@, uid@));
                    assert(old(self).deals@[w].id@ == old(self).deals@[i as int].id@);
                    assert(w == i as int);
                }
                self.deals.set(i, patched);
                return Ok(echo);
            }
            i += 1;
        }
        Err(StoreError::NotFoundOrForbidden)
    }

    /// As [`Store::db_update_deal_at`], stamping the wall clock.
    pub fn db_update_deal(
        &mut self,
        id: String,
        updates: crate::patch::DealPatch,
        user_id: Option<String>,
    ) -> (r: Result<Deal, StoreError>)
        requires
            old(self).wf(),
        ensures
            final(self).wf(),
            exists|t: i64|
                #[trigger] update_deal_outcome(
                    *old(self),
                    *final(self),
                    r,
                    id@,
                    updates,
                    user_id,
                    t,
                ),
    {
        let now = now_millis();
        let r = self.db_update_deal_at(id, updates, user_id, now);
        r
    }

    /// Deletes the tenant's deal with the given id, if the tenant can see
    /// it; a row of another tenant is left alone, exactly as if the id
    /// did not exist.
    pub fn db_delete_deal(&mut self, id: String, user_id: Option<String>) -> (r: Result<
        (),
        StoreError,
    >)
        requires
            old(self).wf(),
        ensures
            final(self).wf(),
            delete_deal_outcome(*old(self), *final(self), r, id@, user_id),
    {
        let uid = match require_tenant(user_id) {
            Ok(u) => u,
            Err(e) => { return Err(e); },
        };
        let n = self.deals.len();
        let mut i: usize = 0;
        while i < n
            invariant
                *self == *old(self),
                n == self.deals@.len(),
                i <= n,
                forall|j: int| 0 <= j < i ==> !deal_matches(#[trigger] self.deals@[j], id@, uid@),
            decreases n - i,
        {
            if deal_key_match(&self.deals[i], &id, &uid) {
                proof {
                    let w = choose|w: int|
                        0 <= w < old(self).deals@.len() && deal_matches(
                            #[trigger] old(self).deals@[w],
                            id@,
                            uid@,
                        );
                    assert(deal_matches(old(self).deals@[i as int], id@, uid@));
                    assert(old(self).deals@[w].id@ == old(self).deals@[i as int].id@);
                    assert(w == i as int);
                }
                self.deals.remove(i);
                proof {
                    let pre = old(self).deals@;
                    assert forall|a: int, b: int|
                        0 <= a < b < self.deals@.len() implies (#[trigger] self.deals@[a]).id@ != (
                    #[trigger] self.deals@[b]).id@ by {
                        assert(self.deals@[a] == (if a < i as int {
                            pre[a]
                        } else {
                            pre[a + 1]
                        }));
                        assert(self.deals@[b] == (if b < i as int {
                            pre[b]
                        } else {
                            pre[b + 1]
                        }));
                    };
                }
                return Ok(());
            }
            i += 1;
        }
        Ok(())
    }
}

impl Store {
    /// Lists the tenant's deals, most recent first.
    pub fn db_get_all_deals(&self, user_id: Option<String>) -> (r: Result<Vec<Deal>, StoreError>)
        ensures
            match spec_tenant(user_id) {
                None => r == Err::<Vec<Deal>, StoreError>(StoreError::MissingTenant),
                Some(uid) => match r {
                    Ok(v) => deal_listing(self.deals@, v@, uid),
                    Err(_) => false,
                },
            },
    {
        let uid = match require_tenant(user_id) {
            Ok(u) => u,
            Err(e) => { return Err(e); },
        };
        let n = self.deals.len();
        let mut picked: Vec<Deal> = Vec::new();
        let mut i: usize = 0;
        while i < n
            invariant
                n == self.deals@.len(),
                i <= n,
                picked@.len() == count_visible_deals(self.deals@.take(i as int), uid@),
                forall|k: int|
                    0 <= k < picked@.len() ==> deal_visible(#[trigger] picked@[k], uid@) && (exists|
                        j: int,
                    | 0 <= j < i && self.deals@[j] == picked@[k]),
                forall|j: int|
                    0 <= j < i && deal_visible(#[trigger] self.deals@[j], uid@)
                        ==> picked@.contains(self.deals@[j]),
            decreases n - i,
        {
            proof {
                assert(self.deals@.take(i as int + 1).drop_last() =~= self.deals@.take(i as int));
                assert(self.deals@.take(i as int + 1).last() == self.deals@[i as int]);
            }
            if deal_visible_exec(&self.deals[i], &uid) {
                let ghost pre_picked = picked@;
                picked.push(self.deals[i].clone());
                proof {
                    assert forall|j: int|
                        0 <= j < i as int + 1 && deal_visible(
                            #[trigger] self.deals@[j],
                            uid@,
                        ) implies picked@.contains(self.deals@[j]) by {
                        if j < i as int {
                            assert(pre_picked.contains(self.deals@[j]));
                            let k = choose|k: int|
                                0 <= k < pre_picked.len() && pre_picked[k] == self.deals@[j];
                            assert(picked@[k] == self.deals@[j]);
                        } else {
                            assert(picked@[picked@.len() - 1] == self.deals@[j]);
                        }
                    };
                }
            }
            i += 1;
        }
        proof {
            assert(self.deals@.take(n as int) =~= self.deals@);
        }
        let ghost pk = picked@;
        let out = sort_by_created_desc(picked);
        proof {
            broadcast use group_to_multiset_ensures;

            assert(out@.len() == out@.to_multiset().len());
            assert(pk.len() == pk.to_multiset().len());
            assert forall|k: int|
                0 <= k < out@.len() implies deal_visible(#[trigger] out@[k], uid@)
                && self.deals@.contains(out@[k]) by {
                assert(out@.contains(out@[k]));
                assert(out@.to_multiset().count(out@[k]) > 0);
                assert(pk.contains(out@[k]));
                let kk = choose|kk: int| 0 <= kk < pk.len() && pk[kk] == out@[k];
                assert(deal_visible(pk[kk], uid@));
                assert(self.deals@.contains(pk[kk]));
            };
            assert forall|j: int|
                0 <= j < self.deals@.len() && deal_visible(#[trigger] self.deals@[j], uid@)
                implies out@.contains(self.deals@[j]) by {
                assert(pk.contains(self.deals@[j]));
                assert(pk.to_multiset().count(self.deals@[j]) > 0);
                assert(out@.to_multiset().count(self.deals@[j]) > 0);
            };
        }
        Ok(out)
    }

    /// Lists the tenant's deals referencing the client, most recent first.
    pub fn db_get_deals_by_client(&self, client_id: String, user_id: Option<String>) -> (r: Result<
        Vec<Deal>,
        StoreError,
    >)
        ensures
            match spec_tenant(user_id) {
                None => r == Err::<Vec<Deal>, StoreError>(StoreError::MissingTenant),
                Some(uid) => match r {
                    Ok(v) => deal_client_listing(self.deals@, v@, client_id@, uid),
                    Err(_) => false,
                },
            },
    {
        let uid = match require_tenant(user_id) {
            Ok(u) => u,
            Err(e) => { return Err(e); },
        };
        let n = self.deals.len();
        let mut picked: Vec<Deal> = Vec::new();
        let mut i: usize = 0;
        while i < n
            invariant
                n == self.deals@.len(),
                i <= n,
                picked@.len() == count_deals_by_client(
                    self.deals@.take(i as int),
                    client_id@,
                    uid@,
                ),
                forall|k: int|
                    0 <= k < picked@.len() ==> deal_by_client_match(
                        #[trigger] picked@[k],
                        client_id@,
                        uid@,
                    ) && (exists|j: int| 0 <= j < i && self.deals@[j] == picked@[k]),
                forall|j: int|
                    0 <= j < i && deal_by_client_match(#[trigger] self.deals@[j], client_id@, uid@)
                        ==> picked@.contains(self.deals@[j]),
            decreases n - i,
        {
            proof {
                assert(self.deals@.take(i as int + 1).drop_last() =~= self.deals@.take(i as int));
                assert(self.deals@.take(i as int + 1).last() == self.deals@[i as int]);
            }
            let hit = if deal_visible_exec(&self.deals[i], &uid) {
                self.deals[i].client_id == client_id
            } else {
                false
            };
            if hit {
                let ghost pre_picked = picked@;
                picked.push(self.deals[i].clone());
                proof {
                    assert forall|j: int|
                        0 <= j < i as int + 1 && deal_by_client_match(
                            #[trigger] self.deals@[j],
                            client_id@,
                            uid@,
                        ) implies picked@.contains(self.deals@[j]) by {
                        if j < i as int {
                            assert(pre_picked.contains(self.deals@[j]));
                            let k = choose|k: int|
                                0 <= k < pre_picked.len() && pre_picked[k] == self.deals@[j];
                            assert(picked@[k] == self.deals@[j]);
                        } else {
                            assert(picked@[picked@.len() - 1] == self.deals@[j]);
                        }
                    };
                }
            }
            i += 1;
        }
        proof {
            assert(self.deals@.take(n as int) =~= self.deals@);
        }
        let ghost pk = picked@;
        let out = sort_by_created_desc(picked);
        proof {
            broadcast use group_to_multiset_ensures;

            assert(out@.len() == out@.to_multiset().len());
            assert(pk.len() == pk.to_multiset().len());
            assert forall|k: int|
                0 <= k < out@.len() implies deal_by_client_match(
                #[trigger] out@[k],
                client_id@,
                uid@,
            ) && self.deals@.contains(out@[k]) by {
                assert(out@.contains(out@[k]));
                assert(out@.to_multiset().count(out@[k]) > 0);
                assert(pk.contains(out@[k]));
                let kk = choose|kk: int| 0 <= kk < pk.len() && pk[kk] == out@[k];
                assert(deal_by_client_match(pk[kk], client_id@, uid@));
                assert(self.deals@.contains(pk[kk]));
            };
            assert forall|j: int|
                0 <= j < self.deals@.len() && deal_by_client_match(
                    #[trigger] self.deals@[j],
                    client_id@,
                    uid@,
                ) implies out@.contains(self.deals@[j]) by {
                assert(pk.contains(self.deals@[j]));
                assert(pk.to_multiset().count(self.deals@[j]) > 0);
                assert(out@.to_multiset().count(self.deals@[j]) > 0);
            };
        }
        Ok(out)
    }

    /// Lists the tenant's deals referencing the vehicle, most recent
    /// first.
    pub fn db_get_deals_by_vehicle(&self, vehicle_id: String, user_id: Option<String>) -> (r:
        Result<Vec<Deal>, StoreError>)
        ensures
            match spec_tenant(user_id) {
                None => r == Err::<Vec<Deal>, StoreError>(StoreError::MissingTenant),
                Some(uid) => match r {
                    Ok(v) => deal_vehicle_listing(self.deals@, v@, vehicle_id@, uid),
                    Err(_) => false,
                },
            },
    {
        let uid = match require_tenant(user_id) {
            Ok(u) => u,
            Err(e) => { return Err(e); },
        };
        let n = self.deals.len();
        let mut picked: Vec<Deal> = Vec::new();
        let mut i: usize = 0;
        while i < n
            invariant
                n == self.deals@.len(),
                i <= n,
                picked@.len() == count_deals_by_vehicle(
                    self.deals@.take(i as int),
                    vehicle_id@,
                    uid@,
                ),
                forall|k: int|
                    0 <= k < picked@.len() ==> deal_by_vehicle_match(
                        #[trigger] picked@[k],
                        vehicle_id@,
                        uid@,
                    ) && (exists|j: int| 0 <= j < i && self.deals@[j] == picked@[k]),
                forall|j: int|
                    0 <= j < i && deal_by_vehicle_match(
                        #[trigger] self.deals@[j],
                        vehicle_id@,
                        uid@,
                    ) ==> picked@.contains(self.deals@[j]),
            decreases n - i,
        {
            proof {
                assert(self.deals@.take(i as int + 1).drop_last() =~= self.deals@.take(i as int));
                assert(self.deals@.take(i as int + 1).last() == self.deals@[i as int]);
            }
            let hit = if deal_visible_exec(&self.deals[i], &uid) {
                self.deals[i].vehicle_id == vehicle_id
            } else {
                false
            };
            if hit {
                let ghost pre_picked = picked@;
                picked.push(self.deals[i].clone());
                proof {
                    assert forall|j: int|
                        0 <= j < i as int + 1 && deal_by_vehicle_match(
                            #[trigger] self.deals@[j],
                            vehicle_id@,
                            uid@,
                        ) implies picked@.contains(self.deals@[j]) by {
                        if j < i as int {
                            assert(pre_picked.contains(self.deals@[j]));
                            let k = choose|k: int|
                                0 <= k < pre_picked.len() && pre_picked[k] == self.deals@[j];
                            assert(picked@[k] == self.deals@[j]);
                        } else {
                            assert(picked@[picked@.len() - 1] == self.deals@[j]);
                        }
                    };
                }
            }
            i += 1;
        }
        proof {
            assert(self.deals@.take(n as int) =~= self.deals@);
        }
        let ghost pk = picked@;
        let out = sort_by_created_desc(picked);
        proof {
            broadcast use group_to_multiset_ensures;

            assert(out@.len() == out@.to_multiset().len());
            assert(pk.len() == pk.to_multiset().len());
            assert forall|k: int|
                0 <= k < out@.len() implies deal_by_vehicle_match(
                #[trigger] out@[k],
                vehicle_id@,
                uid@,
            ) && self.deals@.contains(out@[k]) by {
                assert(out@.contains(out@[k]));
                assert(out@.to_multiset().count(out@[k]) > 0);
                assert(pk.contains(out@[k]));
                let kk = choose|kk: int| 0 <= kk < pk.len() && pk[kk] == out@[k];
                assert(deal_by_vehicle_match(pk[kk], vehicle_id@, uid@));
                assert(self.deals@.contains(pk[kk]));
            };
            assert forall|j: int|
                0 <= j < self.deals@.len() && deal_by_vehicle_match(
                    #[trigger] self.deals@[j],
                    vehicle_id@,
                    uid@,
                ) implies out@.contains(self.deals@[j]) by {
                assert(pk.contains(self.deals@[j]));
                assert(pk.to_multiset().count(self.deals@[j]) > 0);
                assert(out@.to_multiset().count(self.deals@[j]) > 0);
            };
        }
        Ok(out)
    }

    /// Lists the tenant's deals with the given status, most recent first.
    pub fn db_get_deals_by_status(&self, status: String, user_id: Option<String>) -> (r: Result<
        Vec<Deal>,
        StoreError,
    >)
        ensures
            match spec_tenant(user_id) {
                None => r == Err::<Vec<Deal>, StoreError>(StoreError::MissingTenant),
                Some(uid) => match r {
                    Ok(v) => deal_status_listing(self.deals@, v@, status@, uid),
                    Err(_) => false,
                },
            },
    {
        let uid = match require_tenant(user_id) {
            Ok(u) => u,
            Err(e) => { return Err(e); },
        };
        let n = self.deals.len();
        let mut picked: Vec<Deal> = Vec::new();
        let mut i: usize = 0;
        while i < n
            invariant
                n == self.deals@.len(),
                i <= n,
                picked@.len() == count_deals_by_status(self.deals@.take(i as int), status@, uid@),
                forall|k: int|
                    0 <= k < picked@.len() ==> deal_by_status_match(
                        #[trigger] picked@[k],
                        status@,
                        uid@,
                    ) && (exists|j: int| 0 <= j < i && self.deals@[j] == picked@[k]),
                forall|j: int|
                    0 <= j < i && deal_by_status_match(#[trigger] self.deals@[j], status@, uid@)
                        ==> picked@.contains(self.deals@[j]),
            decreases n - i,
        {
            proof {
                assert(self.deals@.take(i as int + 1).drop_last() =~= self.deals@.take(i as int));
                assert(self.deals@.take(i as int + 1).last() == self.deals@[i as int]);
            }
            let hit = if deal_visible_exec(&self.deals[i], &uid) {
                self.deals[i].status == status
            } else {
                false
            };
            if hit {
                let ghost pre_picked = picked@;
                picked.push(self.deals[i].clone());
                proof {
                    assert forall|j: int|
                        0 <= j < i as int + 1 && deal_by_status_match(
                            #[trigger] self.deals@[j],
                            status@,
                            uid@,
                        ) implies picked@.contains(self.deals@[j]) by {
                        if j < i as int {
                            assert(pre_picked.contains(self.deals@[j]));
                            let k = choose|k: int|
                                0 <= k < pre_picked.len() && pre_picked[k] == self.deals@[j];
                            assert(picked@[k] == self.deals@[j]);
                        } else {
                            assert(picked@[picked@.len() - 1] == self.deals@[j]);
                        }
                    };
                }
            }
            i += 1;
        }
        proof {
            assert(self.deals@.take(n as int) =~= self.deals@);
        }
        let ghost pk = picked@;
        let out = sort_by_created_desc(picked);
        proof {
            broadcast use group_to_multiset_ensures;

            assert(out@.len() == out@.to_multiset().len());
            assert(pk.len() == pk.to_multiset().len());
            assert forall|k: int|
                0 <= k < out@.len() implies deal_by_status_match(
                #[trigger] out@[k],
                status@,
                uid@,
            ) && self.deals@.contains(out@[k]) by {
                assert(out@.contains(out@[k]));
                assert(out@.to_multiset().count(out@[k]) > 0);
                assert(pk.contains(out@[k]));
                let kk = choose|kk: int| 0 <= kk < pk.len() && pk[kk] == out@[k];
                assert(deal_by_status_match(pk[kk], status@, uid@));
                assert(self.deals@.contains(pk[kk]));
            };
            assert forall|j: int|
                0 <= j < self.deals@.len() && deal_by_status_match(
                    #[trigger] self.deals@[j],
                    status@,
                    uid@,
                ) implies out@.contains(self.deals@[j]) by {
                assert(pk.contains(self.deals@[j]));
                assert(pk.to_multiset().count(self.deals@[j]) > 0);
                assert(out@.to_multiset().count(self.deals@[j]) > 0);
            };
        }
        Ok(out)
    }

    /// Case-insensitive substring search over the tenant's deals, most
    /// recent first.
    pub fn db_search_deals(&self, query: String, user_id: Option<String>) -> (r: Result<
        Vec<Deal>,
        StoreError,
    >)
        ensures
            match spec_tenant(user_id) {
                None => r == Err::<Vec<Deal>, StoreError>(StoreError::MissingTenant),
                Some(uid) => match r {
                    Ok(v) => deal_search_listing(self.deals@, v@, uid, query@),
                    Err(_) => false,
                },
            },
    {
        let uid = match require_tenant(user_id) {
            Ok(u) => u,
            Err(e) => { return Err(e); },
        };
        let n = self.deals.len();
        let mut picked: Vec<Deal> = Vec::new();
        let mut i: usize = 0;
        while i < n
            invariant
                n == self.deals@.len(),
                i <= n,
                picked@.len() == count_deal_query(self.deals@.take(i as int), uid@, query@),
                forall|k: int|
                    0 <= k < picked@.len() ==> deal_query_match(#[trigger] picked@[k], uid@, query@)
                        && (exists|j: int| 0 <= j < i && self.deals@[j] == picked@[k]),
                forall|j: int|
                    0 <= j < i && deal_query_match(#[trigger] self.deals@[j], uid@, query@)
                        ==> picked@.contains(self.deals@[j]),
            decreases n - i,
        {
            proof {
                assert(self.deals@.take(i as int + 1).drop_last() =~= self.deals@.take(i as int));
                assert(self.deals@.take(i as int + 1).last() == self.deals@[i as int]);
            }
            if deal_query_match_exec(&self.deals[i], &uid, &query) {
                let ghost pre_picked = picked@;
                picked.push(self.deals[i].clone());
                proof {
                    assert forall|j: int|
                        0 <= j < i as int + 1 && deal_query_match(
                            #[trigger] self.deals@[j],
                            uid@,
                            query@,
                        ) implies picked@.contains(self.deals@[j]) by {
                        if j < i as int {
                            assert(pre_picked.contains(self.deals@[j]));
                            let k = choose|k: int|
                                0 <= k < pre_picked.len() && pre_picked[k] == self.deals@[j];
                            assert(picked@[k] == self.deals@[j]);
                        } else {
                            assert(picked@[picked@.len() - 1] == self.deals@[j]);
                        }
                    };
                }
            }
            i += 1;
        }
        proof {
            assert(self.deals@.take(n as int) =~= self.deals@);
        }
        let ghost pk = picked@;
        let out = sort_by_created_desc(picked);
        proof {
            broadcast use group_to_multiset_ensures;

            assert(out@.len() == out@.to_multiset().len());
            assert(pk.len() == pk.to_multiset().len());
            assert forall|k: int|
                0 <= k < out@.len() implies deal_query_match(#[trigger] out@[k], uid@, query@)
                && self.deals@.contains(out@[k]) by {
                assert(out@.contains(out@[k]));
                assert(out@.to_multiset().count(out@[k]) > 0);
                assert(pk.contains(out@[k]));
                let kk = choose|kk: int| 0 <= kk < pk.len() && pk[kk] == out@[k];
                assert(deal_query_match(pk[kk], uid@, query@));
                assert(self.deals@.contains(pk[kk]));
            };
            assert forall|j: int|
                0 <= j < self.deals@.len() && deal_query_match(
                    #[trigger] self.deals@[j],
                    uid@,
                    query@,
                ) implies out@.contains(self.deals@[j]) by {
                assert(pk.contains(self.deals@[j]));
                assert(pk.to_multiset().count(self.deals@[j]) > 0);
                assert(out@.to_multiset().count(self.deals@[j]) > 0);
            };
        }
        Ok(out)
    }
}

// ---------------------------------------------------------------------------
// Documents (not tenant-scoped; rows are metadata, bytes live elsewhere)
// ---------------------------------------------------------------------------

/// Whether some document row already carries this id.
pub open spec fn document_id_taken(s: Seq<Document>, id: Seq<char>) -> bool {
    exists|i: int| 0 <= i < s.len() && (#[trigger] s[i]).id@ == id
}

/// Whether the document references the deal.
pub open spec fn document_deal_match(d: Document, deal_id: Seq<char>) -> bool {
    d.deal_id@ == deal_id
}

/// How many document rows reference the deal.
pub open spec fn count_documents_by_deal(s: Seq<Document>, deal_id: Seq<char>) -> int
    decreases s.len(),
{
    if s.len() == 0 {
        0
    } else {
        count_documents_by_deal(s.drop_last(), deal_id) + if document_deal_match(
            s.last(),
            deal_id,
        ) {
            1int
        } else {
            0int
        }
    }
}

/// The outcome of creating a document.
pub open spec fn create_document_outcome(
    pre: Store,
    post: Store,
    r: Result<Document, StoreError>,
    document: Document,
) -> bool {
    if document_id_taken(pre.documents@, document.id@) {
        r == Err::<Document, StoreError>(StoreError::DuplicateKey) && same_store(pre, post)
    } else {
        &&& r == Ok::<Document, StoreError>(document)
        &&& post.documents@ == pre.documents@.push(document)
        &&& only_documents_changed(pre, post)
    }
}

/// The outcome of a document lookup by id.
pub open spec fn get_document_outcome(
    pre: Store,
    r: Result<Option<Document>, StoreError>,
    id: Seq<char>,
) -> bool {
    match r {
        Ok(found) => match found {
            Some(d) => pre.documents@.contains(d) && d.id@ == id,
            None => forall|i: int|
                0 <= i < pre.documents@.len() ==> (#[trigger] pre.documents@[i]).id@ != id,
        },
        Err(_) => false,
    }
}

/// The outcome of a document update.
pub open spec fn update_document_outcome(
    pre: Store,
    post: Store,
    r: Result<Document, StoreError>,
    id: Seq<char>,
    p: crate::patch::DocumentPatch,
    now: i64,
) -> bool {
    if document_id_taken(pre.documents@, id) {
        let i = choose|i: int|
            0 <= i < pre.documents@.len() && (#[trigger] pre.documents@[i]).id@ == id;
        let patched = crate::patch::spec_apply_document_patch(pre.documents@[i], p, now);
        &&& r == Ok::<Document, StoreError>(patched)
        &&& post.documents@ == pre.documents@.update(i, patched)
        &&& only_documents_changed(pre, post)
    } else {
        r == Err::<Document, StoreError>(StoreError::NotFoundOrForbidden) && same_store(pre, post)
    }
}

/// The outcome of a document delete: the row disappears if present; the
/// operation succeeds either way. Deleting the bytes the row points at is
/// the caller's responsibility.
pub open spec fn delete_document_outcome(
    pre: Store,
    post: Store,
    r: Result<(), StoreError>,
    id: Seq<char>,
) -> bool {
    &&& r == Ok::<(), StoreError>(())
    &&& if document_id_taken(pre.documents@, id) {
        let i = choose|i: int|
            0 <= i < pre.documents@.len() && (#[trigger] pre.documents@[i]).id@ == id;
        post.documents@ == pre.documents@.remove(i) && only_documents_changed(pre, post)
    } else {
        same_store(pre, post)
    }
}

/// Whether `out` lists exactly the deal's documents, most recent first.
pub open spec fn document_deal_listing(
    table: Seq<Document>,
    out: Seq<Document>,
    deal_id: Seq<char>,
) -> bool {
    &&& sorted_desc(out)
    &&& out.len() == count_documents_by_deal(table, deal_id)
    &&& (forall|k: int|
        0 <= k < out.len() ==> document_deal_match(#[trigger] out[k], deal_id) && table.contains(
            out[k],
        ))
    &&& (forall|i: int|
        0 <= i < table.len() && document_deal_match(#[trigger] table[i], deal_id) ==> out.contains(
            table[i],
        ))
}

impl Store {
    /// Creates a document row. A taken id is rejected whole.
    pub fn db_create_document(&mut self, document: Document) -> (r: Result<Document, StoreError>)
        requires
            old(self).wf(),
        ensures
            final(self).wf(),
            create_document_outcome(*old(self), *final(self), r, document),
    {
        let n = self.documents.len();
        let mut i: usize = 0;
        while i < n
            invariant
                n == self.documents@.len(),
                i <= n,
                forall|j: int| 0 <= j < i ==> (#[trigger] self.documents@[j]).id@ != document.id@,
            decreases n - i,
        {
            if self.documents[i].id == document.id {
                return Err(StoreError::DuplicateKey);
            }
            i += 1;
        }
        let echo = document.clone();
        self.documents.push(document);
        Ok(echo)
    }

    /// Looks a document up by id.
    pub fn db_get_document(&self, id: String) -> (r: Result<Option<Document>, StoreError>)
        ensures
            get_document_outcome(*self, r, id@),
    {
        let n = self.documents.len();
        let mut i: usize = 0;
        while i < n
            invariant
                n == self.documents@.len(),
                i <= n,
                forall|j: int| 0 <= j < i ==> (#[trigger] self.documents@[j]).id@ != id@,
            decreases n - i,
        {
            if self.documents[i].id == id {
                return Ok(Some(self.documents[i].clone()));
            }
            i += 1;
        }
        Ok(None)
    }

    /// Lists the deal's documents, most recent first.
    pub fn db_get_documents_by_deal(&self, deal_id: String) -> (r: Result<Vec<Document>, StoreError>)
        ensures
            match r {
                Ok(v) => document_deal_listing(self.documents@, v@, deal_id@),
                Err(_) => false,
            },
    {
        let n = self.documents.len();
        let mut picked: Vec<Document> = Vec::new();
        let mut i: usize = 0;
        while i < n
            invariant
                n == self.documents@.len(),
                i <= n,
                picked@.len() == count_documents_by_deal(self.documents@.take(i as int), deal_id@),
                forall|k: int|
                    0 <= k < picked@.len() ==> document_deal_match(#[trigger] picked@[k], deal_id@)
                        && (exists|j: int| 0 <= j < i && self.documents@[j] == picked@[k]),
                forall|j: int|
                    0 <= j < i && document_deal_match(#[trigger] self.documents@[j], deal_id@)
                        ==> picked@.contains(self.documents@[j]),
            decreases n - i,
        {
            proof {
                assert(self.documents@.take(i as int + 1).drop_last() =~= self.documents@.take(
                    i as int,
                ));
                assert(self.documents@.take(i as int + 1).last() == self.documents@[i as int]);
            }
            if self.documents[i].deal_id == deal_id {
                let ghost pre_picked = picked@;
                picked.push(self.documents[i].clone());
                proof {
                    assert forall|j: int|
                        0 <= j < i as int + 1 && document_deal_match(
                            #[trigger] self.documents@[j],
                            deal_id@,
                        ) implies picked@.contains(self.documents@[j]) by {
                        if j < i as int {
                            assert(pre_picked.contains(self.documents@[j]));
                            let k = choose|k: int|
                                0 <= k < pre_picked.len() && pre_picked[k] == self.documents@[j];
                            assert(picked@[k] == self.documents@[j]);
                        } else {
                            assert(picked@[picked@.len() - 1] == self.documents@[j]);
                        }
                    };
                }
            }
            i += 1;
        }
        proof {
            assert(self.documents@.take(n as int) =~= self.documents@);
        }
        let ghost pk = picked@;
        let out = sort_by_created_desc(picked);
        proof {
            broadcast use group_to_multiset_ensures;

            assert(out@.len() == out@.to_multiset().len());
            assert(pk.len() == pk.to_multiset().len());
            assert forall|k: int|
                0 <= k < out@.len() implies document_deal_match(#[trigger] out@[k], deal_id@)
                && self.documents@.contains(out@[k]) by {
                assert(out@.contains(out@[k]));
                assert(out@.to_multiset().count(out@[k]) > 0);
                assert(pk.contains(out@[k]));
                let kk = choose|kk: int| 0 <= kk < pk.len() && pk[kk] == out@[k];
                assert(document_deal_match(pk[kk], deal_id@));
                assert(self.documents@.contains(pk[kk]));
            };
            assert forall|j: int|
                0 <= j < self.documents@.len() && document_deal_match(
                    #[trigger] self.documents@[j],
                    deal_id@,
                ) implies out@.contains(self.documents@[j]) by {
                assert(pk.contains(self.documents@[j]));
                assert(pk.to_multiset().count(self.documents@[j]) > 0);
                assert(out@.to_multiset().count(self.documents@[j]) > 0);
            };
        }
        Ok(out)
    }

    /// Updates the fields a patch names on a document, stamping the update
    /// time.
    pub fn db_update_document_at(
        &mut self,
        id: String,
        updates: crate::patch::DocumentPatch,
        now: i64,
    ) -> (r: Result<Document, StoreError>)
        requires
            old(self).wf(),
        ensures
            final(self).wf(),
            update_document_outcome(*old(self), *final(self), r, id@, updates, now),
    {
        let n = self.documents.len();
        let mut i: usize = 0;
        while i < n
            invariant
                *self == *old(self),
                n == self.documents@.len(),
                i <= n,
                forall|j: int| 0 <= j < i ==> (#[trigger] self.documents@[j]).id@ != id@,
            decreases n - i,
        {
            if self.documents[i].id == id {
                let patched = crate::patch::apply_document_patch(&self.documents[i], &updates, now);
                let echo = patched.clone();
                proof {
                    let w = choose|w: int|
                        0 <= w < old(self).documents@.len() && (#[trigger] old(
                            self,
                        ).documents@[w]).id@ == id@;
                    assert(old(self).documents@[i as int].id@ == id@);
                    assert(w == i as int);
                }
                self.documents.set(i, patched);
                return Ok(echo);
            }
            i += 1;
        }
        Err(StoreError::NotFoundOrForbidden)
    }

    /// As [`Store::db_update_document_at`], stamping the wall clock.
    pub fn db_update_document(&mut self, id: String, updates: crate::patch::DocumentPatch) -> (r:
        Result<Document, StoreError>)
        requires
            old(self).wf(),
        ensures
            final(self).wf(),
            exists|t: i64|
                #[trigger] update_document_outcome(*old(self), *final(self), r, id@, updates, t),
    {
        let now = now_millis();
        let r = self.db_update_document_at(id, updates, now);
        r
    }

    /// Deletes the document row with the given id, if present.
    pub fn db_delete_document(&mut self, id: String) -> (r: Result<(), StoreError>)
        requires
            old(self).wf(),
        ensures
            final(self).wf(),
            delete_document_outcome(*old(self), *final(self), r, id@),
    {
        let n = self.documents.len();
        let mut i: usize = 0;
        while i < n
            invariant
                *self == *old(self),
                n == self.documents@.len(),
                i <= n,
                forall|j: int| 0 <= j < i ==> (#[trigger] self.documents@[j]).id@ != id@,
            decreases n - i,
        {
            if self.documents[i].id == id {
                proof {
                    let w = choose|w: int|
                        0 <= w < old(self).documents@.len() && (#[trigger] old(
                            self,
                        ).documents@[w]).id@ == id@;
                    assert(old(self).documents@[i as int].id@ == id@);
                    assert(w == i as int);
                }
                self.documents.remove(i);
                proof {
                    let pre = old(self).documents@;
                    assert forall|a: int, b: int|
                        0 <= a < b < self.documents@.len() implies (
                    #[trigger] self.documents@[a]).id@ != (#[trigger] self.documents@[b]).id@ by {
                        assert(self.documents@[a] == (if a < i as int {
                            pre[a]
                        } else {
                            pre[a + 1]
                        }));
                        assert(self.documents@[b] == (if b < i as int {
                            pre[b]
                        } else {
                            pre[b + 1]
                        }));
                    };
                }
                return Ok(());
            }
            i += 1;
        }
        Ok(())
    }
}

// ---------------------------------------------------------------------------
// Settings (flat key/value store with upsert)
// ---------------------------------------------------------------------------

/// The outcome of a settings lookup: the stored value under the key.
pub open spec fn get_setting_outcome(
    pre: Store,
    r: Result<Option<String>, StoreError>,
    key: Seq<char>,
) -> bool {
    match r {
        Ok(found) => match found {
            Some(v) => exists|i: int|
                0 <= i < pre.settings@.len() && (#[trigger] pre.settings@[i]).key@ == key
                    && pre.settings@[i].value == v,
            None => forall|i: int|
                0 <= i < pre.settings@.len() ==> (#[trigger] pre.settings@[i]).key@ != key,
        },
        Err(_) => false,
    }
}

/// The outcome of a settings upsert: the key now carries the value with
/// the update time, replacing an existing row or appending a new one.
pub open spec fn set_setting_outcome(
    pre: Store,
    post: Store,
    r: Result<(), StoreError>,
    key: String,
    value: String,
    now: i64,
) -> bool {
    let row = Setting { key: key, value: value, updated_at: now };
    &&& r == Ok::<(), StoreError>(())
    &&& only_settings_changed(pre, post)
    &&& if exists|i: int| 0 <= i < pre.settings@.len() && (#[trigger] pre.settings@[i]).key@ == key@ {
        let i = choose|i: int|
            0 <= i < pre.settings@.len() && (#[trigger] pre.settings@[i]).key@ == key@;
        post.settings@ == pre.settings@.update(i, row)
    } else {
        post.settings@ == pre.settings@.push(row)
    }
}

impl Store {
    /// Reads a setting's value by key.
    pub fn db_get_setting(&self, key: String) -> (r: Result<Option<String>, StoreError>)
        ensures
            get_setting_outcome(*self, r, key@),
    {
        let n = self.settings.len();
        let mut i: usize = 0;
        while i < n
            invariant
                n == self.settings@.len(),
                i <= n,
                forall|j: int| 0 <= j < i ==> (#[trigger] self.settings@[j]).key@ != key@,
            decreases n - i,
        {
            if self.settings[i].key == key {
                return Ok(Some(self.settings[i].value.clone()));
            }
            i += 1;
        }
        Ok(None)
    }

    /// Writes a setting: updates the row under the key or appends one,
    /// stamping the update time.
    pub fn db_set_setting_at(&mut self, key: String, value: String, now: i64) -> (r: Result<
        (),
        StoreError,
    >)
        requires
            old(self).wf(),
        ensures
            final(self).wf(),
            set_setting_outcome(*old(self), *final(self), r, key, value, now),
    {
        let n = self.settings.len();
        let mut i: usize = 0;
        while i < n
            invariant
                *self == *old(self),
                n == self.settings@.len(),
                i <= n,
                forall|j: int| 0 <= j < i ==> (#[trigger] self.settings@[j]).key@ != key@,
            decreases n - i,
        {
            if self.settings[i].key == key {
                proof {
                    let w = choose|w: int|
                        0 <= w < old(self).settings@.len() && (#[trigger] old(
                            self,
                        ).settings@[w]).key@ == key@;
                    assert(old(self).settings@[i as int].key@ == key@);
                    assert(w == i as int);
                }
                self.settings.set(i, Setting { key, value, updated_at: now });
                return Ok(());
            }
            i += 1;
        }
        self.settings.push(Setting { key, value, updated_at: now });
        Ok(())
    }

    /// As [`Store::db_set_setting_at`], stamping the wall clock.
    pub fn db_set_setting(&mut self, key: String, value: String) -> (r: Result<(), StoreError>)
        requires
            old(self).wf(),
        ensures
            final(self).wf(),
            exists|t: i64|
                #[trigger] set_setting_outcome(*old(self), *final(self), r, key, value, t),
    {
        let now = now_millis();
        let r = self.db_set_setting_at(key, value, now);
        r
    }

    /// Clears every entity table, in an order that respects references:
    /// documents, then deals, then vehicles, then clients. Settings and
    /// the migration records survive. Destructive, for development and
    /// testing paths only.
    pub fn db_clear_all_data(&mut self) -> (r: Result<(), StoreError>)
        requires
            old(self).wf(),
        ensures
            final(self).wf(),
            r is Ok,
            final(self).documents@ == Seq::<Document>::empty(),
            final(self).deals@ == Seq::<Deal>::empty(),
            final(self).vehicles@ == Seq::<Vehicle>::empty(),
            final(self).clients@ == Seq::<Client>::empty(),
            final(self).settings@ == old(self).settings@,
            final(self).versions@ == old(self).versions@,
            final(self).schema == old(self).schema,
    {
        self.documents.clear();
        self.deals.clear();
        self.vehicles.clear();
        self.clients.clear();
        Ok(())
    }
}

// ---------------------------------------------------------------------------
// Aggregate statistics over the tenant's deals
// ---------------------------------------------------------------------------

/// One row of the status rollup: a status and how many of the tenant's
/// deals carry it.
#[derive(Debug, PartialEq)]
pub struct StatusCount {
    pub status: String,
    pub count: u64,
}

impl Clone for StatusCount {
    fn clone(&self) -> (r: Self)
        ensures
            r == *self,
    {
        StatusCount { status: self.status.clone(), count: self.count }
    }
}

/// The grouped aggregation over the tenant's deals: row count, rollup by
/// status, total amount, and the average amount, which is zero when the
/// tenant has no deals. Amounts are in cents.
#[derive(Debug, PartialEq)]
pub struct DealStats {
    pub total: u64,
    pub by_status: Vec<StatusCount>,
    pub total_amount: i128,
    pub average_amount: i128,
}

/// The sum of the amounts of the tenant's deals.
pub open spec fn sum_visible_amounts(s: Seq<Deal>, uid: Seq<char>) -> int
    decreases s.len(),
{
    if s.len() == 0 {
        0
    } else {
        sum_visible_amounts(s.drop_last(), uid) + if deal_visible(s.last(), uid) {
            s.last().total_amount as int
        } else {
            0int
        }
    }
}

/// The average: the total divided by the count, truncated toward zero,
/// and zero when the count is zero.
pub open spec fn spec_average(sum: int, count: int) -> int {
    if count <= 0 {
        0
    } else if sum >= 0 {
        sum / count
    } else {
        -((-sum) / count)
    }
}

/// A visibility count never exceeds the table's length.
pub proof fn lemma_count_visible_deals_bounds(s: Seq<Deal>, uid: Seq<char>)
    ensures
        0 <= count_visible_deals(s, uid) <= s.len(),
    decreases s.len(),
{
    if s.len() > 0 {
        lemma_count_visible_deals_bounds(s.drop_last(), uid);
    }
}

/// A status count never exceeds the table's length.
pub proof fn lemma_count_deals_by_status_bounds(s: Seq<Deal>, st: Seq<char>, uid: Seq<char>)
    ensures
        0 <= count_deals_by_status(s, st, uid) <= s.len(),
    decreases s.len(),
{
    if s.len() > 0 {
        lemma_count_deals_by_status_bounds(s.drop_last(), st, uid);
    }
}

/// A status nobody carries counts zero.
pub proof fn lemma_count_deals_by_status_zero(s: Seq<Deal>, st: Seq<char>, uid: Seq<char>)
    requires
        forall|j: int| 0 <= j < s.len() ==> !deal_by_status_match(#[trigger] s[j], st, uid),
    ensures
        count_deals_by_status(s, st, uid) == 0,
    decreases s.len(),
{
    if s.len() > 0 {
        assert(forall|j: int|
            0 <= j < s.drop_last().len() ==> !deal_by_status_match(
                #[trigger] s.drop_last()[j],
                st,
                uid,
            ));
        lemma_count_deals_by_status_zero(s.drop_last(), st, uid);
        assert(!deal_by_status_match(s.last(), st, uid));
    }
}

/// The amount sum stays within one amount's range per row.
pub proof fn lemma_sum_visible_bounds(s: Seq<Deal>, uid: Seq<char>)
    ensures
        -((s.len() as int) * 0x8000_0000_0000_0000) <= sum_visible_amounts(s, uid) <= (
        s.len() as int) * 0x8000_0000_0000_0000,
    decreases s.len(),
{
    if s.len() > 0 {
        lemma_sum_visible_bounds(s.drop_last(), uid);
    }
}

/// The outcome of the tenant's deal statistics: exact count, exact sum,
/// average defined as zero for an empty tenant, and a rollup carrying one
/// row per distinct status with its exact count.
pub open spec fn deal_stats_outcome(
    pre: Store,
    r: Result<DealStats, StoreError>,
    user_id: Option<String>,
) -> bool {
    match spec_tenant(user_id) {
        None => r == Err::<DealStats, StoreError>(StoreError::MissingTenant),
        Some(uid) => match r {
            Ok(s) => {
                &&& s.total as int == count_visible_deals(pre.deals@, uid)
                &&& s.total_amount as int == sum_visible_amounts(pre.deals@, uid)
                &&& s.average_amount as int == spec_average(
                    s.total_amount as int,
                    s.total as int,
                )
                &&& (forall|k: int|
                    0 <= k < s.by_status@.len() ==> (#[trigger] s.by_status@[k]).count as int
                        == count_deals_by_status(pre.deals@, s.by_status@[k].status@, uid)
                        && s.by_status@[k].count > 0)
                &&& (forall|k1: int, k2: int|
                    0 <= k1 < k2 < s.by_status@.len() ==> (#[trigger] s.by_status@[k1]).status@
                        != (#[trigger] s.by_status@[k2]).status@)
                &&& (forall|i: int|
                    0 <= i < pre.deals@.len() && deal_visible(#[trigger] pre.deals@[i], uid) ==> (
                    exists|k: int|
                        0 <= k < s.by_status@.len() && (#[trigger] s.by_status@[k]).status@
                            == pre.deals@[i].status@))
            },
            Err(_) => false,
        },
    }
}

/// Finds the rollup row carrying the status, if any.
fn find_status(bs: &Vec<StatusCount>, st: &String) -> (r: Option<usize>)
    ensures
        match r {
            Some(k) => k < bs@.len() && bs@[k as int].status@ == st@,
            None => forall|t: int| 0 <= t < bs@.len() ==> (#[trigger] bs@[t]).status@ != st@,
        },
{
    let n = bs.len();
    let mut i: usize = 0;
    while i < n
        invariant
            n == bs@.len(),
            i <= n,
            forall|t: int| 0 <= t < i ==> (#[trigger] bs@[t]).status@ != st@,
        decreases n - i,
    {
        if bs[i].status == *st {
            return Some(i);
        }
        i += 1;
    }
    None
}

impl Store {
    /// One pass over the tenant's deals: the row count, the rollup of
    /// counts by status, the total amount, and the average amount, which
    /// is zero — not a division error — when the tenant has no deals.
    #[verifier::rlimit(60)]
    #[verifier::spinoff_prover]
    pub fn db_get_deals_stats(&self, user_id: Option<String>) -> (r: Result<DealStats, StoreError>)
        ensures
            deal_stats_outcome(*self, r, user_id),
    {
        let uid = match require_tenant(user_id) {
            Ok(u) => u,
            Err(e) => { return Err(e); },
        };
        let n = self.deals.len();
        let mut total: u64 = 0;
        let mut amount: i128 = 0;
        let mut bs: Vec<StatusCount> = Vec::new();
        let mut i: usize = 0;
        while i < n
            invariant
                n == self.deals@.len(),
                i <= n,
                total as int == count_visible_deals(self.deals@.take(i as int), uid@),
                amount as int == sum_visible_amounts(self.deals@.take(i as int), uid@),
                forall|k: int|
                    0 <= k < bs@.len() ==> (#[trigger] bs@[k]).count as int == count_deals_by_status(
                        self.deals@.take(i as int),
                        bs@[k].status@,
                        uid@,
                    ) && bs@[k].count > 0,
                forall|k1: int, k2: int|
                    0 <= k1 < k2 < bs@.len() ==> (#[trigger] bs@[k1]).status@ != (
                    #[trigger] bs@[k2]).status@,
                forall|j: int|
                    0 <= j < i && deal_visible(#[trigger] self.deals@[j], uid@) ==> (exists|k: int|
                        0 <= k < bs@.len() && (#[trigger] bs@[k]).status@
                            == self.deals@[j].status@),
            decreases n - i,
        {
            proof {
                assert(self.deals@.take(i as int + 1).drop_last() =~= self.deals@.take(i as int));
                assert(self.deals@.take(i as int + 1).last() == self.deals@[i as int]);
                lemma_count_visible_deals_bounds(self.deals@.take(i as int), uid@);
                lemma_sum_visible_bounds(self.deals@.take(i as int), uid@);
            }
            if deal_visible_exec(&self.deals[i], &uid) {
                total = total + 1;
                let amt = self.deals[i].total_amount;
                amount = amount + (amt as i128);
                let st = self.deals[i].status.clone();
                match find_status(&bs, &st) {
                    Some(k) => {
                        proof {
                            lemma_count_deals_by_status_bounds(
                                self.deals@.take(i as int),
                                bs@[k as int].status@,
                                uid@,
                            );
                        }
                        let c = bs[k].count;
                        let stc = bs[k].status.clone();
                        let ghost pre_bs = bs@;
                        bs.set(k, StatusCount { status: stc, count: c + 1 });
                        proof {
                            assert forall|t: int|
                                0 <= t < bs@.len() implies (#[trigger] bs@[t]).count as int
                                == count_deals_by_status(
                                self.deals@.take(i as int + 1),
                                bs@[t].status@,
                                uid@,
                            ) && bs@[t].count > 0 by {
                                if t != k as int {
                                    assert(bs@[t] == pre_bs[t]);
                                    assert(pre_bs[t].status@ != pre_bs[k as int].status@);
                                }
                            };
                            assert forall|j: int|
                                0 <= j < i as int + 1 && deal_visible(
                                    #[trigger] self.deals@[j],
                                    uid@,
                                ) implies (exists|kk: int|
                                0 <= kk < bs@.len() && (#[trigger] bs@[kk]).status@
                                    == self.deals@[j].status@) by {
                                if j < i as int {
                                    let k0 = choose|k0: int|
                                        0 <= k0 < pre_bs.len() && (#[trigger] pre_bs[k0]).status@
                                            == self.deals@[j].status@;
                                    assert(bs@[k0].status@ == pre_bs[k0].status@);
                                } else {
                                    assert(bs@[k as int].status@ == self.deals@[j].status@);
                                }
                            };
                        }
                    },
                    None => {
                        proof {
                            assert forall|j: int|
                                0 <= j < self.deals@.take(i as int).len() implies
                                !deal_by_status_match(
                                #[trigger] self.deals@.take(i as int)[j],
                                st@,
                                uid@,
                            ) by {
                                if deal_visible(self.deals@[j], uid@) && self.deals@[j].status@
                                    == st@ {
                                    assert(false);
                                }
                            };
                            lemma_count_deals_by_status_zero(
                                self.deals@.take(i as int),
                                st@,
                                uid@,
                            );
                        }
                        let ghost pre_bs = bs@;
                        bs.push(StatusCount { status: st, count: 1 });
                        proof {
                            assert forall|t: int|
                                0 <= t < bs@.len() implies (#[trigger] bs@[t]).count as int
                                == count_deals_by_status(
                                self.deals@.take(i as int + 1),
                                bs@[t].status@,
                                uid@,
                            ) && bs@[t].count > 0 by {
                                if t < pre_bs.len() {
                                    assert(bs@[t] == pre_bs[t]);
                                    assert(pre_bs[t].status@ != self.deals@[i as int].status@);
                                }
                            };
                            assert forall|j: int|
                                0 <= j < i as int + 1 && deal_visible(
                                    #[trigger] self.deals@[j],
                                    uid@,
                                ) implies (exists|kk: int|
                                0 <= kk < bs@.len() && (#[trigger] bs@[kk]).status@
                                    == self.deals@[j].status@) by {
                                if j < i as int {
                                    let k0 = choose|k0: int|
                                        0 <= k0 < pre_bs.len() && (#[trigger] pre_bs[k0]).status@
                                            == self.deals@[j].status@;
                                    assert(bs@[k0].status@ == pre_bs[k0].status@);
                                } else {
                                    assert(bs@[bs@.len() - 1].status@ == self.deals@[j].status@);
                                }
                            };
                        }
                    },
                }
            }
            i += 1;
        }
        proof {
            assert(self.deals@.take(n as int) =~= self.deals@);
            lemma_sum_visible_bounds(self.deals@, uid@);
            lemma_count_visible_deals_bounds(self.deals@, uid@);
        }
        let average: i128 = if total == 0 {
            0
        } else if amount >= 0 {
            ((amount as u128) / (total as u128)) as i128
        } else {
            -((((-amount) as u128) / (total as u128)) as i128)
        };
        let ghost bsv = bs@;
        let stats = DealStats { total, by_status: bs, total_amount: amount, average_amount: average };
        proof {
            assert(stats.by_status@ == bsv);
            assert(stats.total as int == count_visible_deals(self.deals@, uid@));
            assert(stats.total_amount as int == sum_visible_amounts(self.deals@, uid@));
            assert(stats.average_amount as int == spec_average(
                stats.total_amount as int,
                stats.total as int,
            ));
            assert forall|k: int|
                0 <= k < stats.by_status@.len() implies (#[trigger] stats.by_status@[k]).count as int
                == count_deals_by_status(self.deals@, stats.by_status@[k].status@, uid@)
                && stats.by_status@[k].count > 0 by {
                assert(bsv[k].count as int == count_deals_by_status(
                    self.deals@,
                    bsv[k].status@,
                    uid@,
                ));
            };
            assert forall|j: int|
                0 <= j < self.deals@.len() && deal_visible(
                    #[trigger] self.deals@[j],
                    uid@,
                ) implies (exists|k: int|
                0 <= k < stats.by_status@.len() && (#[trigger] stats.by_status@[k]).status@
                    == self.deals@[j].status@) by {
                let k0 = choose|k0: int|
                    0 <= k0 < bsv.len() && (#[trigger] bsv[k0]).status@ == self.deals@[j].status@;
                assert(stats.by_status@[k0].status@ == self.deals@[j].status@);
            };
            assert(spec_tenant(user_id) == Some(uid@));
            assert(deal_stats_outcome(*self, Ok::<DealStats, StoreError>(stats), user_id));
        }
        Ok(stats)
    }
}

} // verus!
