//! The forward-only schema migration engine.
//!
//! The store's schema is modelled by the column count each table's rows are
//! written with. A fixed, build-time registry of migrations carries the
//! schema from any prior version to the current one; version numbers, not
//! registry order, govern application order, and each migration body is
//! guarded so that re-running it (after a crash between body and version
//! record) is harmless.

use crate::entities::VersionRecord;
use crate::errors::StoreError;
use vstd::prelude::*;

verus! {

/// The newest migration version; a fully migrated store records it.
pub const CURRENT_VERSION: i64 = 5;

/// The shape rows are written with, per table.
#[derive(Debug, Clone, Copy, PartialEq, Eq, Structural)]
pub struct Schema {
    /// Whether the base tables exist at all.
    pub tables_created: bool,
    pub client_cols: u64,
    pub vehicle_cols: u64,
    pub deal_cols: u64,
    pub document_cols: u64,
    pub setting_cols: u64,
}

impl Schema {
    /// The schema of a store no migration has touched.
    pub open spec fn spec_initial() -> Schema {
        Schema {
            tables_created: false,
            client_cols: 0,
            vehicle_cols: 0,
            deal_cols: 0,
            document_cols: 0,
            setting_cols: 0,
        }
    }

    /// The schema after every migration in the registry has run.
    pub open spec fn spec_current() -> Schema {
        Schema {
            tables_created: true,
            client_cols: 14,
            vehicle_cols: 23,
            deal_cols: 19,
            document_cols: 10,
            setting_cols: 3,
        }
    }

    /// Builds the untouched schema.
    pub fn initial() -> (r: Schema)
        ensures
            r == Schema::spec_initial(),
    {
        Schema {
            tables_created: false,
            client_cols: 0,
            vehicle_cols: 0,
            deal_cols: 0,
            document_cols: 0,
            setting_cols: 0,
        }
    }
}

/// The body of one migration, as its effect on the schema. Every body is
/// guarded by the table state it expects, so running it twice is a no-op.
#[derive(Debug, Clone, Copy, PartialEq, Eq, Structural)]
pub enum MigrationStep {
    /// Creates the base tables.
    CreateBaseTables,
    /// Appends a sync timestamp column to every entity table.
    AddSyncColumns,
    /// Appends file size and checksum columns to documents.
    AddDocumentFileFields,
    /// Appends the serialized image list column to vehicles.
    AddVehicleImages,
    /// Appends the tenant column to clients and deals.
    AddTenantColumns,
}

/// One registered migration: a strictly positive version and its body.
#[derive(Debug, Clone, Copy, PartialEq, Eq, Structural)]
pub struct Migration {
    pub version: i64,
    pub step: MigrationStep,
}

/// The schema a migration body leaves behind.
pub open spec fn spec_apply_step(s: Schema, step: MigrationStep) -> Schema {
    match step {
        MigrationStep::CreateBaseTables => {
            if !s.tables_created {
                Schema {
                    tables_created: true,
                    client_cols: 12,
                    vehicle_cols: 21,
                    deal_cols: 17,
                    document_cols: 7,
                    setting_cols: 3,
                }
            } else {
                s
            }
        },
        MigrationStep::AddSyncColumns => {
            Schema {
                client_cols: if s.client_cols == 12 { 13 } else { s.client_cols },
                vehicle_cols: if s.vehicle_cols == 21 { 22 } else { s.vehicle_cols },
                deal_cols: if s.deal_cols == 17 { 18 } else { s.deal_cols },
                document_cols: if s.document_cols == 7 { 8 } else { s.document_cols },
                ..s
            }
        },
        MigrationStep::AddDocumentFileFields => {
            Schema { document_cols: if s.document_cols == 8 { 10 } else { s.document_cols }, ..s }
        },
        MigrationStep::AddVehicleImages => {
            Schema { vehicle_cols: if s.vehicle_cols == 22 { 23 } else { s.vehicle_cols }, ..s }
        },
        MigrationStep::AddTenantColumns => {
            Schema {
                client_cols: if s.client_cols == 13 { 14 } else { s.client_cols },
                deal_cols: if s.deal_cols == 18 { 19 } else { s.deal_cols },
                ..s
            }
        },
    }
}

/// Runs one migration body against the schema.
pub fn apply_step(s: &mut Schema, step: MigrationStep)
    ensures
        *final(s) == spec_apply_step(*old(s), step),
{
    match step {
        MigrationStep::CreateBaseTables => {
            if !s.tables_created {
                *s = Schema {
                    tables_created: true,
                    client_cols: 12,
                    vehicle_cols: 21,
                    deal_cols: 17,
                    document_cols: 7,
                    setting_cols: 3,
                };
            }
        },
        MigrationStep::AddSyncColumns => {
            if s.client_cols == 12 {
                s.client_cols = 13;
            }
            if s.vehicle_cols == 21 {
                s.vehicle_cols = 22;
            }
            if s.deal_cols == 17 {
                s.deal_cols = 18;
            }
            if s.document_cols == 7 {
                s.document_cols = 8;
            }
        },
        MigrationStep::AddDocumentFileFields => {
            if s.document_cols == 8 {
                s.document_cols = 10;
            }
        },
        MigrationStep::AddVehicleImages => {
            if s.vehicle_cols == 22 {
                s.vehicle_cols = 23;
            }
        },
        MigrationStep::AddTenantColumns => {
            if s.client_cols == 13 {
                s.client_cols = 14;
            }
            if s.deal_cols == 18 {
                s.deal_cols = 19;
            }
        },
    }
}

/// The fixed migration registry, in ascending version order.
pub open spec fn spec_migration_list() -> Seq<Migration> {
    seq![
        Migration { version: 1, step: MigrationStep::CreateBaseTables },
        Migration { version: 2, step: MigrationStep::AddSyncColumns },
        Migration { version: 3, step: MigrationStep::AddDocumentFileFields },
        Migration { version: 4, step: MigrationStep::AddVehicleImages },
        Migration { version: 5, step: MigrationStep::AddTenantColumns },
    ]
}

/// Builds the migration registry.
pub fn migration_list() -> (r: Vec<Migration>)
    ensures
        r@ == spec_migration_list(),
{
    let mut r: Vec<Migration> = Vec::new();
    r.push(Migration { version: 1, step: MigrationStep::CreateBaseTables });
    r.push(Migration { version: 2, step: MigrationStep::AddSyncColumns });
    r.push(Migration { version: 3, step: MigrationStep::AddDocumentFileFields });
    r.push(Migration { version: 4, step: MigrationStep::AddVehicleImages });
    r.push(Migration { version: 5, step: MigrationStep::AddTenantColumns });
    proof {
        assert(r@ =~= spec_migration_list());
    }
    r
}

/// Whether a registry's versions are strictly ascending.
pub open spec fn strictly_ascending(l: Seq<Migration>) -> bool {
    forall|i: int, j: int| 0 <= i < j < l.len() ==> l[i].version < l[j].version
}

/// The registry is in strictly ascending version order, so walking it in
/// order applies migrations in ascending declared-version order.
pub proof fn lemma_migration_list_ascending()
    ensures
        strictly_ascending(spec_migration_list()),
        forall|i: int|
            0 <= i < spec_migration_list().len() ==> #[trigger] spec_migration_list()[i].version
                <= CURRENT_VERSION,
{
}

/// The highest recorded version, or zero for a store with no records.
pub open spec fn spec_max_version(vs: Seq<VersionRecord>) -> int
    decreases vs.len(),
{
    if vs.len() == 0 {
        0
    } else {
        let m = spec_max_version(vs.drop_last());
        if vs.last().version > m {
            vs.last().version as int
        } else {
            m
        }
    }
}

/// Reads the highest recorded version out of the version table.
pub fn max_version(vs: &Vec<VersionRecord>) -> (r: i64)
    ensures
        r as int == spec_max_version(vs@),
{
    let mut r: i64 = 0;
    let mut i: usize = 0;
    while i < vs.len()
        invariant
            0 <= i <= vs.len(),
            r as int == spec_max_version(vs@.take(i as int)),
        decreases vs.len() - i,
    {
        proof {
            assert(vs@.take(i + 1 as int).drop_last() =~= vs@.take(i as int));
            assert(vs@.take(i + 1 as int).last() == vs@[i as int]);
        }
        if vs[i].version > r {
            r = vs[i].version;
        }
        i += 1;
    }
    proof {
        assert(vs@.take(vs@.len() as int) =~= vs@);
    }
    r
}

/// The recorded version is at least every record's version, and is one of
/// the records' versions whenever any record exists.
pub proof fn lemma_max_version_ge(vs: Seq<VersionRecord>, i: int)
    requires
        0 <= i < vs.len(),
    ensures
        spec_max_version(vs) >= vs[i].version,
    decreases vs.len(),
{
    if i == vs.len() - 1 {
    } else {
        lemma_max_version_ge(vs.drop_last(), i);
        assert(vs.drop_last()[i] == vs[i]);
    }
}

/// The sub-registry of migrations still to run: those newer than `current`,
/// in registry order.
pub open spec fn spec_pending(list: Seq<Migration>, current: int) -> Seq<Migration>
    decreases list.len(),
{
    if list.len() == 0 {
        Seq::empty()
    } else if list.last().version > current {
        spec_pending(list.drop_last(), current).push(list.last())
    } else {
        spec_pending(list.drop_last(), current)
    }
}

/// Nothing is pending once the current version has reached the registry's
/// newest version.
pub proof fn lemma_pending_empty(list: Seq<Migration>, current: int)
    requires
        forall|i: int| 0 <= i < list.len() ==> #[trigger] list[i].version <= current,
    ensures
        spec_pending(list, current) == Seq::<Migration>::empty(),
    decreases list.len(),
{
    if list.len() > 0 {
        assert(list.last().version <= current);
        lemma_pending_empty(list.drop_last(), current);
    }
}

/// Every registered migration newer than `current` is pending.
pub proof fn lemma_pending_contains(list: Seq<Migration>, current: int, i: int)
    requires
        0 <= i < list.len(),
        list[i].version > current,
    ensures
        spec_pending(list, current).contains(list[i]),
    decreases list.len(),
{
    if i == list.len() - 1 {
        assert(spec_pending(list, current).last() == list[i]);
    } else {
        lemma_pending_contains(list.drop_last(), current, i);
        assert(list.drop_last()[i] == list[i]);
        let p = spec_pending(list.drop_last(), current);
        let j = choose|j: int| 0 <= j < p.len() && p[j] == list[i];
        if list.last().version > current {
            assert(spec_pending(list, current)[j] == list[i]);
        }
    }
}

/// The schema left after running a sequence of migration bodies in order.
pub open spec fn spec_fold_steps(s: Schema, list: Seq<Migration>) -> Schema
    decreases list.len(),
{
    if list.len() == 0 {
        s
    } else {
        spec_apply_step(spec_fold_steps(s, list.drop_last()), list.last().step)
    }
}

/// The version records a run appends for a given pending sub-registry.
pub open spec fn spec_added_records(list: Seq<Migration>, now: i64) -> Seq<VersionRecord> {
    list.map_values(|m: Migration| VersionRecord { version: m.version, applied_at: now })
}

/// The outcome of one engine run: the folded schema and the extended
/// version table.
pub open spec fn spec_migrate(
    schema: Schema,
    versions: Seq<VersionRecord>,
    now: i64,
) -> (Schema, Seq<VersionRecord>) {
    let pending = spec_pending(spec_migration_list(), spec_max_version(versions));
    (spec_fold_steps(schema, pending), versions + spec_added_records(pending, now))
}

/// Brings a store of any prior version to the current version: reads the
/// highest recorded version, runs every newer registered migration in
/// ascending version order, and records each completion.
///
/// In this in-memory model no body can fail, so the result is always `Ok`;
/// a runner that executes bodies against a real file maps a body failure to
/// `MigrationFailed` and stops.
pub fn run_migrations(schema: &mut Schema, versions: &mut Vec<VersionRecord>, now: i64) -> (r:
    Result<(), StoreError>)
    ensures
        r is Ok,
        (*final(schema), final(versions)@) == spec_migrate(*old(schema), old(versions)@, now),
{
    let ghost old_schema = *schema;
    let ghost old_versions = versions@;
    let current = max_version(versions);
    let list = migration_list();
    let mut i: usize = 0;
    while i < list.len()
        invariant
            0 <= i <= list.len(),
            list@ == spec_migration_list(),
            current as int == spec_max_version(old_versions),
            *schema == spec_fold_steps(old_schema, spec_pending(list@.take(i as int), current as int)),
            versions@ == old_versions + spec_added_records(
                spec_pending(list@.take(i as int), current as int),
                now,
            ),
        decreases list.len() - i,
    {
        proof {
            assert(list@.take(i + 1 as int).drop_last() =~= list@.take(i as int));
            assert(list@.take(i + 1 as int).last() == list@[i as int]);
        }
        let m = list[i];
        if m.version > current {
            apply_step(schema, m.step);
            versions.push(VersionRecord { version: m.version, applied_at: now });
            proof {
                let p0 = spec_pending(list@.take(i as int), current as int);
                let p1 = spec_pending(list@.take(i + 1 as int), current as int);
                assert(p1 == p0.push(m));
                assert(p1.drop_last() =~= p0);
                assert(p1.last() == m);
                assert(spec_fold_steps(old_schema, p1) == spec_apply_step(
                    spec_fold_steps(old_schema, p0),
                    m.step,
                ));
                assert(spec_added_records(p1, now) =~= spec_added_records(p0, now).push(
                    VersionRecord { version: m.version, applied_at: now },
                ));
                assert(versions@ =~= old_versions + spec_added_records(p1, now));
            }
        } else {
            proof {
                assert(spec_pending(list@.take(i + 1 as int), current as int) == spec_pending(
                    list@.take(i as int),
                    current as int,
                ));
            }
        }
        i += 1;
    }
    proof {
        assert(list@.take(list@.len() as int) =~= list@);
    }
    Ok(())
}

/// Idempotence of the engine: a second run from the state one run leaves
/// behind changes neither the schema nor the version records, whatever the
/// starting state and whatever timestamps the two runs see. In particular
/// two startups in a row yield the same final schema version and no
/// duplicate version records.
pub proof fn lemma_migrate_idempotent(
    schema: Schema,
    versions: Seq<VersionRecord>,
    t1: i64,
    t2: i64,
)
    ensures
        ({
            let (s1, v1) = spec_migrate(schema, versions, t1);
            spec_migrate(s1, v1, t2) == (s1, v1)
        }),
{
    let current = spec_max_version(versions);
    let pending = spec_pending(spec_migration_list(), current);
    let (s1, v1) = spec_migrate(schema, versions, t1);
    lemma_migration_list_ascending();
    if current >= CURRENT_VERSION {
        lemma_pending_empty(spec_migration_list(), current);
        assert(v1 =~= versions);
        let c1 = spec_max_version(v1);
        assert(c1 == current);
        lemma_pending_empty(spec_migration_list(), c1);
        assert(v1 + spec_added_records(Seq::empty(), t2) =~= v1);
    } else {
        // the newest migration is pending, so after the run the recorded
        // version is the newest one and nothing further is pending
        lemma_pending_contains(spec_migration_list(), current, spec_migration_list().len() - 1);
        let p = pending;
        let j = choose|j: int| 0 <= j < p.len() && p[j] == spec_migration_list().last();
        assert(v1[versions.len() + j].version == CURRENT_VERSION);
        lemma_max_version_ge(v1, versions.len() + j);
        let c1 = spec_max_version(v1);
        assert(c1 >= CURRENT_VERSION);
        lemma_pending_empty(spec_migration_list(), c1);
        assert(v1 + spec_added_records(Seq::<Migration>::empty(), t2) =~= v1);
    }
}

/// Migrating an untouched, empty store runs the whole registry: the schema
/// lands on the current shape and exactly one record per migration is
/// written, in ascending version order.
pub proof fn lemma_migrate_from_empty(t: i64)
    ensures
        ({
            let (s, v) = spec_migrate(Schema::spec_initial(), Seq::empty(), t);
            &&& s == Schema::spec_current()
            &&& v =~= seq![
                VersionRecord { version: 1, applied_at: t },
                VersionRecord { version: 2, applied_at: t },
                VersionRecord { version: 3, applied_at: t },
                VersionRecord { version: 4, applied_at: t },
                VersionRecord { version: 5, applied_at: t },
            ]
        }),
{
    let list = spec_migration_list();
    let l4 = list.drop_last();
    let l3 = l4.drop_last();
    let l2 = l3.drop_last();
    let l1 = l2.drop_last();
    let l0 = l1.drop_last();
    assert(l0 =~= Seq::<Migration>::empty());
    assert(spec_max_version(Seq::empty()) == 0);
    assert(spec_pending(l0, 0) =~= Seq::<Migration>::empty());
    assert(spec_pending(l1, 0) =~= l1);
    assert(spec_pending(l2, 0) =~= l2);
    assert(spec_pending(l3, 0) =~= l3);
    assert(spec_pending(l4, 0) =~= l4);
    assert(spec_pending(list, 0) =~= list);
    let s0 = Schema::spec_initial();
    assert(spec_fold_steps(s0, l0) == s0);
    let s1 = spec_fold_steps(s0, l1);
    let s2 = spec_fold_steps(s0, l2);
    let s3 = spec_fold_steps(s0, l3);
    let s4 = spec_fold_steps(s0, l4);
    assert(s1 == spec_apply_step(s0, l1.last().step));
    assert(s2 == spec_apply_step(s1, l2.last().step));
    assert(s3 == spec_apply_step(s2, l3.last().step));
    assert(s4 == spec_apply_step(s3, l4.last().step));
    assert(spec_fold_steps(s0, list) == spec_apply_step(s4, list.last().step));
    assert(spec_fold_steps(s0, list) == Schema::spec_current());
    assert(spec_added_records(list, t) =~= seq![
        VersionRecord { version: 1, applied_at: t },
        VersionRecord { version: 2, applied_at: t },
        VersionRecord { version: 3, applied_at: t },
        VersionRecord { version: 4, applied_at: t },
        VersionRecord { version: 5, applied_at: t },
    ]);
}

} // verus!
