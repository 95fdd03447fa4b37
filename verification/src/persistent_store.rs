//! The embedded key-value engine behind the persistent tiers: three logical
//! keyspaces over one on-disk database, with best-effort durability.
//!
//! Every call lands on disk state, so nothing exact can be promised about
//! what comes back; reads that fail surface as misses and failed mutations
//! are dropped, as the tiers are caches.

use vstd::prelude::*;
use crate::storage::Storage;
use crate::types::ImageId;

verus! {

/// The logical keyspaces of the engine.
#[derive(Debug, PartialEq, Eq, Structural, Clone, Copy)]
pub enum PersistSpace {
    Storage,
    Cache,
    CacheEntries,
}

#[verifier::external_type_specification]
#[verifier::external_body]
pub struct ExDatabase(fjall::Database);

#[verifier::external_type_specification]
#[verifier::external_body]
pub struct ExKeyspace(fjall::Keyspace);

/// Relies on `fjall::Database::builder(path).cache_size(..).open()`: opens
/// or creates the database directory, sizing its block cache.
#[verifier::external_body]
fn open_database(db_path: &str, cache_size: u64) -> (r: Option<fjall::Database>)
{
    fjall::Database::builder(db_path).cache_size(cache_size).open().ok()
}

/// Relies on `fjall::Database::keyspace` with the fixed, valid name
/// `storage`: opens or creates the keyspace of the originals.
#[verifier::external_body]
fn open_storage_keyspace(db: &fjall::Database) -> (r: Option<fjall::Keyspace>)
{
    db.keyspace("storage", fjall::KeyspaceCreateOptions::default).ok()
}

/// Relies on `fjall::Database::keyspace` with the fixed, valid name `cache`:
/// opens or creates the keyspace of the derivative payloads.
#[verifier::external_body]
fn open_cache_keyspace(db: &fjall::Database) -> (r: Option<fjall::Keyspace>)
{
    db.keyspace("cache", fjall::KeyspaceCreateOptions::default).ok()
}

/// Relies on `fjall::Database::keyspace` with the fixed, valid name
/// `cache_entries`: opens or creates the keyspace of the variant indexes.
#[verifier::external_body]
fn open_cache_entries_keyspace(db: &fjall::Database) -> (r: Option<fjall::Keyspace>)
{
    db.keyspace("cache_entries", fjall::KeyspaceCreateOptions::default).ok()
}

/// Relies on `fjall::Keyspace::get`: a point read from disk state; an engine
/// error reads as a miss.
#[verifier::external_body]
fn ks_get(ks: &fjall::Keyspace, key: &Vec<u8>) -> (r: Option<Vec<u8>>)
{
    match ks.get(key.as_slice()) {
        Ok(Some(v)) => Some(v.to_vec()),
        _ => None,
    }
}

/// Relies on `fjall::Keyspace::contains_key`: a point membership test that
/// does not materialize the value; an engine error reads as absence.
#[verifier::external_body]
fn ks_contains(ks: &fjall::Keyspace, key: &Vec<u8>) -> (r: bool)
{
    ks.contains_key(key.as_slice()).unwrap_or(false)
}

/// Relies on `fjall::Keyspace::insert`: last-writer-wins point write; says
/// whether the engine accepted it.
#[verifier::external_body]
fn ks_insert(ks: &fjall::Keyspace, key: &Vec<u8>, value: &Vec<u8>) -> (r: bool)
{
    ks.insert(key.as_slice(), value.as_slice()).is_ok()
}

/// Relies on `fjall::Keyspace::remove`: point delete; says whether the
/// engine accepted it.
#[verifier::external_body]
fn ks_remove(ks: &fjall::Keyspace, key: &Vec<u8>) -> (r: bool)
{
    ks.remove(key.as_slice()).is_ok()
}

/// Relies on `fjall::Keyspace::prefix` and `fjall::Keyspace::remove`: scans
/// every key under the prefix and deletes each hit, best effort.
#[verifier::external_body]
fn ks_remove_prefix(ks: &fjall::Keyspace, prefix: &Vec<u8>)
{
    for kv in ks.prefix(prefix.as_slice()) {
        if let Ok(k) = kv.key() {
            let _ = ks.remove(k);
        }
    }
}

/// Relies on `fjall::Database::persist` with `PersistMode::SyncAll`: durably
/// flushes everything written so far; says whether the flush succeeded.
#[verifier::external_body]
fn db_persist_sync_all(db: &fjall::Database) -> (r: bool)
{
    db.persist(fjall::PersistMode::SyncAll).is_ok()
}

/// Relies on the derived `Clone` of `fjall::Database`: another handle on
/// the same engine.
pub assume_specification[ <fjall::Database as Clone>::clone ](db: &fjall::Database)
    -> fjall::Database;

/// Relies on the derived `Clone` of `fjall::Keyspace`: another handle on the
/// same keyspace.
pub assume_specification[ <fjall::Keyspace as Clone>::clone ](ks: &fjall::Keyspace)
    -> fjall::Keyspace;

/// The engine block-cache size the configuration asks for: the per-image
/// byte budgets times the configured capacities, saturating at the largest
/// representable size.
pub fn engine_cache_size(storage_capacity: usize, cache_capacity: usize) -> (r: u64)
    ensures
        r as int == (if 2097152 * storage_capacity + 65536 * cache_capacity
            > u64::MAX as int {
            u64::MAX as int
        } else {
            2097152 * storage_capacity + 65536 * cache_capacity
        }),
{
    proof {
        assert((storage_capacity as u128) * (SOURCE_IMAGE_SIZE as u128)
            <= 0xFFFF_FFFF_FFFF_FFFFu128 * 0x20_0000u128) by (nonlinear_arith)
            requires
                storage_capacity as u128 <= 0xFFFF_FFFF_FFFF_FFFFu128,
        ;
        assert((cache_capacity as u128) * (RESIZED_IMAGE_SIZE as u128)
            <= 0xFFFF_FFFF_FFFF_FFFFu128 * 0x1_0000u128) by (nonlinear_arith)
            requires
                cache_capacity as u128 <= 0xFFFF_FFFF_FFFF_FFFFu128,
        ;
        assert((storage_capacity as u128) * (SOURCE_IMAGE_SIZE as u128)
            == 2097152 * storage_capacity) by (nonlinear_arith);
        assert((cache_capacity as u128) * (RESIZED_IMAGE_SIZE as u128)
            == 65536 * cache_capacity) by (nonlinear_arith);
    }
    let storage_size: u128 = (storage_capacity as u128) * (SOURCE_IMAGE_SIZE as u128);
    let resized_size: u128 = (cache_capacity as u128) * (RESIZED_IMAGE_SIZE as u128);
    let total: u128 = storage_size + resized_size;
    if total > 0xFFFF_FFFF_FFFF_FFFF {
        u64::MAX
    } else {
        total as u64
    }
}

/// Handle on the engine and its three keyspaces.
pub struct PersistentStore {
    pub db: fjall::Database,
    pub store_keyspace: fjall::Keyspace,
    pub cache_keyspace: fjall::Keyspace,
    pub cache_entries_keyspace: fjall::Keyspace,
}

/// Bytes budgeted per cached original image.
pub const SOURCE_IMAGE_SIZE: u64 = 2097152;

/// Bytes budgeted per cached derivative image.
pub const RESIZED_IMAGE_SIZE: u64 = 65536;

impl PersistentStore {
    /// Opens the engine under `db_path` with a block cache sized for the
    /// configured number of originals and derivatives, saturating rather
    /// than overflowing on absurd capacities.
    pub fn new(db_path: &str, storage_capacity: usize, cache_capacity: usize)
        -> (r: Option<PersistentStore>)
    {
        let db_cache_size: u64 = engine_cache_size(storage_capacity, cache_capacity);
        let db = match open_database(db_path, db_cache_size) {
            Option::Some(db) => db,
            Option::None => {
                return Option::None;
            },
        };
        let store_keyspace = match open_storage_keyspace(&db) {
            Option::Some(k) => k,
            Option::None => {
                return Option::None;
            },
        };
        let cache_keyspace = match open_cache_keyspace(&db) {
            Option::Some(k) => k,
            Option::None => {
                return Option::None;
            },
        };
        let cache_entries_keyspace = match open_cache_entries_keyspace(&db) {
            Option::Some(k) => k,
            Option::None => {
                return Option::None;
            },
        };
        Option::Some(PersistentStore {
            db,
            store_keyspace,
            cache_keyspace,
            cache_entries_keyspace,
        })
    }

    fn keyspace(&self, space: PersistSpace) -> (r: &fjall::Keyspace) {
        match space {
            PersistSpace::Storage => &self.store_keyspace,
            PersistSpace::Cache => &self.cache_keyspace,
            PersistSpace::CacheEntries => &self.cache_entries_keyspace,
        }
    }

    /// Point read; engine errors surface as misses.
    pub fn get(&self, space: PersistSpace, key: &Vec<u8>) -> (r: Option<Vec<u8>>) {
        ks_get(self.keyspace(space), key)
    }

    /// Membership test without materializing the value.
    pub fn has_key(&self, space: PersistSpace, key: &Vec<u8>) -> (r: bool) {
        ks_contains(self.keyspace(space), key)
    }

    /// Last-writer-wins point write, best effort; says whether the engine
    /// accepted it.
    pub fn set(&self, space: PersistSpace, key: &Vec<u8>, value: &Vec<u8>) -> (r: bool) {
        ks_insert(self.keyspace(space), key, value)
    }

    /// Point delete, best effort.
    pub fn remove(&self, space: PersistSpace, key: &Vec<u8>) {
        let _ = ks_remove(self.keyspace(space), key);
    }

    /// Deletes every key under the prefix, best effort.
    pub fn remove_by_prefix(&self, space: PersistSpace, prefix: &Vec<u8>) {
        ks_remove_prefix(self.keyspace(space), prefix);
    }

    /// Durably flushes everything written up to the call.
    pub fn persist(&self) -> (r: bool) {
        db_persist_sync_all(&self.db)
    }

    /// Another set of handles on the same engine and keyspaces, so that two
    /// tiers can share one database directory.
    pub fn share(&self) -> (r: PersistentStore) {
        PersistentStore {
            db: self.db.clone(),
            store_keyspace: self.store_keyspace.clone(),
            cache_keyspace: self.cache_keyspace.clone(),
            cache_entries_keyspace: self.cache_entries_keyspace.clone(),
        }
    }
}

/// Storage of originals over the engine's `storage` keyspace. The on-disk
/// set answers the reads, so this tier is not modeled exactly.
pub struct PersistentStorage {
    pub store: PersistentStore,
}

impl PersistentStorage {
    /// Opens a persistent original store under `db_path`. The capacity only
    /// sizes the engine cache; the on-disk set is unbounded by it.
    pub fn new(db_path: &str, capacity: usize) -> (r: Option<PersistentStorage>) {
        match PersistentStore::new(db_path, capacity, 0) {
            Option::Some(store) => Option::Some(PersistentStorage { store }),
            Option::None => Option::None,
        }
    }

    /// Durably flushes pending writes; the periodic background duty of this
    /// tier.
    pub fn background(&self) -> (r: bool) {
        self.store.persist()
    }
}

impl Storage for PersistentStorage {
    open spec fn inv(&self) -> bool {
        true
    }

    open spec fn modeled(&self) -> bool {
        false
    }

    open spec fn stored(&self, id: Seq<char>) -> bool {
        false
    }

    open spec fn stored_at(&self, id: Seq<char>) -> Seq<u8> {
        Seq::empty()
    }

    fn get(&self, image_id: &ImageId) -> (r: Option<Vec<u8>>) {
        let key = image_id.as_str().as_bytes_vec();
        self.store.get(PersistSpace::Storage, &key)
    }

    fn set(&mut self, image_id: ImageId, data: &Vec<u8>) {
        let key = image_id.as_str().as_bytes_vec();
        let _ = self.store.set(PersistSpace::Storage, &key, data);
    }

    fn remove(&mut self, image_id: ImageId) {
        let key = image_id.as_str().as_bytes_vec();
        self.store.remove(PersistSpace::Storage, &key);
    }
}

} // verus!
