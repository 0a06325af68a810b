//! The stable structures that hold the registry's data: four ordered tables
//! of byte strings and one counter, each in a region of its own of one
//! managed memory.
//!
//! Nothing in this file is proved. Each function hands its arguments to
//! `ic_stable_structures`, and its contract says what the source and the
//! documentation of the functions it calls say. The rest of the crate is
//! proved against these contracts.
//!
//! The three structs are opaque to the verifier: the types they hold are
//! bound by traits of `ic_stable_structures`, which the verifier does not
//! take in a declaration of a type.

use ic_stable_structures::memory_manager::{MemoryId, MemoryManager, VirtualMemory};
use ic_stable_structures::{Cell, DefaultMemoryImpl, StableBTreeMap};
use vstd::prelude::*;

verus! {

/// A managed memory, of which each table and the counter get a region.
#[verifier::external_body]
pub struct Arena {
    manager: MemoryManager<DefaultMemoryImpl>,
}

/// An ordered table from identifiers to byte strings: a `StableBTreeMap`
/// with `u64` keys and `Vec<u8>` values.
#[verifier::external_body]
pub struct ByteTable {
    inner: StableBTreeMap<u64, Vec<u8>, VirtualMemory<DefaultMemoryImpl>>,
}

/// A counter that outlives the process: a stable `Cell` that holds a `u64`.
#[verifier::external_body]
pub struct IdCell {
    inner: Cell<u64, VirtualMemory<DefaultMemoryImpl>>,
}

/// The regions of an arena that have been handed out.
pub uninterp spec fn regions_taken(arena: Arena) -> Set<u8>;

/// What a table holds.
pub uninterp spec fn stored_bytes(table: ByteTable) -> Map<u64, Seq<u8>>;

/// The number that a counter holds.
pub uninterp spec fn cell_value(cell: IdCell) -> u64;

/// The region of its arena that a table was opened on.
pub uninterp spec fn table_region(table: ByteTable) -> u8;

/// The region of its arena that a counter was opened on.
pub uninterp spec fn cell_region(cell: IdCell) -> u8;

/// Whether `entries` are all the entries of `stored`, by ascending key, and
/// none has a value longer than 32 bits count.
pub open spec fn lists_entries(entries: Seq<(u64, Vec<u8>)>, stored: Map<u64, Seq<u8>>) -> bool {
    &&& forall|i: int, j: int| 0 <= i < j < entries.len() ==> entries[i].0 < entries[j].0
    &&& forall|i: int|
        0 <= i < entries.len() ==> stored.contains_key(#[trigger] entries[i].0)
            && stored[entries[i].0] == entries[i].1@ && entries[i].1@.len() <= u32::MAX
    &&& forall|key: u64| #[trigger]
        stored.contains_key(key) ==> exists|i: int| 0 <= i < entries.len() && entries[i].0 == key
}

/// Calls `MemoryManager::init` on the default memory. No region of the new
/// manager has been handed out.
#[verifier::external_body]
pub(crate) fn arena_open() -> (arena: Arena)
    ensures
        regions_taken(arena) == Set::<u8>::empty(),
{
    Arena { manager: MemoryManager::init(DefaultMemoryImpl::default()) }
}

/// Calls `MemoryManager::get` and `StableBTreeMap::init` on the region. The
/// table lives in that region, which is then taken. It is the table that
/// the region held, or an empty one: nothing is claimed of what it holds.
/// `MemoryId::new` refuses region 255, and a region that is opened twice
/// would be shared, so both are left out.
#[verifier::external_body]
pub(crate) fn arena_table(arena: &mut Arena, region: u8) -> (table: ByteTable)
    requires
        region < 255,
        !regions_taken(*old(arena)).contains(region),
    ensures
        table_region(table) == region,
        regions_taken(*final(arena)) == regions_taken(*old(arena)).insert(region),
{
    ByteTable { inner: StableBTreeMap::init(arena.manager.get(MemoryId::new(region))) }
}

/// Calls `MemoryManager::get` and `Cell::init` on the region, with `start`
/// as the number to hold where the region holds no counter yet. The counter
/// lives in that region, which is then taken. It is the counter that the
/// region held, or a new one: nothing is claimed of the number that it
/// holds.
#[verifier::external_body]
pub(crate) fn arena_counter(arena: &mut Arena, region: u8, start: u64) -> (cell: IdCell)
    requires
        region < 255,
        !regions_taken(*old(arena)).contains(region),
    ensures
        cell_region(cell) == region,
        regions_taken(*final(arena)) == regions_taken(*old(arena)).insert(region),
{
    IdCell { inner: Cell::init(arena.manager.get(MemoryId::new(region)), start) }
}

/// Calls `StableBTreeMap::get`: the value under the key, if there is one. A
/// node records a value's length in 32 bits, so no value is longer.
#[verifier::external_body]
pub(crate) fn table_get(table: &ByteTable, key: u64) -> (found: Option<Vec<u8>>)
    ensures
        found is Some <==> stored_bytes(*table).contains_key(key),
        found is Some ==> found->0@ == stored_bytes(*table)[key],
        found is Some ==> found->0@.len() <= u32::MAX,
{
    table.inner.get(&key)
}

/// Calls `StableBTreeMap::insert`: the value is put under the key, and the
/// value that was there before, if any, is returned. A node records a
/// value's length in 32 bits, so longer values are left out.
#[verifier::external_body]
pub(crate) fn table_insert(table: &mut ByteTable, key: u64, value: Vec<u8>) -> (previous: Option<
    Vec<u8>,
>)
    requires
        value@.len() <= u32::MAX,
    ensures
        stored_bytes(*final(table)) == stored_bytes(*old(table)).insert(key, value@),
        previous is Some <==> stored_bytes(*old(table)).contains_key(key),
        previous is Some ==> previous->0@ == stored_bytes(*old(table))[key],
{
    table.inner.insert(key, value)
}

/// Calls `StableBTreeMap::remove`: the key leaves the table, and the value
/// that was under it, if any, is returned.
#[verifier::external_body]
pub(crate) fn table_remove(table: &mut ByteTable, key: u64) -> (previous: Option<Vec<u8>>)
    ensures
        stored_bytes(*final(table)) == stored_bytes(*old(table)).remove(key),
        previous is Some <==> stored_bytes(*old(table)).contains_key(key),
        previous is Some ==> previous->0@ == stored_bytes(*old(table))[key],
{
    table.inner.remove(&key)
}

/// Calls `StableBTreeMap::iter` and collects what it yields: every entry of
/// the table, once, sorted by key, each value with a length that fits in 32
/// bits.
#[verifier::external_body]
pub(crate) fn table_entries(table: &ByteTable) -> (entries: Vec<(u64, Vec<u8>)>)
    ensures
        lists_entries(entries@, stored_bytes(*table)),
{
    let mut entries = Vec::new();
    for entry in table.inner.iter() {
        entries.push(entry.into_pair());
    }
    entries
}

/// Calls `Cell::get`: the number that the counter holds.
#[verifier::external_body]
pub(crate) fn cell_get(cell: &IdCell) -> (value: u64)
    ensures
        value == cell_value(*cell),
{
    *cell.inner.get()
}

/// Calls `Cell::set`: the counter holds the new number, and the number that
/// it held before is returned.
#[verifier::external_body]
pub(crate) fn cell_set(cell: &mut IdCell, value: u64) -> (previous: u64)
    ensures
        cell_value(*final(cell)) == value,
        previous == cell_value(*old(cell)),
{
    cell.inner.set(value)
}

} // verus!
