//! The registry: the four tables and the counter, seen as a `Ledger`.
//!
//! A table holds byte strings. The records of a table are the entries whose
//! bytes stand for a record that carries the entry's key as its identifier;
//! any other entry is treated as absent. The functions here read and write
//! single records; commands are built from them elsewhere.

use crate::codec::{
    lemma_license_canonical, lemma_licensee_canonical, lemma_owner_canonical,
    lemma_song_canonical, lemma_license_bytes_len, lemma_license_round_trip, lemma_licensee_bytes_len,
    lemma_licensee_round_trip, lemma_owner_bytes_len, lemma_owner_round_trip,
    lemma_song_bytes_len, lemma_song_round_trip, license_bytes, license_from_bytes, license_len,
    licensee_bytes, licensee_from_bytes, licensee_len, owner_bytes, owner_from_bytes, owner_len,
    song_bytes, song_from_bytes, song_len, MAX_VALUE_BYTES,
};
use crate::entity::{Error, ErrorKind, License, Licensee, Owner, Song};
use crate::ledger::{
    ascending, has_listing, in_key_order, keys_in_order, lemma_keys_in_order, license_fits,
    licensee_fits, lists_keys, lookup, owner_fits, song_fits, Ledger,
};
use crate::stable::{
    arena_counter, arena_open, arena_table, cell_get, cell_region, cell_set, cell_value,
    lists_entries, stored_bytes, table_entries, table_get, table_insert, table_region,
    table_remove, ByteTable, IdCell,
};
use vstd::prelude::*;

verus! {

/// A kind of record with a byte form.
pub trait Record: View + Sized {
    /// The byte form of a record.
    spec fn form(value: Self::V) -> Seq<u8>;

    /// The record that a byte string stands for, if any.
    spec fn parse(bytes: Seq<u8>) -> Option<Self::V>;

    /// The length of a record's byte form.
    spec fn length(value: Self::V) -> nat;

    /// A record's identifier.
    spec fn key(value: Self::V) -> u64;

    proof fn lemma_round_trip(value: Self::V)
        ensures
            Self::form(value).len() == Self::length(value),
            Self::length(value) <= MAX_VALUE_BYTES ==> Self::parse(Self::form(value)) == Some(
                value,
            ),
    ;

    proof fn lemma_canonical(bytes: Seq<u8>)
        ensures
            Self::parse(bytes) is Some ==> Self::form(Self::parse(bytes)->0) == bytes,
    ;

    fn encode(&self) -> (bytes: Vec<u8>)
        ensures
            bytes@ == Self::form(self@),
    ;

    fn decode(bytes: &Vec<u8>) -> (record: Option<Self>)
        ensures
            record is Some <==> Self::parse(bytes@) is Some,
            record is Some ==> record->0@ == Self::parse(bytes@)->0,
    ;

    fn id(&self) -> (id: u64)
        ensures
            id == Self::key(self@),
    ;
}

impl Record for Song {
    open spec fn form(value: Self::V) -> Seq<u8> {
        song_bytes(value)
    }

    open spec fn parse(bytes: Seq<u8>) -> Option<Self::V> {
        song_from_bytes(bytes)
    }

    open spec fn length(value: Self::V) -> nat {
        song_len(value)
    }

    open spec fn key(value: Self::V) -> u64 {
        value.id
    }

    proof fn lemma_round_trip(value: Self::V) {
        lemma_song_bytes_len(value);
        if song_len(value) <= MAX_VALUE_BYTES {
            lemma_song_round_trip(value);
        }
    }

    proof fn lemma_canonical(bytes: Seq<u8>) {
        if song_from_bytes(bytes) is Some {
            lemma_song_canonical(bytes);
        }
    }

    fn encode(&self) -> (bytes: Vec<u8>) {
        self.to_bytes()
    }

    fn decode(bytes: &Vec<u8>) -> (record: Option<Self>) {
        Song::from_bytes(bytes)
    }

    fn id(&self) -> (id: u64) {
        self.id
    }
}

impl Record for Owner {
    open spec fn form(value: Self::V) -> Seq<u8> {
        owner_bytes(value)
    }

    open spec fn parse(bytes: Seq<u8>) -> Option<Self::V> {
        owner_from_bytes(bytes)
    }

    open spec fn length(value: Self::V) -> nat {
        owner_len(value)
    }

    open spec fn key(value: Self::V) -> u64 {
        value.id
    }

    proof fn lemma_round_trip(value: Self::V) {
        lemma_owner_bytes_len(value);
        if owner_len(value) <= MAX_VALUE_BYTES {
            lemma_owner_round_trip(value);
        }
    }

    proof fn lemma_canonical(bytes: Seq<u8>) {
        if owner_from_bytes(bytes) is Some {
            lemma_owner_canonical(bytes);
        }
    }

    fn encode(&self) -> (bytes: Vec<u8>) {
        self.to_bytes()
    }

    fn decode(bytes: &Vec<u8>) -> (record: Option<Self>) {
        Owner::from_bytes(bytes)
    }

    fn id(&self) -> (id: u64) {
        self.id
    }
}

impl Record for License {
    open spec fn form(value: Self::V) -> Seq<u8> {
        license_bytes(value)
    }

    open spec fn parse(bytes: Seq<u8>) -> Option<Self::V> {
        license_from_bytes(bytes)
    }

    open spec fn length(value: Self::V) -> nat {
        license_len(value)
    }

    open spec fn key(value: Self::V) -> u64 {
        value.id
    }

    proof fn lemma_round_trip(value: Self::V) {
        lemma_license_bytes_len(value);
        if license_len(value) <= MAX_VALUE_BYTES {
            lemma_license_round_trip(value);
        }
    }

    proof fn lemma_canonical(bytes: Seq<u8>) {
        if license_from_bytes(bytes) is Some {
            lemma_license_canonical(bytes);
        }
    }

    fn encode(&self) -> (bytes: Vec<u8>) {
        self.to_bytes()
    }

    fn decode(bytes: &Vec<u8>) -> (record: Option<Self>) {
        License::from_bytes(bytes)
    }

    fn id(&self) -> (id: u64) {
        self.id
    }
}

impl Record for Licensee {
    open spec fn form(value: Self::V) -> Seq<u8> {
        licensee_bytes(value)
    }

    open spec fn parse(bytes: Seq<u8>) -> Option<Self::V> {
        licensee_from_bytes(bytes)
    }

    open spec fn length(value: Self::V) -> nat {
        licensee_len(value)
    }

    open spec fn key(value: Self::V) -> u64 {
        value.id
    }

    proof fn lemma_round_trip(value: Self::V) {
        lemma_licensee_bytes_len(value);
        if licensee_len(value) <= MAX_VALUE_BYTES {
            lemma_licensee_round_trip(value);
        }
    }

    proof fn lemma_canonical(bytes: Seq<u8>) {
        if licensee_from_bytes(bytes) is Some {
            lemma_licensee_canonical(bytes);
        }
    }

    fn encode(&self) -> (bytes: Vec<u8>) {
        self.to_bytes()
    }

    fn decode(bytes: &Vec<u8>) -> (record: Option<Self>) {
        Licensee::from_bytes(bytes)
    }

    fn id(&self) -> (id: u64) {
        self.id
    }
}

/// Whether the bytes under `id` stand for a record with that identifier.
pub open spec fn holds_record<R: Record>(stored: Map<u64, Seq<u8>>, id: u64) -> bool {
    &&& stored.contains_key(id)
    &&& R::parse(stored[id]) is Some
    &&& R::key(R::parse(stored[id])->0) == id
}

/// The records that a table's bytes stand for.
pub open spec fn records_in<R: Record>(stored: Map<u64, Seq<u8>>) -> Map<u64, R::V> {
    Map::new(|id: u64| holds_record::<R>(stored, id), |id: u64| R::parse(stored[id])->0)
}

/// The view of a record that may be missing.
pub open spec fn views_of<R: View>(record: Option<R>) -> Option<R::V> {
    match record {
        Some(record) => Some(record@),
        None => None,
    }
}

/// The views of a sequence of records.
pub open spec fn views<R: View>(records: Seq<R>) -> Seq<R::V> {
    records.map_values(|record: R| record@)
}

fn fetch<R: Record>(table: &ByteTable, id: u64) -> (found: Option<R>)
    ensures
        found is Some <==> records_in::<R>(stored_bytes(*table)).contains_key(id),
        found is Some ==> found->0@ == records_in::<R>(stored_bytes(*table))[id],
        found is Some ==> R::length(found->0@) <= MAX_VALUE_BYTES,
{
    proof {
        if stored_bytes(*table).contains_key(id) {
            R::lemma_canonical(stored_bytes(*table)[id]);
            if R::parse(stored_bytes(*table)[id]) is Some {
                R::lemma_round_trip(R::parse(stored_bytes(*table)[id])->0);
            }
        }
    }
    match table_get(table, id) {
        Some(bytes) => match R::decode(&bytes) {
            Some(record) => if record.id() == id {
                Some(record)
            } else {
                None
            },
            None => None,
        },
        None => None,
    }
}

/// Puts a record under its identifier and returns the record that was
/// there before, if any.
fn store<R: Record>(table: &mut ByteTable, record: &R) -> (previous: Option<R>)
    requires
        R::length(record@) <= MAX_VALUE_BYTES,
    ensures
        records_in::<R>(stored_bytes(*final(table))) == records_in::<R>(
            stored_bytes(*old(table)),
        ).insert(R::key(record@), record@),
        views_of(previous) == lookup(
            records_in::<R>(stored_bytes(*old(table))),
            R::key(record@),
        ),
{
    let bytes = record.encode();
    proof {
        R::lemma_round_trip(record@);
    }
    let id = record.id();
    let replaced = table_insert(table, id, bytes);
    let previous = match replaced {
        Some(old_bytes) => match R::decode(&old_bytes) {
            Some(old_record) => if old_record.id() == id {
                Some(old_record)
            } else {
                None
            },
            None => None,
        },
        None => None,
    };
    assert(records_in::<R>(stored_bytes(*table)) =~= records_in::<R>(
        stored_bytes(*old(table)),
    ).insert(R::key(record@), record@));
    previous
}

/// Whether a record, grown by `more` bytes, is short enough for a table.
pub fn has_room<R: Record>(record: &R, more: usize) -> (room: bool)
    ensures
        room == (R::length(record@) + more <= MAX_VALUE_BYTES),
{
    proof {
        R::lemma_round_trip(record@);
    }
    let length = record.encode().len();
    more <= MAX_VALUE_BYTES && length <= MAX_VALUE_BYTES - more
}

fn discard<R: Record>(table: &mut ByteTable, id: u64) -> (removed: Option<R>)
    ensures
        records_in::<R>(stored_bytes(*final(table))) == records_in::<R>(
            stored_bytes(*old(table)),
        ).remove(id),
        removed is Some <==> records_in::<R>(stored_bytes(*old(table))).contains_key(id),
        removed is Some ==> removed->0@ == records_in::<R>(stored_bytes(*old(table)))[id],
{
    let previous = table_remove(table, id);
    assert(records_in::<R>(stored_bytes(*table)) =~= records_in::<R>(
        stored_bytes(*old(table)),
    ).remove(id));
    match previous {
        Some(bytes) => match R::decode(&bytes) {
            Some(record) => if record.id() == id {
                Some(record)
            } else {
                None
            },
            None => None,
        },
        None => None,
    }
}

fn list<R: Record>(table: &ByteTable) -> (all: Vec<R>)
    ensures
        views(all@) == in_key_order(records_in::<R>(stored_bytes(*table))),
        has_listing(records_in::<R>(stored_bytes(*table))),
        forall|i: int| 0 <= i < all.len() ==> R::length(#[trigger] all[i]@) <= MAX_VALUE_BYTES,
{
    let entries = table_entries(table);
    let ghost stored = stored_bytes(*table);
    let ghost typed = records_in::<R>(stored);
    let ghost mut keys: Seq<u64> = Seq::empty();
    let mut all: Vec<R> = Vec::new();
    let mut at: usize = 0;
    while at < entries.len()
        invariant
            at <= entries.len(),
            lists_entries(entries@, stored),
            typed == records_in::<R>(stored),
            keys.len() == all.len(),
            forall|i: int| 0 <= i < all.len() ==> R::length(#[trigger] all[i]@) <= MAX_VALUE_BYTES,
            ascending(keys),
            forall|i: int|
                0 <= i < keys.len() ==> typed.contains_key(#[trigger] keys[i]) && all[i]@
                    == typed[keys[i]],
            forall|i: int|
                0 <= i < keys.len() ==> exists|j: int|
                    0 <= j < at && entries[j].0 == #[trigger] keys[i],
            forall|j: int|
                0 <= j < at && typed.contains_key(#[trigger] entries[j].0) ==> keys.contains(
                    entries[j].0,
                ),
        decreases entries.len() - at,
    {
        let ghost before = keys;
        let key = entries[at].0;
        let found = R::decode(&entries[at].1);
        proof {
            R::lemma_canonical(entries[at as int].1@);
            if R::parse(entries[at as int].1@) is Some {
                R::lemma_round_trip(R::parse(entries[at as int].1@)->0);
            }
        }
        let mut kept = false;
        match found {
            Some(record) => {
                if record.id() == key {
                    proof {
                        assert forall|i: int| 0 <= i < keys.len() implies keys[i] < key by {
                            let j = choose|j: int| 0 <= j < at && entries[j].0 == keys[i];
                            assert(entries[j].0 < entries[at as int].0);
                        }
                        keys = keys.push(key);
                        assert(typed.contains_key(key));
                    }
                    all.push(record);
                    kept = true;
                }
            },
            None => {},
        }
        proof {
            assert forall|j: int|
                0 <= j < at + 1 && typed.contains_key(#[trigger] entries[j].0) implies keys.contains(
                entries[j].0,
            ) by {
                if j < at {
                    assert(before.contains(entries[j].0));
                    let x = choose|x: int| 0 <= x < before.len() && before[x] == entries[j].0;
                    assert(keys[x] == entries[j].0);
                } else {
                    assert(kept);
                    assert(keys[keys.len() - 1] == entries[j].0);
                }
            }
            assert forall|i: int| 0 <= i < keys.len() implies exists|j: int|
                0 <= j < at + 1 && entries[j].0 == #[trigger] keys[i] by {
                if i < before.len() {
                    let j = choose|j: int| 0 <= j < at && entries[j].0 == before[i];
                    assert(entries[j].0 == keys[i]);
                } else {
                    assert(entries[at as int].0 == keys[i]);
                }
            }
        }
        at += 1;
    }
    proof {
        assert forall|key: u64| typed.contains_key(key) <==> keys.contains(key) by {
            if typed.contains_key(key) {
                assert(stored.contains_key(key));
                let j = choose|j: int| 0 <= j < entries.len() && entries[j].0 == key;
                assert(typed.contains_key(entries[j].0));
            }
            if keys.contains(key) {
                let x = choose|x: int| 0 <= x < keys.len() && keys[x] == key;
                assert(typed.contains_key(keys[x]));
            }
        }
        assert(lists_keys(keys, typed));
        lemma_keys_in_order(keys, typed);
        assert(views(all@) =~= in_key_order(typed));
    }
    all
}

/// The counter and the four tables.
pub struct Registry {
    counter: IdCell,
    songs: ByteTable,
    owners: ByteTable,
    licenses: ByteTable,
    licensees: ByteTable,
}

impl View for Registry {
    type V = Ledger;

    closed spec fn view(&self) -> Ledger {
        Ledger {
            next_id: cell_value(self.counter),
            songs: records_in::<Song>(stored_bytes(self.songs)),
            owners: records_in::<Owner>(stored_bytes(self.owners)),
            licenses: records_in::<License>(stored_bytes(self.licenses)),
            licensees: records_in::<Licensee>(stored_bytes(self.licensees)),
        }
    }
}

/// What a caller is told, as the model states it.
pub open spec fn answer<T: View>(result: Result<T, Error>) -> Result<T::V, ErrorKind> {
    match result {
        Ok(value) => Ok(value@),
        Err(error) => Err(error@),
    }
}

/// What a caller is told by a query for several records.
pub open spec fn answers<T: View>(result: Result<Vec<T>, Error>) -> Result<Seq<T::V>, ErrorKind> {
    match result {
        Ok(values) => Ok(views(values@)),
        Err(error) => Err(error@),
    }
}

/// What a caller is told by a step that returns nothing.
pub open spec fn verdict<T>(result: Result<T, Error>) -> Result<T, ErrorKind> {
    match result {
        Ok(value) => Ok(value),
        Err(error) => Err(error@),
    }
}

/// Every error tells its reader something.
pub open spec fn told<T>(result: Result<T, Error>) -> bool {
    result is Err ==> result->Err_0.has_message()
}

/// The regions of the managed memory in which the counter and the four
/// tables live.
pub struct Regions {
    pub counter: u8,
    pub songs: u8,
    pub owners: u8,
    pub licenses: u8,
    pub licensees: u8,
}

/// The region of the counter.
pub const COUNTER_REGION: u8 = 0;

/// The region of the table of songs.
pub const SONGS_REGION: u8 = 1;

/// The region of the table of owners.
pub const OWNERS_REGION: u8 = 2;

/// The region of the table of licenses.
pub const LICENSES_REGION: u8 = 3;

/// The region of the table of licensees.
pub const LICENSEES_REGION: u8 = 4;

impl Registry {
    /// Where the counter and the tables of this registry were opened.
    pub closed spec fn regions(&self) -> Regions {
        Regions {
            counter: cell_region(self.counter),
            songs: table_region(self.songs),
            owners: table_region(self.owners),
            licenses: table_region(self.licenses),
            licensees: table_region(self.licensees),
        }
    }

    /// Opens the registry over the default memory: the counter in region 0,
    /// then songs, owners, licenses and licensees in regions 1 to 4, each in
    /// a region of its own. What the regions held before is there again; a
    /// memory that was never used gives a registry that `is_fresh`.
    ///
    /// Call it once in a process: where the default memory is the one
    /// stable memory of a canister, a second registry would share every
    /// region with the first.
    pub fn open() -> (registry: Registry)
        ensures
            registry.regions() == (Regions {
                counter: COUNTER_REGION,
                songs: SONGS_REGION,
                owners: OWNERS_REGION,
                licenses: LICENSES_REGION,
                licensees: LICENSEES_REGION,
            }),
    {
        let mut arena = arena_open();
        let counter = arena_counter(&mut arena, COUNTER_REGION, 0);
        let songs = arena_table(&mut arena, SONGS_REGION);
        let owners = arena_table(&mut arena, OWNERS_REGION);
        let licenses = arena_table(&mut arena, LICENSES_REGION);
        let licensees = arena_table(&mut arena, LICENSEES_REGION);
        Registry { counter, songs, owners, licenses, licensees }
    }

    /// Every record of a registry is kept under its own identifier.
    pub proof fn lemma_keyed(&self)
        ensures
            self@.keyed(),
    {
    }

    /// The identifier that the next new record gets; it stays the next.
    pub fn peek_id(&self) -> (id: u64)
        ensures
            id == self@.next_id,
    {
        cell_get(&self.counter)
    }

    /// Whether the registry holds nothing and has handed out no identifier.
    pub fn is_fresh(&self) -> (fresh: bool)
        ensures
            fresh <==> self@ == Ledger::empty(),
    {
        let songs = list::<Song>(&self.songs);
        let owners = list::<Owner>(&self.owners);
        let licenses = list::<License>(&self.licenses);
        let licensees = list::<Licensee>(&self.licensees);
        proof {
            lemma_listing_empty(self@.songs);
            lemma_listing_empty(self@.owners);
            lemma_listing_empty(self@.licenses);
            lemma_listing_empty(self@.licensees);
        }
        cell_get(&self.counter) == 0 && songs.len() == 0 && owners.len() == 0 && licenses.len()
            == 0 && licensees.len() == 0
    }

    /// Hands out the identifier that was next; the next is then one higher,
    /// so no identifier is handed out twice.
    pub fn next_id(&mut self) -> (id: u64)
        requires
            old(self)@.next_id < u64::MAX,
        ensures
            id == old(self)@.next_id,
            final(self)@ == old(self)@.with_next_id((id + 1) as u64),
    {
        let current = cell_get(&self.counter);
        cell_set(&mut self.counter, current + 1)
    }

    /// Puts a song under its identifier and returns the song that was there
    /// before, if any.
    pub fn put_song(&mut self, song: &Song) -> (previous: Option<Song>)
        requires
            song_fits(song@),
        ensures
            final(self)@ == old(self)@.with_song(song@),
            views_of(previous) == lookup(old(self)@.songs, song.id),
    {
        store::<Song>(&mut self.songs, song)
    }

    /// The same for an owner.
    pub fn put_owner(&mut self, owner: &Owner) -> (previous: Option<Owner>)
        requires
            owner_fits(owner@),
        ensures
            final(self)@ == old(self)@.with_owner(owner@),
            views_of(previous) == lookup(old(self)@.owners, owner.id),
    {
        store::<Owner>(&mut self.owners, owner)
    }

    /// The same for a license.
    pub fn put_license(&mut self, license: &License) -> (previous: Option<License>)
        requires
            license_fits(license@),
        ensures
            final(self)@ == old(self)@.with_license(license@),
            views_of(previous) == lookup(old(self)@.licenses, license.id),
    {
        store::<License>(&mut self.licenses, license)
    }

    /// The same for a licensee.
    pub fn put_licensee(&mut self, licensee: &Licensee) -> (previous: Option<Licensee>)
        requires
            licensee_fits(licensee@),
        ensures
            final(self)@ == old(self)@.with_licensee(licensee@),
            views_of(previous) == lookup(old(self)@.licensees, licensee.id),
    {
        store::<Licensee>(&mut self.licensees, licensee)
    }

    /// Takes a song out of its table and returns it, if it was there.
    pub fn drop_song(&mut self, id: u64) -> (removed: Option<Song>)
        ensures
            final(self)@ == old(self)@.without_song(id),
            removed is Some <==> old(self)@.songs.contains_key(id),
            removed is Some ==> removed->0@ == old(self)@.songs[id],
    {
        discard::<Song>(&mut self.songs, id)
    }

    /// All songs, by ascending identifier.
    pub fn all_songs(&self) -> (songs: Vec<Song>)
        ensures
            views(songs@) == in_key_order(self@.songs),
            has_listing(self@.songs),
            forall|i: int| 0 <= i < songs.len() ==> song_fits(#[trigger] songs[i]@),
    {
        list::<Song>(&self.songs)
    }

    /// All licenses, by ascending identifier.
    pub fn all_licenses(&self) -> (licenses: Vec<License>)
        ensures
            views(licenses@) == in_key_order(self@.licenses),
            has_listing(self@.licenses),
            forall|i: int| 0 <= i < licenses.len() ==> license_fits(#[trigger] licenses[i]@),
    {
        list::<License>(&self.licenses)
    }
}

/// A map has an empty listing exactly if it has no key, given that it has a
/// listing at all.
proof fn lemma_listing_empty<V>(map: Map<u64, V>)
    requires
        has_listing(map),
    ensures
        in_key_order(map).len() == 0 <==> map == Map::<u64, V>::empty(),
{
    let keys = keys_in_order(map);
    if in_key_order(map).len() == 0 {
        assert forall|key: u64| !map.contains_key(key) by {
            if map.contains_key(key) {
                assert(keys.contains(key));
            }
        }
        assert(map =~= Map::<u64, V>::empty());
    }
    if map == Map::<u64, V>::empty() {
        if keys.len() > 0 {
            assert(keys.contains(keys[0]));
        }
    }
}

/// The song under an identifier, if there is one.
pub fn _get_song(registry: &Registry, id: &u64) -> (song: Option<Song>)
    ensures
        song is Some <==> registry@.songs.contains_key(*id),
        song is Some ==> song->0@ == registry@.songs[*id],
        song is Some ==> song_fits(song->0@),
{
    fetch::<Song>(&registry.songs, *id)
}

/// The owner under an identifier, if there is one.
pub fn _get_owner(registry: &Registry, id: &u64) -> (owner: Option<Owner>)
    ensures
        owner is Some <==> registry@.owners.contains_key(*id),
        owner is Some ==> owner->0@ == registry@.owners[*id],
        owner is Some ==> owner_fits(owner->0@),
{
    fetch::<Owner>(&registry.owners, *id)
}

/// The license under an identifier, if there is one.
pub fn _get_license(registry: &Registry, id: &u64) -> (license: Option<License>)
    ensures
        license is Some <==> registry@.licenses.contains_key(*id),
        license is Some ==> license->0@ == registry@.licenses[*id],
        license is Some ==> license_fits(license->0@),
{
    fetch::<License>(&registry.licenses, *id)
}

/// The licensee under an identifier, if there is one.
pub fn _get_licensee(registry: &Registry, id: &u64) -> (licensee: Option<Licensee>)
    ensures
        licensee is Some <==> registry@.licensees.contains_key(*id),
        licensee is Some ==> licensee->0@ == registry@.licensees[*id],
        licensee is Some ==> licensee_fits(licensee->0@),
{
    fetch::<Licensee>(&registry.licensees, *id)
}

} // verus!
