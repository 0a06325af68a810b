//! The mathematical model of the registry: four maps from identifiers to
//! records and the next identifier, with every command and query as a
//! function on them.
//!
//! A command maps a ledger to an `Outcome`: the ledger afterwards and what
//! the caller is told. A command that takes several steps stops at the first
//! step that fails, and the steps before it stay done.
//!
//! The model knows no limit of length. The one the machine has, that a
//! table's value is no longer than 32 bits count, is what the `can_*`
//! predicates say; the commands ask it of their callers.

use crate::codec::{license_len, licensee_len, owner_len, song_len, MAX_VALUE_BYTES};
use crate::entity::{
    ApprovePayloadView, ErrorKind, LicensePayloadView, LicenseView, LicenseePayloadView,
    LicenseeView, OwnerPayloadView, OwnerView, ProtectedPayloadView, ReturnOwnerView,
    SongPayloadView, SongView, UpdateSongPayloadView,
};
use crate::text::{decimal_text, lowercase_text, occurs_in};
use vstd::prelude::*;

verus! {

/// Four maps from identifiers to records, and the identifier that the next
/// new record gets.
#[verifier::ext_equal]
pub struct Ledger {
    pub next_id: u64,
    pub songs: Map<u64, SongView>,
    pub owners: Map<u64, OwnerView>,
    pub licenses: Map<u64, LicenseView>,
    pub licensees: Map<u64, LicenseeView>,
}

/// The ledger after a command, and the command's answer.
#[verifier::ext_equal]
pub struct Outcome<T> {
    pub state: Ledger,
    pub result: Result<T, ErrorKind>,
}

/// The outcome of a command that is refused and leaves `state` behind.
pub open spec fn refused<T>(state: Ledger, kind: ErrorKind) -> Outcome<T> {
    Outcome { state, result: Err(kind) }
}

/// The outcome of a command that succeeds with `value` and leaves `state`
/// behind.
pub open spec fn done<T>(state: Ledger, value: T) -> Outcome<T> {
    Outcome { state, result: Ok(value) }
}

/// The least number of characters of a song's title and of an owner's or
/// licensee's name.
pub const MIN_NAME_CHARS: u64 = 2;

/// Whether a title or a name has enough characters.
pub open spec fn long_enough(name: Seq<char>) -> bool {
    name.len() >= MIN_NAME_CHARS
}

/// Whether a song's byte form is short enough for a table.
pub open spec fn song_fits(song: SongView) -> bool {
    song_len(song) <= MAX_VALUE_BYTES
}

/// Whether an owner's byte form is short enough for a table.
pub open spec fn owner_fits(owner: OwnerView) -> bool {
    owner_len(owner) <= MAX_VALUE_BYTES
}

/// Whether a license's byte form is short enough for a table.
pub open spec fn license_fits(license: LicenseView) -> bool {
    license_len(license) <= MAX_VALUE_BYTES
}

/// Whether a licensee's byte form is short enough for a table.
pub open spec fn licensee_fits(licensee: LicenseeView) -> bool {
    licensee_len(licensee) <= MAX_VALUE_BYTES
}

/// The index of the first `id` in `ids`, or the length of `ids` if there is
/// none.
pub open spec fn position(ids: Seq<u64>, id: u64) -> int
    decreases ids.len(),
{
    if ids.len() == 0 {
        0
    } else if ids[0] == id {
        0
    } else {
        1 + position(ids.drop_first(), id)
    }
}

/// `ids` without its first `id`.
pub open spec fn without_first(ids: Seq<u64>, id: u64) -> Seq<u64> {
    ids.remove(position(ids, id))
}

/// How often `id` occurs in `ids`.
pub open spec fn occurrences(ids: Seq<u64>, id: u64) -> nat
    decreases ids.len(),
{
    if ids.len() == 0 {
        0
    } else {
        occurrences(ids.drop_last(), id) + if ids.last() == id {
            1nat
        } else {
            0nat
        }
    }
}

/// Whether each key is below the next.
pub open spec fn ascending(keys: Seq<u64>) -> bool {
    forall|i: int, j: int| 0 <= i < j < keys.len() ==> keys[i] < keys[j]
}

/// Whether `keys` are exactly the keys of `map`, in ascending order.
pub open spec fn lists_keys<V>(keys: Seq<u64>, map: Map<u64, V>) -> bool {
    &&& ascending(keys)
    &&& forall|key: u64| map.contains_key(key) <==> keys.contains(key)
}

/// Whether the keys of `map` can be listed; those of a finite map can.
pub open spec fn has_listing<V>(map: Map<u64, V>) -> bool {
    lists_keys(keys_in_order(map), map)
}

/// The keys of a finite map in ascending order.
pub open spec fn keys_in_order<V>(map: Map<u64, V>) -> Seq<u64> {
    choose|keys: Seq<u64>| lists_keys(keys, map)
}

/// The values of a finite map by ascending key.
pub open spec fn in_key_order<V>(map: Map<u64, V>) -> Seq<V> {
    keys_in_order(map).map_values(|key: u64| map[key])
}

/// Whether a song is found by a query: the query, in lower case, occurs in
/// the lower-case form of the title, of the year in decimal digits, or of
/// the genre.
pub open spec fn song_matches(song: SongView, query: Seq<char>) -> bool {
    let wanted = lowercase_text(query);
    ||| occurs_in(wanted, lowercase_text(song.title))
    ||| occurs_in(wanted, lowercase_text(decimal_text(song.year as nat)))
    ||| occurs_in(wanted, lowercase_text(song.genre))
}

/// A reference that a license holds: to its song, its owner or its
/// licensee.
#[derive(Clone, Copy, Debug, PartialEq, Eq, Structural)]
pub enum Party {
    Song,
    Owner,
    Licensee,
}

/// Whether a license refers to `id` as the given party.
pub open spec fn refers_to(license: LicenseView, party: Party, id: u64) -> bool {
    match party {
        Party::Song => license.song_id == id,
        Party::Owner => license.owner_id == id,
        Party::Licensee => license.licensee_id == id,
    }
}

/// The value under a key, if there is one.
pub open spec fn lookup<V>(map: Map<u64, V>, key: u64) -> Option<V> {
    if map.contains_key(key) {
        Some(map[key])
    } else {
        None
    }
}

/// What a query for several records answers: the records, or `NotFound`
/// where there is none.
pub open spec fn some_or_not_found<T>(found: Seq<T>) -> Result<Seq<T>, ErrorKind> {
    if found.len() == 0 {
        Err(ErrorKind::NotFound)
    } else {
        Ok(found)
    }
}

impl Ledger {
    /// The ledger with no record and no identifier handed out.
    pub open spec fn empty() -> Ledger {
        Ledger {
            next_id: 0,
            songs: Map::empty(),
            owners: Map::empty(),
            licenses: Map::empty(),
            licensees: Map::empty(),
        }
    }

    /// Every record is kept under its own identifier.
    pub open spec fn keyed(self) -> bool {
        &&& forall|id: u64| self.songs.contains_key(id) ==> (#[trigger] self.songs[id]).id == id
        &&& forall|id: u64| self.owners.contains_key(id) ==> (#[trigger] self.owners[id]).id == id
        &&& forall|id: u64|
            self.licenses.contains_key(id) ==> (#[trigger] self.licenses[id]).id == id
        &&& forall|id: u64|
            self.licensees.contains_key(id) ==> (#[trigger] self.licensees[id]).id == id
    }

    /// This ledger with another next identifier.
    pub open spec fn with_next_id(self, next_id: u64) -> Ledger {
        Ledger { next_id, ..self }
    }

    /// This ledger with a song put under its identifier.
    pub open spec fn with_song(self, song: SongView) -> Ledger {
        Ledger { songs: self.songs.insert(song.id, song), ..self }
    }

    /// This ledger without the song under an identifier.
    pub open spec fn without_song(self, id: u64) -> Ledger {
        Ledger { songs: self.songs.remove(id), ..self }
    }

    /// This ledger with an owner put under its identifier.
    pub open spec fn with_owner(self, owner: OwnerView) -> Ledger {
        Ledger { owners: self.owners.insert(owner.id, owner), ..self }
    }

    /// This ledger with a license put under its identifier.
    pub open spec fn with_license(self, license: LicenseView) -> Ledger {
        Ledger { licenses: self.licenses.insert(license.id, license), ..self }
    }

    /// This ledger with a licensee put under its identifier.
    pub open spec fn with_licensee(self, licensee: LicenseeView) -> Ledger {
        Ledger { licensees: self.licensees.insert(licensee.id, licensee), ..self }
    }

    // The steps that change one list.

    /// Appends a song to an owner's list of songs; `NotFound` where there is
    /// no such owner.
    pub open spec fn add_song_to_owner(self, owner_id: u64, song_id: u64) -> Outcome<()> {
        if !self.owners.contains_key(owner_id) {
            refused(self, ErrorKind::NotFound)
        } else {
            let owner = self.owners[owner_id];
            done(self.with_owner(OwnerView { song_ids: owner.song_ids.push(song_id), ..owner }), ())
        }
    }

    /// Appends a license to an owner's list of licenses; `NotFound` where
    /// there is no such owner.
    pub open spec fn add_license_to_owner(self, owner_id: u64, license_id: u64) -> Outcome<()> {
        if !self.owners.contains_key(owner_id) {
            refused(self, ErrorKind::NotFound)
        } else {
            let owner = self.owners[owner_id];
            done(
                self.with_owner(
                    OwnerView { license_ids: owner.license_ids.push(license_id), ..owner },
                ),
                (),
            )
        }
    }

    /// Appends a license to a licensee's list; `NotFound` where there is no
    /// such licensee.
    pub open spec fn add_license_to_licensee(self, licensee_id: u64, license_id: u64) -> Outcome<
        (),
    > {
        if !self.licensees.contains_key(licensee_id) {
            refused(self, ErrorKind::NotFound)
        } else {
            let licensee = self.licensees[licensee_id];
            done(
                self.with_licensee(
                    LicenseeView { licenses: licensee.licenses.push(license_id), ..licensee },
                ),
                (),
            )
        }
    }

    /// Takes the first entry for a license off an owner's list of licenses.
    /// `NotFound`, and nothing changed, where there is no such owner or no
    /// such entry.
    pub open spec fn remove_license_from_owner(self, owner_id: u64, license_id: u64) -> Outcome<
        (),
    > {
        if !self.owners.contains_key(owner_id) {
            refused(self, ErrorKind::NotFound)
        } else {
            let owner = self.owners[owner_id];
            if !owner.license_ids.contains(license_id) {
                refused(self, ErrorKind::NotFound)
            } else {
                done(
                    self.with_owner(
                        OwnerView {
                            license_ids: without_first(owner.license_ids, license_id),
                            ..owner
                        },
                    ),
                    (),
                )
            }
        }
    }

    /// Takes the first entry for a license off a licensee's list.
    /// `NotFound`, and nothing changed, where there is no such licensee or
    /// no such entry.
    pub open spec fn remove_license_from_licensee(
        self,
        licensee_id: u64,
        license_id: u64,
    ) -> Outcome<()> {
        if !self.licensees.contains_key(licensee_id) {
            refused(self, ErrorKind::NotFound)
        } else {
            let licensee = self.licensees[licensee_id];
            if !licensee.licenses.contains(license_id) {
                refused(self, ErrorKind::NotFound)
            } else {
                done(
                    self.with_licensee(
                        LicenseeView {
                            licenses: without_first(licensee.licenses, license_id),
                            ..licensee
                        },
                    ),
                    (),
                )
            }
        }
    }

    /// Takes the first entry for a song off the list of the song's owner.
    /// `NotFound`, and nothing changed, where there is no such song, no such
    /// owner or no such entry.
    pub open spec fn remove_song_from_owner(self, song_id: u64) -> Outcome<()> {
        if !self.songs.contains_key(song_id) {
            refused(self, ErrorKind::NotFound)
        } else {
            let song = self.songs[song_id];
            if !self.owners.contains_key(song.owner_id) {
                refused(self, ErrorKind::NotFound)
            } else {
                let owner = self.owners[song.owner_id];
                if !owner.song_ids.contains(song.id) {
                    refused(self, ErrorKind::NotFound)
                } else {
                    done(
                        self.with_owner(
                            OwnerView { song_ids: without_first(owner.song_ids, song.id), ..owner },
                        ),
                        (),
                    )
                }
            }
        }
    }

    /// The licenses that refer to `id` as the given party, by ascending
    /// identifier.
    pub open spec fn licenses_of(self, party: Party, id: u64) -> Seq<LicenseView> {
        in_key_order(self.licenses).filter(|license: LicenseView| refers_to(license, party, id))
    }

    /// The licenses that refer to a song, by ascending identifier.
    pub open spec fn licenses_of_song(self, song_id: u64) -> Seq<LicenseView> {
        self.licenses_of(Party::Song, song_id)
    }

    /// Takes each of `licenses`, in turn, off its licensee's list. A license
    /// that is in no list, as one that was never approved, is passed over.
    pub open spec fn detach_each(self, licenses: Seq<LicenseView>) -> Ledger
        decreases licenses.len(),
    {
        if licenses.len() == 0 {
            self
        } else {
            self.remove_license_from_licensee(
                licenses[0].licensee_id,
                licenses[0].id,
            ).state.detach_each(licenses.drop_first())
        }
    }

    /// Takes every license that refers to a song off its licensee's list;
    /// `NotFound` where there is no such song.
    pub open spec fn remove_song_from_licensee(self, song_id: u64) -> Outcome<()> {
        if !self.songs.contains_key(song_id) {
            refused(self, ErrorKind::NotFound)
        } else {
            done(self.detach_each(self.licenses_of_song(self.songs[song_id].id)), ())
        }
    }

    /// Takes a license off its owner's list, where it is there, and keeps it
    /// as not approved.
    pub open spec fn release_license(self, license: LicenseView) -> Ledger {
        let unlisted = self.remove_license_from_owner(license.owner_id, license.id).state;
        if license.approved {
            unlisted.with_license(LicenseView { approved: false, ..license })
        } else {
            unlisted
        }
    }

    /// Releases each of `licenses` in turn.
    pub open spec fn release_each(self, licenses: Seq<LicenseView>) -> Ledger
        decreases licenses.len(),
    {
        if licenses.len() == 0 {
            self
        } else {
            self.release_license(licenses[0]).release_each(licenses.drop_first())
        }
    }

    /// Releases every license that refers to a song.
    pub open spec fn release_licenses(self, song_id: u64) -> Ledger {
        self.release_each(self.licenses_of_song(song_id))
    }

    /// Enters a license in its owner's list and then in its licensee's
    /// list. Where the second step fails, the first stays done.
    pub open spec fn attach_license(
        self,
        owner_id: u64,
        licensee_id: u64,
        license_id: u64,
    ) -> Outcome<()> {
        let first = self.add_license_to_owner(owner_id, license_id);
        if first.result is Err {
            first
        } else {
            first.state.add_license_to_licensee(licensee_id, license_id)
        }
    }

    /// Takes a license off its owner's list and then off its licensee's
    /// list. Where the second step fails, the first stays done.
    pub open spec fn detach_license(
        self,
        owner_id: u64,
        licensee_id: u64,
        license_id: u64,
    ) -> Outcome<()> {
        let first = self.remove_license_from_owner(owner_id, license_id);
        if first.result is Err {
            first
        } else {
            first.state.remove_license_from_licensee(licensee_id, license_id)
        }
    }

    /// Takes a song off its owner's list and then its licenses off their
    /// licensees' lists.
    pub open spec fn detach_song(self, song_id: u64) -> Outcome<()> {
        let first = self.remove_song_from_owner(song_id);
        if first.result is Err {
            first
        } else {
            first.state.remove_song_from_licensee(song_id)
        }
    }

    /// Taking licenses off licensees' lists changes licensees only.
    pub proof fn lemma_detach_each_frame(self, licenses: Seq<LicenseView>)
        ensures
            self.detach_each(licenses).next_id == self.next_id,
            self.detach_each(licenses).songs == self.songs,
            self.detach_each(licenses).owners == self.owners,
            self.detach_each(licenses).licenses == self.licenses,
        decreases licenses.len(),
    {
        if licenses.len() > 0 {
            self.remove_license_from_licensee(
                licenses[0].licensee_id,
                licenses[0].id,
            ).state.lemma_detach_each_frame(licenses.drop_first());
        }
    }

    /// Releasing licenses changes neither songs nor licensees nor the next
    /// identifier.
    pub proof fn lemma_release_each_frame(self, licenses: Seq<LicenseView>)
        ensures
            self.release_each(licenses).next_id == self.next_id,
            self.release_each(licenses).songs == self.songs,
            self.release_each(licenses).licensees == self.licensees,
        decreases licenses.len(),
    {
        if licenses.len() > 0 {
            self.release_license(licenses[0]).lemma_release_each_frame(licenses.drop_first());
        }
    }

    // What the machine asks of a command: a record that is written is short
    // enough for a table.

    /// Whether an owner's record can take one identifier more.
    pub open spec fn room_in_owner(self, owner_id: u64) -> bool {
        self.owners.contains_key(owner_id) ==> owner_len(self.owners[owner_id]) + 8
            <= MAX_VALUE_BYTES
    }

    /// Whether a licensee's record can take one identifier more.
    pub open spec fn room_in_licensee(self, licensee_id: u64) -> bool {
        self.licensees.contains_key(licensee_id) ==> licensee_len(self.licensees[licensee_id]) + 8
            <= MAX_VALUE_BYTES
    }

    /// Whether the records that creating a song writes are short enough,
    /// and an identifier is left, where the command gets that far.
    pub open spec fn can_create_song(self, payload: SongPayloadView) -> bool {
        long_enough(payload.title) && self.owners.contains_key(payload.owner_id) ==> {
            &&& self.next_id < u64::MAX
            &&& song_fits(Self::new_song(0, payload))
            &&& self.room_in_owner(payload.owner_id)
        }
    }

    /// Whether the song that an update writes is short enough, where the
    /// command gets that far.
    pub open spec fn can_update_song(self, payload: UpdateSongPayloadView) -> bool {
        self.update_song(payload).result is Ok ==> song_fits(self.update_song(payload).result->Ok_0)
    }

    /// Whether the owner that a creation writes is short enough, and an
    /// identifier is left, where the command gets that far.
    pub open spec fn can_create_owner(self, payload: OwnerPayloadView) -> bool {
        long_enough(payload.name) ==> self.next_id < u64::MAX && owner_fits(
            Self::new_owner(0, payload),
        )
    }

    /// The same for a licensee.
    pub open spec fn can_create_licensee(self, payload: LicenseePayloadView) -> bool {
        long_enough(payload.name) ==> self.next_id < u64::MAX && licensee_fits(
            Self::new_licensee(0, payload),
        )
    }

    /// Whether an identifier is left and the license that a request writes
    /// is short enough, where the command gets that far.
    pub open spec fn can_request(self, payload: LicensePayloadView) -> bool {
        &&& self.next_id < u64::MAX
        &&& self.licensees.contains_key(payload.licensee_id) && self.songs.contains_key(
            payload.song_id,
        ) ==> license_fits(Self::new_license(0, 0, payload))
    }

    /// Whether the owner's and the licensee's record can take the license
    /// that an approval enters, where the command gets that far.
    pub open spec fn can_approve(self, payload: ApprovePayloadView) -> bool {
        self.licenses.contains_key(payload.license_id) ==> {
            let license = self.licenses[payload.license_id];
            self.owners.contains_key(license.owner_id) && self.owners[license.owner_id].auth_key
                == payload.auth_key && !license.approved ==> self.room_in_owner(license.owner_id)
                && self.room_in_licensee(license.licensee_id)
        }
    }

    // Songs.

    /// All songs by ascending identifier; `NotFound` where there is none.
    pub open spec fn get_all_songs(self) -> Result<Seq<SongView>, ErrorKind> {
        some_or_not_found(in_key_order(self.songs))
    }

    /// The song under an identifier; `NotFound` where there is none.
    pub open spec fn get_song(self, id: u64) -> Result<SongView, ErrorKind> {
        if self.songs.contains_key(id) {
            Ok(self.songs[id])
        } else {
            Err(ErrorKind::NotFound)
        }
    }

    /// The song that a payload asks for, under an identifier.
    pub open spec fn new_song(id: u64, payload: SongPayloadView) -> SongView {
        SongView {
            id,
            title: payload.title,
            artist: payload.artist,
            owner_id: payload.owner_id,
            year: payload.year,
            genre: payload.genre,
            price: payload.price,
        }
    }

    /// Creates a song. `InvalidPayload` where the title is too short, then
    /// `NotFound` where the owner does not exist; else the next identifier
    /// is taken, the song enters its owner's list, and the song is kept.
    /// Where a song was kept under that identifier already, it is replaced
    /// and the answer is `InvalidPayload`.
    pub open spec fn create_song(self, payload: SongPayloadView) -> Outcome<SongView> {
        if !long_enough(payload.title) {
            refused(self, ErrorKind::InvalidPayload)
        } else if !self.owners.contains_key(payload.owner_id) {
            refused(self, ErrorKind::NotFound)
        } else {
            let song = Self::new_song(self.next_id, payload);
            let counted = self.with_next_id((self.next_id + 1) as u64);
            let attached = counted.add_song_to_owner(song.owner_id, song.id).state;
            if attached.songs.contains_key(song.id) {
                refused(attached.with_song(song), ErrorKind::InvalidPayload)
            } else {
                done(attached.with_song(song), song)
            }
        }
    }

    /// The identifier, name and address of a song's owner; `NotFound` where
    /// the song or its owner does not exist.
    pub open spec fn get_song_owner(self, id: u64) -> Result<ReturnOwnerView, ErrorKind> {
        if !self.songs.contains_key(id) {
            Err(ErrorKind::NotFound)
        } else if !self.owners.contains_key(self.songs[id].owner_id) {
            Err(ErrorKind::NotFound)
        } else {
            let owner = self.owners[self.songs[id].owner_id];
            Ok(ReturnOwnerView { id: owner.id, name: owner.name, email: owner.email })
        }
    }

    /// The songs that a query matches, by ascending identifier; `NotFound`
    /// where there is none.
    pub open spec fn search_song_title_genre_year(self, query: Seq<char>) -> Result<
        Seq<SongView>,
        ErrorKind,
    > {
        some_or_not_found(
            in_key_order(self.songs).filter(|song: SongView| song_matches(song, query)),
        )
    }

    /// A song with the fields of a payload in place of its own; identifier
    /// and owner stay.
    pub open spec fn updated_song(song: SongView, payload: UpdateSongPayloadView) -> SongView {
        SongView {
            title: payload.title,
            artist: payload.artist,
            year: payload.year,
            genre: payload.genre,
            price: payload.price,
            ..song
        }
    }

    /// Updates a song. `InvalidPayload` where the title is too short,
    /// `NotFound` where the song or its owner does not exist, `Unauthorized`
    /// where the key is not the owner's; a refused update changes nothing.
    pub open spec fn update_song(self, payload: UpdateSongPayloadView) -> Outcome<SongView> {
        if !long_enough(payload.title) {
            refused(self, ErrorKind::InvalidPayload)
        } else if !self.songs.contains_key(payload.id) {
            refused(self, ErrorKind::NotFound)
        } else {
            let song = self.songs[payload.id];
            if !self.owners.contains_key(song.owner_id) {
                refused(self, ErrorKind::NotFound)
            } else if self.owners[song.owner_id].auth_key != payload.auth_key {
                refused(self, ErrorKind::Unauthorized)
            } else {
                let changed = Self::updated_song(song, payload);
                done(self.with_song(changed), changed)
            }
        }
    }

    /// Deletes a song. `NotFound` where the song or its owner does not
    /// exist, `InvalidPayload` where the key is not the owner's; else the
    /// deletion succeeds: the song leaves its owner's list, every license
    /// that refers to it leaves its licensee's and its owner's list and is
    /// kept as not approved, and the song goes. An entry that is not there,
    /// as that of a license that was never approved, is passed over.
    pub open spec fn delete_song(self, auth_key: Seq<char>, id: u64) -> Outcome<SongView> {
        if !self.songs.contains_key(id) {
            refused(self, ErrorKind::NotFound)
        } else {
            let song = self.songs[id];
            if !self.owners.contains_key(song.owner_id) {
                refused(self, ErrorKind::NotFound)
            } else if self.owners[song.owner_id].auth_key != auth_key {
                refused(self, ErrorKind::InvalidPayload)
            } else {
                let unlisted = self.remove_song_from_owner(id).state;
                let detached = unlisted.remove_song_from_licensee(id).state;
                let released = detached.release_licenses(song.id);
                done(released.without_song(id), song)
            }
        }
    }

    // Owners.

    /// The owner that a payload asks for, under an identifier.
    pub open spec fn new_owner(id: u64, payload: OwnerPayloadView) -> OwnerView {
        OwnerView {
            id,
            name: payload.name,
            email: payload.email,
            auth_key: payload.auth_key,
            song_ids: Seq::empty(),
            license_ids: Seq::empty(),
        }
    }

    /// Creates an owner. `InvalidPayload` where the name is too short; else
    /// the next identifier is taken and the owner is kept. Where an owner
    /// was kept under that identifier already, it is replaced and the
    /// answer is `InvalidPayload`.
    pub open spec fn create_owner(self, payload: OwnerPayloadView) -> Outcome<OwnerView> {
        if !long_enough(payload.name) {
            refused(self, ErrorKind::InvalidPayload)
        } else {
            let owner = Self::new_owner(self.next_id, payload);
            let counted = self.with_next_id((self.next_id + 1) as u64);
            if counted.owners.contains_key(owner.id) {
                refused(counted.with_owner(owner), ErrorKind::InvalidPayload)
            } else {
                done(counted.with_owner(owner), owner)
            }
        }
    }

    // Licenses.

    /// The license under an identifier; `NotFound` where there is none.
    pub open spec fn get_license(self, id: u64) -> Result<LicenseView, ErrorKind> {
        if self.licenses.contains_key(id) {
            Ok(self.licenses[id])
        } else {
            Err(ErrorKind::NotFound)
        }
    }

    /// The licenses of an owner, approved or not, by ascending identifier;
    /// `NotFound` where there is none.
    pub open spec fn get_owner_license_requests(self, owner_id: u64) -> Result<
        Seq<LicenseView>,
        ErrorKind,
    > {
        some_or_not_found(self.licenses_of(Party::Owner, owner_id))
    }

    /// The licenses of a licensee, approved or not, by ascending identifier;
    /// `NotFound` where there is none.
    pub open spec fn get_licensee_licenses(self, licensee_id: u64) -> Result<
        Seq<LicenseView>,
        ErrorKind,
    > {
        some_or_not_found(self.licenses_of(Party::Licensee, licensee_id))
    }

    /// The license that a payload asks for, under an identifier and with an
    /// owner: not approved, at no price.
    pub open spec fn new_license(id: u64, owner_id: u64, payload: LicensePayloadView) -> LicenseView {
        LicenseView {
            id,
            song_id: payload.song_id,
            owner_id,
            licensee_id: payload.licensee_id,
            approved: false,
            price: 0,
            start_date: payload.start_date,
            end_date: payload.end_date,
        }
    }

    /// Requests a license. The next identifier is taken first; then
    /// `NotFound` where the licensee or the song does not exist; else the
    /// license is kept, with the song's owner as its owner. No list changes.
    /// Where a license was kept under that identifier already, it is
    /// replaced and the answer is `InvalidPayload`.
    pub open spec fn create_license_request(self, payload: LicensePayloadView) -> Outcome<
        LicenseView,
    > {
        let counted = self.with_next_id((self.next_id + 1) as u64);
        if !counted.licensees.contains_key(payload.licensee_id) {
            refused(counted, ErrorKind::NotFound)
        } else if !counted.songs.contains_key(payload.song_id) {
            refused(counted, ErrorKind::NotFound)
        } else {
            let license = Self::new_license(
                self.next_id,
                counted.songs[payload.song_id].owner_id,
                payload,
            );
            if counted.licenses.contains_key(license.id) {
                refused(counted.with_license(license), ErrorKind::InvalidPayload)
            } else {
                done(counted.with_license(license), license)
            }
        }
    }

    /// Approves a license. `NotFound` where the license or its owner does
    /// not exist, `Unauthorized` where the key is not the owner's,
    /// `AlreadyApproved` where it is approved; else the license enters its
    /// owner's list, then its licensee's list, and is then kept as approved
    /// at the price given. Where the licensee does not exist the answer is
    /// `NotFound`, and the entry in the owner's list stays.
    pub open spec fn approve_license(self, payload: ApprovePayloadView) -> Outcome<LicenseView> {
        if !self.licenses.contains_key(payload.license_id) {
            refused(self, ErrorKind::NotFound)
        } else {
            let license = self.licenses[payload.license_id];
            if !self.owners.contains_key(license.owner_id) {
                refused(self, ErrorKind::NotFound)
            } else if self.owners[license.owner_id].auth_key != payload.auth_key {
                refused(self, ErrorKind::Unauthorized)
            } else if license.approved {
                refused(self, ErrorKind::AlreadyApproved)
            } else {
                let approved = LicenseView { approved: true, price: payload.cost, ..license };
                let attached = self.attach_license(
                    license.owner_id,
                    license.licensee_id,
                    license.id,
                );
                match attached.result {
                    Err(kind) => refused(attached.state, kind),
                    Ok(_) => done(attached.state.with_license(approved), approved),
                }
            }
        }
    }

    /// Revokes a license. `NotFound` where the license or its owner does not
    /// exist, `Unauthorized` where the key is not the owner's; else the
    /// license leaves its owner's list, then its licensee's list, and is
    /// then kept as not approved, at the price it had. Where it is in one of
    /// the lists no more the answer is `NotFound`, and what was taken off
    /// before stays off.
    pub open spec fn revoke_license(self, payload: ProtectedPayloadView) -> Outcome<LicenseView> {
        if !self.licenses.contains_key(payload.license_id) {
            refused(self, ErrorKind::NotFound)
        } else {
            let license = self.licenses[payload.license_id];
            if !self.owners.contains_key(license.owner_id) {
                refused(self, ErrorKind::NotFound)
            } else if self.owners[license.owner_id].auth_key != payload.auth_key {
                refused(self, ErrorKind::Unauthorized)
            } else {
                let revoked = LicenseView { approved: false, ..license };
                let detached = self.detach_license(
                    license.owner_id,
                    license.licensee_id,
                    license.id,
                );
                match detached.result {
                    Err(kind) => refused(detached.state, kind),
                    Ok(_) => done(detached.state.with_license(revoked), revoked),
                }
            }
        }
    }

    // Licensees.

    /// The licensee under an identifier; `NotFound` where there is none.
    pub open spec fn get_licensee(self, id: u64) -> Result<LicenseeView, ErrorKind> {
        if self.licensees.contains_key(id) {
            Ok(self.licensees[id])
        } else {
            Err(ErrorKind::NotFound)
        }
    }

    /// The licensee that a payload asks for, under an identifier.
    pub open spec fn new_licensee(id: u64, payload: LicenseePayloadView) -> LicenseeView {
        LicenseeView { id, name: payload.name, email: payload.email, licenses: Seq::empty() }
    }

    /// Creates a licensee. `InvalidPayload` where the name is too short;
    /// else the next identifier is taken and the licensee is kept. Where a
    /// licensee was kept under that identifier already, it is replaced and
    /// the answer is `InvalidPayload`.
    pub open spec fn create_licensee(self, payload: LicenseePayloadView) -> Outcome<LicenseeView> {
        if !long_enough(payload.name) {
            refused(self, ErrorKind::InvalidPayload)
        } else {
            let licensee = Self::new_licensee(self.next_id, payload);
            let counted = self.with_next_id((self.next_id + 1) as u64);
            if counted.licensees.contains_key(licensee.id) {
                refused(counted.with_licensee(licensee), ErrorKind::InvalidPayload)
            } else {
                done(counted.with_licensee(licensee), licensee)
            }
        }
    }
}

/// Two ascending sequences with the same elements are the same sequence.
pub proof fn lemma_ascending_unique(a: Seq<u64>, b: Seq<u64>)
    requires
        ascending(a),
        ascending(b),
        forall|key: u64| a.contains(key) <==> b.contains(key),
    ensures
        a == b,
    decreases a.len(),
{
    if a.len() == 0 {
        if b.len() > 0 {
            assert(b.contains(b[0]));
        }
        assert(a =~= b);
    } else {
        assert(a.contains(a.last()));
        assert(b.contains(a.last()));
        assert(b.len() > 0);
        assert(b.contains(b.last()));
        assert(a.contains(b.last()));
        let i = choose|i: int| 0 <= i < a.len() && a[i] == b.last();
        let j = choose|j: int| 0 <= j < b.len() && b[j] == a.last();
        assert(a.last() == b.last());
        let a0 = a.drop_last();
        let b0 = b.drop_last();
        assert forall|key: u64| a0.contains(key) <==> b0.contains(key) by {
            if a0.contains(key) {
                let x = choose|x: int| 0 <= x < a0.len() && a0[x] == key;
                assert(a[x] == key);
                assert(a.contains(key));
                let y = choose|y: int| 0 <= y < b.len() && b[y] == key;
                assert(key < a.last());
                assert(y < b.len() - 1);
                assert(b0[y] == key);
            }
            if b0.contains(key) {
                let x = choose|x: int| 0 <= x < b0.len() && b0[x] == key;
                assert(b[x] == key);
                assert(b.contains(key));
                let y = choose|y: int| 0 <= y < a.len() && a[y] == key;
                assert(key < b.last());
                assert(y < a.len() - 1);
                assert(a0[y] == key);
            }
        }
        lemma_ascending_unique(a0, b0);
        assert(a =~= a0.push(a.last()));
        assert(b =~= b0.push(b.last()));
    }
}

/// Any ascending listing of a map's keys is the listing in key order.
pub proof fn lemma_keys_in_order<V>(keys: Seq<u64>, map: Map<u64, V>)
    requires
        lists_keys(keys, map),
    ensures
        keys_in_order(map) == keys,
{
    let chosen = keys_in_order(map);
    assert(lists_keys(chosen, map));
    lemma_ascending_unique(chosen, keys);
}

/// Filtering one element more keeps what was kept and adds the element if
/// it passes.
pub proof fn lemma_filter_next<A>(all: Seq<A>, pred: spec_fn(A) -> bool, at: int)
    requires
        0 <= at < all.len(),
    ensures
        all.take(at + 1).filter(pred) == if pred(all[at]) {
            all.take(at).filter(pred).push(all[at])
        } else {
            all.take(at).filter(pred)
        },
{
    reveal(Seq::filter);
    assert(all.take(at + 1).drop_last() =~= all.take(at));
}

/// The position of the first `id` is where no earlier entry is `id`.
pub proof fn lemma_position(ids: Seq<u64>, id: u64, at: int)
    requires
        0 <= at <= ids.len(),
        forall|i: int| 0 <= i < at ==> ids[i] != id,
        at < ids.len() ==> ids[at] == id,
    ensures
        position(ids, id) == at,
        ids.contains(id) <==> at < ids.len(),
    decreases ids.len(),
{
    if ids.len() == 0 {
    } else if at == 0 {
    } else {
        let tail = ids.drop_first();
        assert forall|i: int| 0 <= i < at - 1 implies tail[i] != id by {
            assert(tail[i] == ids[i + 1]);
        }
        lemma_position(tail, id, at - 1);
        if ids.contains(id) {
            let x = choose|x: int| 0 <= x < ids.len() && ids[x] == id;
            assert(x >= at);
        }
    }
}

} // verus!
