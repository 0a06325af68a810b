//! What holds of the model: when a ledger's back-reference lists agree with
//! its songs and licenses, which commands keep them in agreement, and what
//! approving, revoking and deleting do to the lists.

use crate::entity::{
    ApprovePayloadView, ErrorKind, LicensePayloadView, LicenseView, LicenseePayloadView,
    LicenseeView, OwnerPayloadView, OwnerView, ProtectedPayloadView, SongPayloadView, SongView,
    UpdateSongPayloadView,
};
use crate::ledger::{
    has_listing, in_key_order, keys_in_order, lemma_keys_in_order, lists_keys, long_enough,
    occurrences, position, refers_to, refused, song_matches, without_first, Ledger, Party,
};
use crate::text::lowercase_text;
use vstd::prelude::*;

verus! {

/// One entry more raises the count of that entry by one and no other.
pub proof fn lemma_occurrences_push(ids: Seq<u64>, id: u64, other: u64)
    ensures
        occurrences(ids.push(id), other) == occurrences(ids, other) + if id == other {
            1nat
        } else {
            0nat
        },
{
    assert(ids.push(id).drop_last() =~= ids);
}

/// A list holds an identifier exactly if it holds it at least once.
pub proof fn lemma_occurrences_contains(ids: Seq<u64>, id: u64)
    ensures
        occurrences(ids, id) > 0 <==> ids.contains(id),
    decreases ids.len(),
{
    if ids.len() > 0 {
        let front = ids.drop_last();
        lemma_occurrences_contains(front, id);
        if ids.contains(id) {
            let i = choose|i: int| 0 <= i < ids.len() && ids[i] == id;
            if i < ids.len() - 1 {
                assert(front[i] == id);
            }
        }
        if front.contains(id) {
            let i = choose|i: int| 0 <= i < front.len() && front[i] == id;
            assert(ids[i] == id);
        }
        if ids.last() == id {
            assert(ids[ids.len() - 1] == id);
        }
    }
}

/// One entry less lowers the count of that entry by one and no other.
pub proof fn lemma_occurrences_remove(ids: Seq<u64>, at: int, other: u64)
    requires
        0 <= at < ids.len(),
    ensures
        occurrences(ids.remove(at), other) + (if ids[at] == other {
            1nat
        } else {
            0nat
        }) == occurrences(ids, other),
    decreases ids.len(),
{
    if at == ids.len() - 1 {
        assert(ids.remove(at) =~= ids.drop_last());
    } else {
        assert(ids.remove(at).drop_last() =~= ids.drop_last().remove(at));
        assert(ids.remove(at).last() == ids.last());
        lemma_occurrences_remove(ids.drop_last(), at, other);
    }
}

/// Where a list holds an identifier, its position is that of an entry
/// that is the identifier.
pub proof fn lemma_position_found(ids: Seq<u64>, id: u64)
    requires
        ids.contains(id),
    ensures
        0 <= position(ids, id) < ids.len(),
        ids[position(ids, id)] == id,
    decreases ids.len(),
{
    if ids[0] != id {
        let i = choose|i: int| 0 <= i < ids.len() && ids[i] == id;
        assert(ids.drop_first()[i - 1] == id);
        lemma_position_found(ids.drop_first(), id);
    }
}

/// Taking the first `id` off a list lowers the count of `id` by one and
/// leaves every other count as it was.
pub proof fn lemma_occurrences_without_first(ids: Seq<u64>, id: u64, other: u64)
    requires
        ids.contains(id),
    ensures
        occurrences(without_first(ids, id), other) + (if id == other {
            1nat
        } else {
            0nat
        }) == occurrences(ids, other),
{
    lemma_position_found(ids, id);
    lemma_occurrences_remove(ids, position(ids, id), other);
}

/// The counts of a list with one entry more.
pub proof fn lemma_pushed(ids: Seq<u64>, id: u64)
    ensures
        forall|other: u64| #[trigger]
            occurrences(ids.push(id), other) == occurrences(ids, other) + if id == other {
                1nat
            } else {
                0nat
            },
{
    assert forall|other: u64| #[trigger]
        occurrences(ids.push(id), other) == occurrences(ids, other) + if id == other {
            1nat
        } else {
            0nat
        } by {
        lemma_occurrences_push(ids, id, other);
    }
}

/// The counts and the length of a list with the first `id` taken off.
pub proof fn lemma_taken_off(ids: Seq<u64>, id: u64)
    requires
        ids.contains(id),
    ensures
        without_first(ids, id).len() + 1 == ids.len(),
        forall|other: u64|
            (#[trigger] occurrences(without_first(ids, id), other)) + (if id == other {
                1nat
            } else {
                0nat
            }) == occurrences(ids, other),
{
    lemma_position_found(ids, id);
    assert forall|other: u64|
        (#[trigger] occurrences(without_first(ids, id), other)) + (if id == other {
            1nat
        } else {
            0nat
        }) == occurrences(ids, other) by {
        lemma_occurrences_without_first(ids, id, other);
    }
}

impl Ledger {
    /// How often a song is entered in an owner's list of songs.
    pub open spec fn song_entries(self, owner_id: u64, song_id: u64) -> nat {
        occurrences(self.owners[owner_id].song_ids, song_id)
    }

    /// How often a license is entered in an owner's list of licenses.
    pub open spec fn owner_entries(self, owner_id: u64, license_id: u64) -> nat {
        occurrences(self.owners[owner_id].license_ids, license_id)
    }

    /// How often a license is entered in a licensee's list of licenses.
    pub open spec fn licensee_entries(self, licensee_id: u64, license_id: u64) -> nat {
        occurrences(self.licensees[licensee_id].licenses, license_id)
    }

    /// Every identifier in use was handed out: it is below the next one.
    pub open spec fn ids_fresh(self) -> bool {
        &&& forall|id: u64| #[trigger] self.songs.contains_key(id) ==> id < self.next_id
        &&& forall|id: u64| #[trigger] self.owners.contains_key(id) ==> id < self.next_id
        &&& forall|id: u64| #[trigger] self.licenses.contains_key(id) ==> id < self.next_id
        &&& forall|id: u64| #[trigger] self.licensees.contains_key(id) ==> id < self.next_id
        &&& forall|id: u64|
            self.licenses.contains_key(id) ==> (#[trigger] self.licenses[id]).song_id
                < self.next_id
        &&& forall|owner_id: u64, id: u64|
            self.owners.contains_key(owner_id) && id >= self.next_id ==> #[trigger] occurrences(
                self.owners[owner_id].song_ids,
                id,
            ) == 0
        &&& forall|owner_id: u64, id: u64|
            self.owners.contains_key(owner_id) && id >= self.next_id ==> #[trigger] occurrences(
                self.owners[owner_id].license_ids,
                id,
            ) == 0
        &&& forall|licensee_id: u64, id: u64|
            self.licensees.contains_key(licensee_id) && id >= self.next_id
                ==> #[trigger] occurrences(self.licensees[licensee_id].licenses, id) == 0
    }

    /// No identifier names records of two kinds.
    pub open spec fn kinds_apart(self) -> bool {
        &&& forall|id: u64| #[trigger]
            self.songs.contains_key(id) ==> !self.owners.contains_key(id)
                && !self.licenses.contains_key(id) && !self.licensees.contains_key(id)
        &&& forall|id: u64| #[trigger]
            self.owners.contains_key(id) ==> !self.licenses.contains_key(id)
                && !self.licensees.contains_key(id)
        &&& forall|id: u64| #[trigger]
            self.licenses.contains_key(id) ==> !self.licensees.contains_key(id)
    }

    /// Every song has its owner, every license its owner and its licensee,
    /// and a license's owner is its song's owner while the song exists.
    pub open spec fn references_resolve(self) -> bool {
        &&& forall|id: u64|
            self.songs.contains_key(id) ==> self.owners.contains_key(
                (#[trigger] self.songs[id]).owner_id,
            )
        &&& forall|id: u64|
            self.licenses.contains_key(id) ==> {
                let license = #[trigger] self.licenses[id];
                &&& self.owners.contains_key(license.owner_id)
                &&& self.licensees.contains_key(license.licensee_id)
                &&& self.songs.contains_key(license.song_id) ==> self.songs[license.song_id].owner_id
                    == license.owner_id
            }
    }

    /// An owner's list of songs holds each of the owner's songs once and
    /// nothing else.
    pub open spec fn songs_listed(self) -> bool {
        forall|owner_id: u64, song_id: u64|
            self.owners.contains_key(owner_id) ==> #[trigger] occurrences(
                self.owners[owner_id].song_ids,
                song_id,
            ) == if self.songs.contains_key(song_id) && self.songs[song_id].owner_id == owner_id {
                1nat
            } else {
                0nat
            }
    }

    /// Every license is entered once in its owner's and once in its
    /// licensee's list if it is approved, and in no list if it is not.
    pub open spec fn licenses_listed(self) -> bool {
        &&& forall|owner_id: u64, license_id: u64|
            self.owners.contains_key(owner_id) && self.licenses.contains_key(license_id)
                ==> #[trigger] occurrences(self.owners[owner_id].license_ids, license_id)
                == if self.licenses[license_id].owner_id == owner_id
                && self.licenses[license_id].approved {
                1nat
            } else {
                0nat
            }
        &&& forall|licensee_id: u64, license_id: u64|
            self.licensees.contains_key(licensee_id) && self.licenses.contains_key(license_id)
                ==> #[trigger] occurrences(self.licensees[licensee_id].licenses, license_id)
                == if self.licenses[license_id].licensee_id == licensee_id
                && self.licenses[license_id].approved {
                1nat
            } else {
                0nat
            }
    }

    /// The ledger's references and back-references agree.
    pub open spec fn coherent(self) -> bool {
        &&& self.keyed()
        &&& self.ids_fresh()
        &&& self.kinds_apart()
        &&& self.references_resolve()
        &&& self.songs_listed()
        &&& self.licenses_listed()
        &&& has_listing(self.licenses)
    }
}

/// A map that gets an entry under a key above all its keys can be listed
/// if it could be before.
proof fn lemma_listing_grows<V>(map: Map<u64, V>, key: u64, value: V)
    requires
        has_listing(map),
        forall|other: u64| map.contains_key(other) ==> other < key,
    ensures
        has_listing(map.insert(key, value)),
{
    let keys = keys_in_order(map);
    let more = keys.push(key);
    assert(lists_keys(keys, map));
    assert forall|i: int, j: int| 0 <= i < j < more.len() implies more[i] < more[j] by {
        if j == keys.len() {
            assert(keys.contains(keys[i]));
            assert(map.contains_key(keys[i]));
        }
    }
    assert forall|other: u64| map.insert(key, value).contains_key(other) <==> more.contains(
        other,
    ) by {
        if map.contains_key(other) {
            assert(keys.contains(other));
            let i = choose|i: int| 0 <= i < keys.len() && keys[i] == other;
            assert(more[i] == other);
        }
        if other == key {
            assert(more[keys.len() as int] == key);
        }
        if more.contains(other) {
            let i = choose|i: int| 0 <= i < more.len() && more[i] == other;
            if i < keys.len() {
                assert(keys.contains(keys[i]));
            }
        }
    }
    assert(lists_keys(more, map.insert(key, value)));
    lemma_keys_in_order(more, map.insert(key, value));
}

/// A map that gets a new value under one of its keys can be listed if it
/// could be before.
proof fn lemma_listing_stays<V>(map: Map<u64, V>, key: u64, value: V)
    requires
        has_listing(map),
        map.contains_key(key),
    ensures
        has_listing(map.insert(key, value)),
{
    let keys = keys_in_order(map);
    assert(lists_keys(keys, map.insert(key, value)));
    lemma_keys_in_order(keys, map.insert(key, value));
}

/// The empty ledger is coherent.
pub proof fn law_empty_is_coherent()
    ensures
        Ledger::empty().coherent(),
{
    let none = Ledger::empty().licenses;
    assert(lists_keys(Seq::<u64>::empty(), none));
    lemma_keys_in_order(Seq::<u64>::empty(), none);
}

/// A song that has just been created has its owner: asking for the owner
/// gives the owner whose identifier the song carries.
pub proof fn law_created_song_has_owner(before: Ledger, payload: SongPayloadView)
    requires
        before.keyed(),
        before.create_song(payload).result is Ok,
    ensures
        ({
            let created = before.create_song(payload);
            let song = created.result->Ok_0;
            let owner = created.state.get_song_owner(song.id);
            &&& created.state.get_song(song.id) == Ok::<_, ErrorKind>(song)
            &&& owner is Ok
            &&& owner->Ok_0.id == song.owner_id
            &&& song.owner_id == payload.owner_id
        }),
{
}

/// In a coherent ledger every song has its owner: asking for the owner of
/// a song gives the owner whose identifier the song carries.
pub proof fn law_song_owner(ledger: Ledger, song_id: u64)
    requires
        ledger.coherent(),
        ledger.songs.contains_key(song_id),
    ensures
        ledger.get_song_owner(song_id) is Ok,
        ledger.get_song_owner(song_id)->Ok_0.id == ledger.songs[song_id].owner_id,
{
}

/// A request for a license changes no owner and no licensee, whatever
/// comes of it; the license it creates is not approved and costs nothing.
pub proof fn law_request_leaves_lists(before: Ledger, payload: LicensePayloadView)
    ensures
        before.create_license_request(payload).state.owners == before.owners,
        before.create_license_request(payload).state.licensees == before.licensees,
        before.create_license_request(payload).state.songs == before.songs,
        before.create_license_request(payload).result is Ok ==> {
            let license = before.create_license_request(payload).result->Ok_0;
            &&& !license.approved
            &&& license.price == 0
            &&& license.id == before.next_id
            &&& license.owner_id == before.songs[payload.song_id].owner_id
        },
{
}

/// In a coherent ledger a license that has just been requested is in no
/// owner's and no licensee's list.
pub proof fn law_request_is_unlisted(
    before: Ledger,
    payload: LicensePayloadView,
    owner_id: u64,
    licensee_id: u64,
)
    requires
        before.coherent(),
        before.create_license_request(payload).result is Ok,
    ensures
        ({
            let after = before.create_license_request(payload).state;
            let license = before.create_license_request(payload).result->Ok_0;
            &&& after.owners.contains_key(owner_id) ==> after.owner_entries(owner_id, license.id)
                == 0
            &&& after.licensees.contains_key(licensee_id) ==> after.licensee_entries(
                licensee_id,
                license.id,
            ) == 0
        }),
{
}

/// A coherent ledger with one identifier more handed out is coherent.
proof fn lemma_counted_is_coherent(before: Ledger)
    requires
        before.coherent(),
        before.next_id < u64::MAX,
    ensures
        before.with_next_id((before.next_id + 1) as u64).coherent(),
{
}

/// What the lists of owners count after one owner's record has been put:
/// the lists of the record that was put, and the old lists of every other.
proof fn lemma_owner_put(before: Ledger, owner: OwnerView)
    ensures
        forall|owner_id: u64, id: u64| #[trigger]
            occurrences(before.with_owner(owner).owners[owner_id].song_ids, id)
                == if owner_id == owner.id {
                occurrences(owner.song_ids, id)
            } else {
                occurrences(before.owners[owner_id].song_ids, id)
            },
        forall|owner_id: u64, id: u64| #[trigger]
            occurrences(before.with_owner(owner).owners[owner_id].license_ids, id)
                == if owner_id == owner.id {
                occurrences(owner.license_ids, id)
            } else {
                occurrences(before.owners[owner_id].license_ids, id)
            },
        forall|id: u64| owner.song_ids.len() == 0 ==> #[trigger] occurrences(owner.song_ids, id) == 0,
        forall|id: u64|
            owner.license_ids.len() == 0 ==> #[trigger] occurrences(owner.license_ids, id) == 0,
{
    let after = before.with_owner(owner);
    assert forall|owner_id: u64, id: u64| #[trigger]
        occurrences(after.owners[owner_id].song_ids, id) == if owner_id == owner.id {
            occurrences(owner.song_ids, id)
        } else {
            occurrences(before.owners[owner_id].song_ids, id)
        } by {
        if owner_id != owner.id {
            assert(after.owners[owner_id] == before.owners[owner_id]);
        }
    }
    assert forall|owner_id: u64, id: u64| #[trigger]
        occurrences(after.owners[owner_id].license_ids, id) == if owner_id == owner.id {
            occurrences(owner.license_ids, id)
        } else {
            occurrences(before.owners[owner_id].license_ids, id)
        } by {
        if owner_id != owner.id {
            assert(after.owners[owner_id] == before.owners[owner_id]);
        }
    }
}

/// The same for licensees.
proof fn lemma_licensee_put(before: Ledger, licensee: LicenseeView)
    ensures
        forall|licensee_id: u64, id: u64| #[trigger]
            occurrences(before.with_licensee(licensee).licensees[licensee_id].licenses, id)
                == if licensee_id == licensee.id {
                occurrences(licensee.licenses, id)
            } else {
                occurrences(before.licensees[licensee_id].licenses, id)
            },
        forall|id: u64|
            licensee.licenses.len() == 0 ==> #[trigger] occurrences(licensee.licenses, id) == 0,
{
    let after = before.with_licensee(licensee);
    assert forall|licensee_id: u64, id: u64| #[trigger]
        occurrences(after.licensees[licensee_id].licenses, id) == if licensee_id == licensee.id {
            occurrences(licensee.licenses, id)
        } else {
            occurrences(before.licensees[licensee_id].licenses, id)
        } by {
        if licensee_id != licensee.id {
            assert(after.licensees[licensee_id] == before.licensees[licensee_id]);
        }
    }
}

/// Creating an owner keeps a coherent ledger coherent. It succeeds where
/// the name is long enough, whatever the address and the key; a refused
/// creation changes nothing.
pub proof fn law_create_owner_keeps_coherence(before: Ledger, payload: OwnerPayloadView)
    requires
        before.coherent(),
        before.next_id < u64::MAX,
    ensures
        before.create_owner(payload).state.coherent(),
        long_enough(payload.name) <==> before.create_owner(payload).result is Ok,
        before.create_owner(payload).result is Err ==> before.create_owner(payload)
            == refused::<OwnerView>(before, ErrorKind::InvalidPayload),
{
    if long_enough(payload.name) {
        let counted = before.with_next_id((before.next_id + 1) as u64);
        lemma_counted_is_coherent(before);
        let owner = Ledger::new_owner(before.next_id, payload);
        let after = counted.with_owner(owner);
        assert(!counted.owners.contains_key(owner.id));
        assert(before.create_owner(payload).state == after);
        lemma_owner_put(counted, owner);
        assert(after.ids_fresh());
        assert(after.kinds_apart());
        assert(after.references_resolve());
        assert(after.songs_listed());
        assert(after.licenses_listed());
    }
}

/// Creating a licensee keeps a coherent ledger coherent. It succeeds where
/// the name is long enough; a refused creation changes nothing.
pub proof fn law_create_licensee_keeps_coherence(before: Ledger, payload: LicenseePayloadView)
    requires
        before.coherent(),
        before.next_id < u64::MAX,
    ensures
        before.create_licensee(payload).state.coherent(),
        long_enough(payload.name) <==> before.create_licensee(payload).result is Ok,
        before.create_licensee(payload).result is Err ==> before.create_licensee(payload)
            == refused::<LicenseeView>(before, ErrorKind::InvalidPayload),
{
    if long_enough(payload.name) {
        let counted = before.with_next_id((before.next_id + 1) as u64);
        lemma_counted_is_coherent(before);
        let licensee = Ledger::new_licensee(before.next_id, payload);
        let after = counted.with_licensee(licensee);
        assert(!counted.licensees.contains_key(licensee.id));
        assert(before.create_licensee(payload).state == after);
        lemma_licensee_put(counted, licensee);
        assert(after.ids_fresh());
        assert(after.kinds_apart());
        assert(after.references_resolve());
        assert(after.songs_listed());
        assert(after.licenses_listed());
    }
}

/// Creating a song keeps a coherent ledger coherent. With a title long
/// enough and an owner that exists it succeeds, whatever the other fields:
/// the song is kept as the payload has it and is entered once, last, in its
/// owner's list; nothing else changes. A refused creation changes nothing.
pub proof fn law_create_song_keeps_coherence(before: Ledger, payload: SongPayloadView)
    requires
        before.coherent(),
        before.next_id < u64::MAX,
    ensures
        before.create_song(payload).state.coherent(),
        before.create_song(payload).result is Err ==> before.create_song(payload).state == before,
        !long_enough(payload.title) ==> before.create_song(payload).result == Err::<
            SongView,
            ErrorKind,
        >(ErrorKind::InvalidPayload),
        long_enough(payload.title) && !before.owners.contains_key(payload.owner_id)
            ==> before.create_song(payload).result == Err::<SongView, ErrorKind>(
            ErrorKind::NotFound,
        ),
        long_enough(payload.title) && before.owners.contains_key(payload.owner_id) ==> {
            let song = Ledger::new_song(before.next_id, payload);
            let owner = before.owners[payload.owner_id];
            let after = before.create_song(payload).state;
            &&& before.create_song(payload).result == Ok::<SongView, ErrorKind>(song)
            &&& after.songs == before.songs.insert(song.id, song)
            &&& after.owners == before.owners.insert(
                payload.owner_id,
                OwnerView { song_ids: owner.song_ids.push(song.id), ..owner },
            )
            &&& after.licenses == before.licenses
            &&& after.licensees == before.licensees
            &&& after.song_entries(payload.owner_id, song.id) == 1
        },
{
    if long_enough(payload.title) && before.owners.contains_key(payload.owner_id) {
        let counted = before.with_next_id((before.next_id + 1) as u64);
        lemma_counted_is_coherent(before);
        let song = Ledger::new_song(before.next_id, payload);
        let owner = counted.owners[song.owner_id];
        let listed = OwnerView { song_ids: owner.song_ids.push(song.id), ..owner };
        let attached = counted.with_owner(listed);
        let after = attached.with_song(song);
        assert(!attached.songs.contains_key(song.id));
        assert(before.create_song(payload).state == after);
        lemma_owner_put(counted, listed);
        lemma_pushed(owner.song_ids, song.id);
        assert(occurrences(owner.song_ids, song.id) == 0);
        assert(after.keyed());
        assert(after.ids_fresh());
        assert(after.kinds_apart());
        assert(after.references_resolve());
        assert(after.songs_listed());
        assert(after.licenses_listed());
    }
}

/// Updating a song keeps a coherent ledger coherent. With the owner's key
/// and a title long enough it succeeds, whatever the other fields: only the
/// song changes, and it keeps its identifier and its owner. A refused
/// update changes nothing.
pub proof fn law_update_song_keeps_coherence(before: Ledger, payload: UpdateSongPayloadView)
    requires
        before.coherent(),
    ensures
        before.update_song(payload).state.coherent(),
        before.update_song(payload).result is Err ==> before.update_song(payload).state == before,
        long_enough(payload.title) && before.songs.contains_key(payload.id)
            && before.owners[before.songs[payload.id].owner_id].auth_key == payload.auth_key ==> {
            let changed = Ledger::updated_song(before.songs[payload.id], payload);
            &&& before.update_song(payload).result == Ok::<SongView, ErrorKind>(changed)
            &&& before.update_song(payload).state == (Ledger {
                songs: before.songs.insert(payload.id, changed),
                ..before
            })
        },
{
    if before.update_song(payload).result is Ok {
        let song = before.songs[payload.id];
        let changed = Ledger::updated_song(song, payload);
        let after = before.with_song(changed);
        assert(before.update_song(payload).state == after);
        assert(changed.id == payload.id);
        assert(after.keyed());
        assert(after.ids_fresh());
        assert(after.kinds_apart());
        assert(after.references_resolve());
        assert(after.songs_listed());
        assert(after.licenses_listed());
    }
}

/// Requesting a license keeps a coherent ledger coherent. It succeeds
/// exactly where the licensee and the song exist, whatever the dates; a
/// refused request is refused as not found and changes nothing but the
/// next identifier.
pub proof fn law_request_keeps_coherence(before: Ledger, payload: LicensePayloadView)
    requires
        before.coherent(),
        before.next_id < u64::MAX,
    ensures
        before.create_license_request(payload).state.coherent(),
        before.create_license_request(payload).result is Ok <==> before.licensees.contains_key(
            payload.licensee_id,
        ) && before.songs.contains_key(payload.song_id),
        before.create_license_request(payload).result is Err ==> before.create_license_request(
            payload,
        ) == refused::<LicenseView>(
            before.with_next_id((before.next_id + 1) as u64),
            ErrorKind::NotFound,
        ),
        before.create_license_request(payload).result is Ok ==> before.create_license_request(
            payload,
        ).state.licenses == before.licenses.insert(
            before.next_id,
            before.create_license_request(payload).result->Ok_0,
        ),
{
    let counted = before.with_next_id((before.next_id + 1) as u64);
    lemma_counted_is_coherent(before);
    if before.licensees.contains_key(payload.licensee_id) && before.songs.contains_key(
        payload.song_id,
    ) {
        let license = Ledger::new_license(
            before.next_id,
            counted.songs[payload.song_id].owner_id,
            payload,
        );
        let after = counted.with_license(license);
        assert(!counted.licenses.contains_key(license.id));
        assert(before.create_license_request(payload).state == after);
        lemma_listing_grows(counted.licenses, license.id, license);
        assert(after.keyed());
        assert(after.ids_fresh());
        assert(after.kinds_apart());
        assert(after.references_resolve());
        assert(after.songs_listed());
        assert(after.licenses_listed());
    }
}

/// Approving: in a coherent ledger, approving a license that is not
/// approved, with the owner's key, succeeds. The license is then entered
/// exactly once, last, in its owner's and in its licensee's list, in
/// neither of which it was, and is kept as approved at the price given.
/// Approving it again is refused as already approved and changes nothing.
/// Whatever comes of an approval, the ledger stays coherent, and a refused
/// approval changes nothing.
pub proof fn law_approve(before: Ledger, payload: ApprovePayloadView)
    requires
        before.coherent(),
    ensures
        ({
            let outcome = before.approve_license(payload);
            let after = outcome.state;
            let license = before.licenses[payload.license_id];
            let owner = before.owners[license.owner_id];
            let licensee = before.licensees[license.licensee_id];
            &&& after.coherent()
            &&& outcome.result is Err ==> after == before
            &&& before.licenses.contains_key(payload.license_id) && owner.auth_key
                == payload.auth_key && !license.approved ==> {
                let approved = LicenseView { approved: true, price: payload.cost, ..license };
                &&& outcome.result == Ok::<LicenseView, ErrorKind>(approved)
                &&& after.licenses == before.licenses.insert(license.id, approved)
                &&& after.owners == before.owners.insert(
                    license.owner_id,
                    OwnerView { license_ids: owner.license_ids.push(license.id), ..owner },
                )
                &&& after.licensees == before.licensees.insert(
                    license.licensee_id,
                    LicenseeView { licenses: licensee.licenses.push(license.id), ..licensee },
                )
                &&& after.songs == before.songs
                &&& before.owner_entries(license.owner_id, license.id) == 0
                &&& before.licensee_entries(license.licensee_id, license.id) == 0
                &&& after.owner_entries(license.owner_id, license.id) == 1
                &&& after.licensee_entries(license.licensee_id, license.id) == 1
                &&& after.approve_license(payload) == refused::<LicenseView>(
                    after,
                    ErrorKind::AlreadyApproved,
                )
            }
        }),
{
    let outcome = before.approve_license(payload);
    if before.licenses.contains_key(payload.license_id) {
        let license = before.licenses[payload.license_id];
        assert(license.id == payload.license_id);
        assert(before.owners.contains_key(license.owner_id));
        assert(before.licensees.contains_key(license.licensee_id));
        let owner = before.owners[license.owner_id];
        let licensee = before.licensees[license.licensee_id];
        assert(owner.id == license.owner_id);
        assert(licensee.id == license.licensee_id);
        if owner.auth_key == payload.auth_key && !license.approved {
            let listed = OwnerView { license_ids: owner.license_ids.push(license.id), ..owner };
            let held = LicenseeView { licenses: licensee.licenses.push(license.id), ..licensee };
            let approved = LicenseView { approved: true, price: payload.cost, ..license };
            let first = before.with_owner(listed);
            let second = first.with_licensee(held);
            let after = second.with_license(approved);
            assert(outcome.state == after);
            assert(outcome.result == Ok::<LicenseView, ErrorKind>(approved));
            lemma_owner_put(before, listed);
            lemma_licensee_put(first, held);
            lemma_pushed(owner.license_ids, license.id);
            lemma_pushed(licensee.licenses, license.id);
            lemma_listing_stays(second.licenses, license.id, approved);
            assert(occurrences(owner.license_ids, license.id) == 0);
            assert(occurrences(licensee.licenses, license.id) == 0);
            assert(after.keyed());
            assert(after.ids_fresh());
            assert(after.kinds_apart());
            assert(after.references_resolve());
            assert(after.songs_listed());
            assert(after.licenses_listed());
        }
    }
}

/// Revoking: in a coherent ledger, revoking an approved license with the
/// owner's key succeeds: the license leaves its owner's and its licensee's
/// list, in each of which it was entered once, every other entry and every
/// other record stays, and the price stays. Revoking a license that is not
/// approved is refused as not found and changes nothing. Whatever comes of
/// it, the ledger stays coherent, and a refused revocation changes nothing.
pub proof fn law_revoke(before: Ledger, payload: ProtectedPayloadView)
    requires
        before.coherent(),
    ensures
        ({
            let outcome = before.revoke_license(payload);
            let after = outcome.state;
            let license = before.licenses[payload.license_id];
            let owner = before.owners[license.owner_id];
            let licensee = before.licensees[license.licensee_id];
            let authorized = before.licenses.contains_key(payload.license_id) && owner.auth_key
                == payload.auth_key;
            &&& after.coherent()
            &&& outcome.result is Err ==> after == before
            &&& authorized && license.approved ==> {
                &&& outcome.result == Ok::<LicenseView, ErrorKind>(
                    LicenseView { approved: false, ..license },
                )
                &&& before.owner_entries(license.owner_id, license.id) == 1
                &&& before.licensee_entries(license.licensee_id, license.id) == 1
                &&& after.owner_entries(license.owner_id, license.id) == 0
                &&& after.licensee_entries(license.licensee_id, license.id) == 0
                &&& after.owners == before.owners.insert(
                    license.owner_id,
                    OwnerView {
                        license_ids: without_first(owner.license_ids, license.id),
                        ..owner
                    },
                )
                &&& after.licensees == before.licensees.insert(
                    license.licensee_id,
                    LicenseeView {
                        licenses: without_first(licensee.licenses, license.id),
                        ..licensee
                    },
                )
                &&& after.licenses == before.licenses.insert(
                    license.id,
                    LicenseView { approved: false, ..license },
                )
                &&& after.songs == before.songs
            }
            &&& authorized && !license.approved ==> outcome == refused::<LicenseView>(
                before,
                ErrorKind::NotFound,
            )
        }),
{
    let outcome = before.revoke_license(payload);
    if before.licenses.contains_key(payload.license_id) {
        let license = before.licenses[payload.license_id];
        assert(license.id == payload.license_id);
        assert(before.owners.contains_key(license.owner_id));
        assert(before.licensees.contains_key(license.licensee_id));
        let owner = before.owners[license.owner_id];
        let licensee = before.licensees[license.licensee_id];
        assert(owner.id == license.owner_id);
        assert(licensee.id == license.licensee_id);
        lemma_occurrences_contains(owner.license_ids, license.id);
        lemma_occurrences_contains(licensee.licenses, license.id);
        if owner.auth_key == payload.auth_key {
            if !license.approved {
                assert(occurrences(owner.license_ids, license.id) == 0);
            } else {
                assert(occurrences(owner.license_ids, license.id) == 1);
                assert(occurrences(licensee.licenses, license.id) == 1);
                let listed = OwnerView {
                    license_ids: without_first(owner.license_ids, license.id),
                    ..owner
                };
                let held = LicenseeView {
                    licenses: without_first(licensee.licenses, license.id),
                    ..licensee
                };
                let revoked = LicenseView { approved: false, ..license };
                lemma_taken_off(owner.license_ids, license.id);
                lemma_taken_off(licensee.licenses, license.id);
                let first = before.with_owner(listed);
                let second = first.with_licensee(held);
                let after = second.with_license(revoked);
                assert(outcome.state == after);
                lemma_owner_put(before, listed);
                lemma_licensee_put(first, held);
                lemma_listing_stays(second.licenses, license.id, revoked);
                assert(after.keyed());
                assert(after.ids_fresh());
                assert(after.kinds_apart());
                assert(after.references_resolve());
                assert(after.songs_listed());
                assert(after.licenses_listed());
            }
        }
    }
}

/// Listing by key: where a map can be listed, its values by ascending key
/// are one value for each key, in the order of the keys.
pub proof fn law_in_key_order<V>(map: Map<u64, V>)
    requires
        has_listing(map),
    ensures
        ({
            let keys = keys_in_order(map);
            let values = in_key_order(map);
            &&& values.len() == keys.len()
            &&& forall|i: int, j: int| 0 <= i < j < keys.len() ==> keys[i] < keys[j]
            &&& forall|i: int|
                0 <= i < keys.len() ==> map.contains_key(#[trigger] keys[i]) && values[i]
                    == map[keys[i]]
            &&& forall|key: u64| map.contains_key(key) ==> keys.contains(key)
        }),
{
    let keys = keys_in_order(map);
    assert(lists_keys(keys, map));
    assert forall|i: int| 0 <= i < keys.len() implies map.contains_key(#[trigger] keys[i]) by {
        assert(keys.contains(keys[i]));
    }
}

/// Searching ignores the case of letters in the query: two queries with
/// the same lower-case form find the same songs.
pub proof fn law_search_ignores_case(ledger: Ledger, first: Seq<char>, second: Seq<char>)
    requires
        lowercase_text(first) == lowercase_text(second),
    ensures
        ledger.search_song_title_genre_year(first) == ledger.search_song_title_genre_year(second),
{
    let by_first = |song: SongView| song_matches(song, first);
    let by_second = |song: SongView| song_matches(song, second);
    assert forall|song: SongView| #[trigger] by_first(song) == by_second(song) by {}
    assert(by_first =~= by_second);
}

/// Searching finds the songs that match and no others: a song is among
/// those found exactly if it is a song of the ledger that the query
/// matches.
pub proof fn law_search_finds_matches(ledger: Ledger, query: Seq<char>, song: SongView)
    requires
        ledger.keyed(),
        has_listing(ledger.songs),
    ensures
        ({
            let found = in_key_order(ledger.songs).filter(
                |song: SongView| song_matches(song, query),
            );
            let is_match = ledger.songs.contains_key(song.id) && ledger.songs[song.id] == song
                && song_matches(song, query);
            &&& found.contains(song) <==> is_match
            &&& ledger.search_song_title_genre_year(query) is Ok <==> exists|id: u64|
                ledger.songs.contains_key(id) && song_matches(#[trigger] ledger.songs[id], query)
        }),
{
    let all = in_key_order(ledger.songs);
    let keys = keys_in_order(ledger.songs);
    let wanted = |song: SongView| song_matches(song, query);
    let found = all.filter(wanted);
    law_in_key_order(ledger.songs);
    if found.contains(song) {
        let i = choose|i: int| 0 <= i < found.len() && found[i] == song;
        all.lemma_filter_pred(wanted, i);
        all.lemma_filter_contains_rev(wanted, song);
        let j = choose|j: int| 0 <= j < all.len() && all[j] == song;
        assert(all[j] == ledger.songs[keys[j]]);
    }
    if ledger.songs.contains_key(song.id) && ledger.songs[song.id] == song && song_matches(
        song,
        query,
    ) {
        assert(keys.contains(song.id));
        let j = choose|j: int| 0 <= j < keys.len() && keys[j] == song.id;
        assert(all[j] == song);
        all.lemma_filter_contains(wanted, j);
    }
    if found.len() > 0 {
        all.lemma_filter_pred(wanted, 0);
        assert(found.contains(found[0]));
        all.lemma_filter_contains_rev(wanted, found[0]);
        let j = choose|j: int| 0 <= j < all.len() && all[j] == found[0];
        assert(all[j] == ledger.songs[keys[j]]);
        assert(song_matches(ledger.songs[keys[j]], query));
    }
    if exists|id: u64|
        ledger.songs.contains_key(id) && song_matches(#[trigger] ledger.songs[id], query) {
        let id = choose|id: u64|
            ledger.songs.contains_key(id) && song_matches(#[trigger] ledger.songs[id], query);
        assert(keys.contains(id));
        let j = choose|j: int| 0 <= j < keys.len() && keys[j] == id;
        assert(all[j] == ledger.songs[id]);
        all.lemma_filter_contains(wanted, j);
    }
}

/// Identifiers rise: a record that is created gets the identifier that was
/// next, whatever its kind, and the next identifier is then one higher; no
/// command lowers the next identifier, and only creations raise it.
pub proof fn law_identifiers_rise(
    before: Ledger,
    song: SongPayloadView,
    owner: OwnerPayloadView,
    licensee: LicenseePayloadView,
    request: LicensePayloadView,
    update: UpdateSongPayloadView,
    approve: ApprovePayloadView,
    revoke: ProtectedPayloadView,
    auth_key: Seq<char>,
    song_id: u64,
)
    requires
        before.next_id < u64::MAX,
    ensures
        before.create_song(song).result is Ok ==> before.create_song(song).result->Ok_0.id
            == before.next_id && before.create_song(song).state.next_id == before.next_id + 1,
        before.create_owner(owner).result is Ok ==> before.create_owner(owner).result->Ok_0.id
            == before.next_id && before.create_owner(owner).state.next_id == before.next_id + 1,
        before.create_licensee(licensee).result is Ok ==> before.create_licensee(
            licensee,
        ).result->Ok_0.id == before.next_id && before.create_licensee(licensee).state.next_id
            == before.next_id + 1,
        before.create_license_request(request).result is Ok ==> before.create_license_request(
            request,
        ).result->Ok_0.id == before.next_id,
        before.create_license_request(request).state.next_id == before.next_id + 1,
        before.create_song(song).state.next_id >= before.next_id,
        before.create_owner(owner).state.next_id >= before.next_id,
        before.create_licensee(licensee).state.next_id >= before.next_id,
        before.update_song(update).state.next_id == before.next_id,
        before.approve_license(approve).state.next_id == before.next_id,
        before.revoke_license(revoke).state.next_id == before.next_id,
        before.delete_song(auth_key, song_id).state.next_id == before.next_id,
{
    if before.songs.contains_key(song_id) {
        let unlisted = before.remove_song_from_owner(song_id).state;
        let found = unlisted.licenses_of_song(unlisted.songs[song_id].id);
        unlisted.lemma_detach_each_frame(found);
        let detached = unlisted.detach_each(found);
        detached.lemma_release_each_frame(detached.licenses_of_song(before.songs[song_id].id));
    }
}

/// Whether one of `licenses` is the license `license_id` of the licensee
/// `licensee_id`.
pub open spec fn names(licenses: Seq<LicenseView>, licensee_id: u64, license_id: u64) -> bool {
    exists|i: int|
        0 <= i < licenses.len() && (#[trigger] licenses[i]).licensee_id == licensee_id
            && licenses[i].id == license_id
}

/// Filtering licenses that come by ascending identifier keeps exactly
/// those that pass, still by ascending identifier.
proof fn lemma_filtered(all: Seq<LicenseView>, pred: spec_fn(LicenseView) -> bool)
    requires
        forall|i: int, j: int| 0 <= i < j < all.len() ==> all[i].id < all[j].id,
    ensures
        forall|i: int|
            0 <= i < all.filter(pred).len() ==> pred(#[trigger] all.filter(pred)[i])
                && all.contains(all.filter(pred)[i]),
        forall|i: int, j: int|
            0 <= i < j < all.filter(pred).len() ==> all.filter(pred)[i].id < all.filter(
                pred,
            )[j].id,
        forall|i: int|
            0 <= i < all.len() && pred(#[trigger] all[i]) ==> all.filter(pred).contains(all[i]),
    decreases all.len(),
{
    reveal(Seq::filter);
    if all.len() > 0 {
        let front = all.drop_last();
        let last = all.last();
        lemma_filtered(front, pred);
        let kept_front = front.filter(pred);
        let kept = all.filter(pred);
        assert(kept == if pred(last) {
            kept_front.push(last)
        } else {
            kept_front
        });
        assert forall|i: int| 0 <= i < kept_front.len() implies all.contains(
            #[trigger] kept_front[i],
        ) && kept_front[i].id < last.id by {
            let x = choose|x: int| 0 <= x < front.len() && front[x] == kept_front[i];
            assert(all[x] == kept_front[i]);
        }
        assert forall|i: int| 0 <= i < kept.len() implies pred(#[trigger] kept[i])
            && all.contains(kept[i]) by {
            if i < kept_front.len() {
                assert(kept[i] == kept_front[i]);
            } else {
                assert(all[all.len() - 1] == last);
            }
        }
        assert forall|i: int, j: int| 0 <= i < j < kept.len() implies kept[i].id
            < kept[j].id by {
            if j < kept_front.len() {
                assert(kept[i] == kept_front[i] && kept[j] == kept_front[j]);
            } else {
                assert(kept[i] == kept_front[i]);
            }
        }
        assert forall|i: int| 0 <= i < all.len() && pred(#[trigger] all[i]) implies kept.contains(
            all[i],
        ) by {
            if i < front.len() {
                assert(front[i] == all[i]);
                assert(kept_front.contains(front[i]));
                let x = choose|x: int| 0 <= x < kept_front.len() && kept_front[x] == front[i];
                assert(kept[x] == all[i]);
            } else {
                assert(kept[kept.len() - 1] == last);
            }
        }
    }
}

/// The licenses that refer to a song: each is a license of the ledger that
/// refers to the song, no two have the same identifier, and none is
/// missing.
proof fn lemma_licenses_of_song(ledger: Ledger, song_id: u64)
    requires
        ledger.keyed(),
        has_listing(ledger.licenses),
    ensures
        ({
            let found = ledger.licenses_of_song(song_id);
            &&& forall|i: int|
                0 <= i < found.len() ==> {
                    let license = #[trigger] found[i];
                    &&& license.song_id == song_id
                    &&& ledger.licenses.contains_key(license.id)
                    &&& ledger.licenses[license.id] == license
                }
            &&& forall|i: int, j: int| 0 <= i < j < found.len() ==> found[i].id != found[j].id
            &&& forall|id: u64|
                ledger.licenses.contains_key(id) && (#[trigger] ledger.licenses[id]).song_id
                    == song_id ==> found.contains(ledger.licenses[id])
        }),
{
    let keys = keys_in_order(ledger.licenses);
    let all = in_key_order(ledger.licenses);
    let pred = |license: LicenseView| refers_to(license, Party::Song, song_id);
    let found = ledger.licenses_of_song(song_id);
    assert(lists_keys(keys, ledger.licenses));
    assert forall|i: int| 0 <= i < all.len() implies ledger.licenses.contains_key(keys[i])
        && (#[trigger] all[i]) == ledger.licenses[keys[i]] && all[i].id == keys[i] by {
        assert(keys.contains(keys[i]));
    }
    assert forall|i: int, j: int| 0 <= i < j < all.len() implies all[i].id < all[j].id by {
        assert(all[i].id == keys[i] && all[j].id == keys[j]);
    }
    lemma_filtered(all, pred);
    assert forall|i: int| 0 <= i < found.len() implies {
        let license = #[trigger] found[i];
        &&& license.song_id == song_id
        &&& ledger.licenses.contains_key(license.id)
        &&& ledger.licenses[license.id] == license
    } by {
        assert(pred(found[i]));
        assert(all.contains(found[i]));
        let x = choose|x: int| 0 <= x < all.len() && all[x] == found[i];
        assert(all[x] == ledger.licenses[keys[x]]);
    }
    assert forall|id: u64|
        ledger.licenses.contains_key(id) && (#[trigger] ledger.licenses[id]).song_id
            == song_id implies found.contains(ledger.licenses[id]) by {
        assert(keys.contains(id));
        let x = choose|x: int| 0 <= x < keys.len() && keys[x] == id;
        assert(all[x] == ledger.licenses[id]);
        assert(pred(all[x]));
    }
}

/// Whether one of `licenses` is the license `license_id` of the owner
/// `owner_id`.
pub open spec fn names_owner(licenses: Seq<LicenseView>, owner_id: u64, license_id: u64) -> bool {
    exists|i: int|
        0 <= i < licenses.len() && (#[trigger] licenses[i]).owner_id == owner_id && licenses[i].id
            == license_id
}

/// Whether one of `licenses` has the identifier `license_id`.
pub open spec fn holds(licenses: Seq<LicenseView>, license_id: u64) -> bool {
    exists|i: int| 0 <= i < licenses.len() && (#[trigger] licenses[i]).id == license_id
}

/// Taking licenses off their licensees' lists: each list loses one entry
/// for each of the licenses of its licensee that it holds, and nothing else
/// of any licensee changes.
proof fn lemma_detached(start: Ledger, licenses: Seq<LicenseView>)
    requires
        forall|id: u64|
            start.licensees.contains_key(id) ==> (#[trigger] start.licensees[id]).id == id,
        forall|i: int, j: int| 0 <= i < j < licenses.len() ==> licenses[i].id != licenses[j].id,
    ensures
        ({
            let end = start.detach_each(licenses);
            &&& end.licensees.dom() =~= start.licensees.dom()
            &&& forall|id: u64|
                end.licensees.contains_key(id) ==> {
                    let licensee = #[trigger] end.licensees[id];
                    &&& licensee.id == id
                    &&& licensee.name == start.licensees[id].name
                    &&& licensee.email == start.licensees[id].email
                }
            &&& forall|licensee_id: u64, license_id: u64|
                start.licensees.contains_key(licensee_id) ==> (#[trigger] occurrences(
                    end.licensees[licensee_id].licenses,
                    license_id,
                )) + (if names(licenses, licensee_id, license_id) && occurrences(
                    start.licensees[licensee_id].licenses,
                    license_id,
                ) >= 1 {
                    1nat
                } else {
                    0nat
                }) == occurrences(start.licensees[licensee_id].licenses, license_id)
        }),
    decreases licenses.len(),
{
    let end = start.detach_each(licenses);
    if licenses.len() == 0 {
    } else {
        let head = licenses[0];
        let rest = licenses.drop_first();
        let next = start.remove_license_from_licensee(head.licensee_id, head.id).state;
        let changed = start.licensees.contains_key(head.licensee_id)
            && start.licensees[head.licensee_id].licenses.contains(head.id);
        let licensee = start.licensees[head.licensee_id];
        let held = LicenseeView { licenses: without_first(licensee.licenses, head.id), ..licensee };
        if changed {
            assert(next == start.with_licensee(held));
            lemma_taken_off(licensee.licenses, head.id);
            lemma_licensee_put(start, held);
        } else {
            assert(next == start);
        }
        if start.licensees.contains_key(head.licensee_id) {
            lemma_occurrences_contains(licensee.licenses, head.id);
        }
        assert forall|i: int, j: int| 0 <= i < j < rest.len() implies rest[i].id != rest[j].id by {
            assert(rest[i] == licenses[i + 1] && rest[j] == licenses[j + 1]);
        }
        lemma_detached(next, rest);
        assert forall|licensee_id: u64, license_id: u64|
            start.licensees.contains_key(licensee_id) implies (#[trigger] occurrences(
            end.licensees[licensee_id].licenses,
            license_id,
        )) + (if names(licenses, licensee_id, license_id) && occurrences(
            start.licensees[licensee_id].licenses,
            license_id,
        ) >= 1 {
            1nat
        } else {
            0nat
        }) == occurrences(start.licensees[licensee_id].licenses, license_id) by {
            let first_is = head.licensee_id == licensee_id && head.id == license_id;
            let later_is = names(rest, licensee_id, license_id);
            if later_is {
                let i = choose|i: int|
                    0 <= i < rest.len() && (#[trigger] rest[i]).licensee_id == licensee_id
                        && rest[i].id == license_id;
                assert(licenses[i + 1] == rest[i]);
                assert(!first_is);
                assert(names(licenses, licensee_id, license_id));
            }
            if first_is {
                assert(licenses[0] == head);
                assert(names(licenses, licensee_id, license_id));
            }
            if names(licenses, licensee_id, license_id) {
                let i = choose|i: int|
                    0 <= i < licenses.len() && (#[trigger] licenses[i]).licensee_id
                        == licensee_id && licenses[i].id == license_id;
                if i > 0 {
                    assert(rest[i - 1] == licenses[i]);
                    assert(later_is);
                }
            }
            assert(next.licensees.contains_key(licensee_id));
            let at_start = occurrences(start.licensees[licensee_id].licenses, license_id);
            let at_next = occurrences(next.licensees[licensee_id].licenses, license_id);
            assert(at_next + (if first_is && at_start >= 1 {
                1nat
            } else {
                0nat
            }) == at_start);
            assert(occurrences(end.licensees[licensee_id].licenses, license_id) + (if later_is
                && at_next >= 1 {
                1nat
            } else {
                0nat
            }) == at_next);
        }
        assert forall|id: u64| end.licensees.contains_key(id) implies {
            let after = #[trigger] end.licensees[id];
            &&& after.id == id
            &&& after.name == start.licensees[id].name
            &&& after.email == start.licensees[id].email
        } by {
            assert(next.licensees.contains_key(id));
            let between = next.licensees[id];
            assert(between.id == id);
        }
    }
}

/// Releasing licenses: each owner's list loses one entry for each of the
/// licenses of that owner that it holds, each of the licenses is kept as
/// not approved, and nothing else of any owner or license changes.
proof fn lemma_released(start: Ledger, licenses: Seq<LicenseView>)
    requires
        forall|id: u64| start.owners.contains_key(id) ==> (#[trigger] start.owners[id]).id == id,
        forall|i: int, j: int| 0 <= i < j < licenses.len() ==> licenses[i].id != licenses[j].id,
        forall|i: int|
            0 <= i < licenses.len() ==> start.licenses.contains_key((#[trigger] licenses[i]).id)
                && start.licenses[licenses[i].id] == licenses[i],
    ensures
        ({
            let end = start.release_each(licenses);
            &&& end.owners.dom() =~= start.owners.dom()
            &&& end.licenses.dom() =~= start.licenses.dom()
            &&& forall|id: u64|
                end.owners.contains_key(id) ==> {
                    let owner = #[trigger] end.owners[id];
                    &&& owner.id == id
                    &&& owner.name == start.owners[id].name
                    &&& owner.email == start.owners[id].email
                    &&& owner.auth_key == start.owners[id].auth_key
                    &&& owner.song_ids == start.owners[id].song_ids
                }
            &&& forall|owner_id: u64, license_id: u64|
                start.owners.contains_key(owner_id) ==> (#[trigger] occurrences(
                    end.owners[owner_id].license_ids,
                    license_id,
                )) + (if names_owner(licenses, owner_id, license_id) && occurrences(
                    start.owners[owner_id].license_ids,
                    license_id,
                ) >= 1 {
                    1nat
                } else {
                    0nat
                }) == occurrences(start.owners[owner_id].license_ids, license_id)
            &&& forall|id: u64|
                start.licenses.contains_key(id) ==> (#[trigger] end.licenses[id]) == if holds(
                    licenses,
                    id,
                ) {
                    LicenseView { approved: false, ..start.licenses[id] }
                } else {
                    start.licenses[id]
                }
        }),
    decreases licenses.len(),
{
    let end = start.release_each(licenses);
    if licenses.len() == 0 {
        assert forall|id: u64| !holds(licenses, id) by {}
    } else {
        let head = licenses[0];
        let rest = licenses.drop_first();
        let unlisted = start.remove_license_from_owner(head.owner_id, head.id).state;
        let next = start.release_license(head);
        let changed = start.owners.contains_key(head.owner_id)
            && start.owners[head.owner_id].license_ids.contains(head.id);
        let owner = start.owners[head.owner_id];
        let listed = OwnerView { license_ids: without_first(owner.license_ids, head.id), ..owner };
        if changed {
            assert(unlisted == start.with_owner(listed));
            lemma_taken_off(owner.license_ids, head.id);
            lemma_owner_put(start, listed);
        } else {
            assert(unlisted == start);
        }
        if start.owners.contains_key(head.owner_id) {
            lemma_occurrences_contains(owner.license_ids, head.id);
        }
        assert(next.owners == unlisted.owners);
        assert(start.licenses[head.id] == head);
        let released = LicenseView { approved: false, ..head };
        assert(next.licenses =~= start.licenses.insert(head.id, released));
        assert forall|i: int, j: int| 0 <= i < j < rest.len() implies rest[i].id != rest[j].id by {
            assert(rest[i] == licenses[i + 1] && rest[j] == licenses[j + 1]);
        }
        assert forall|i: int| 0 <= i < rest.len() implies next.licenses.contains_key(
            (#[trigger] rest[i]).id,
        ) && next.licenses[rest[i].id] == rest[i] by {
            assert(rest[i] == licenses[i + 1]);
            assert(licenses[i + 1].id != licenses[0].id);
        }
        lemma_released(next, rest);
        assert forall|owner_id: u64, license_id: u64|
            start.owners.contains_key(owner_id) implies (#[trigger] occurrences(
            end.owners[owner_id].license_ids,
            license_id,
        )) + (if names_owner(licenses, owner_id, license_id) && occurrences(
            start.owners[owner_id].license_ids,
            license_id,
        ) >= 1 {
            1nat
        } else {
            0nat
        }) == occurrences(start.owners[owner_id].license_ids, license_id) by {
            let first_is = head.owner_id == owner_id && head.id == license_id;
            let later_is = names_owner(rest, owner_id, license_id);
            if later_is {
                let i = choose|i: int|
                    0 <= i < rest.len() && (#[trigger] rest[i]).owner_id == owner_id && rest[i].id
                        == license_id;
                assert(licenses[i + 1] == rest[i]);
                assert(!first_is);
                assert(names_owner(licenses, owner_id, license_id));
            }
            if first_is {
                assert(licenses[0] == head);
                assert(names_owner(licenses, owner_id, license_id));
            }
            if names_owner(licenses, owner_id, license_id) {
                let i = choose|i: int|
                    0 <= i < licenses.len() && (#[trigger] licenses[i]).owner_id == owner_id
                        && licenses[i].id == license_id;
                if i > 0 {
                    assert(rest[i - 1] == licenses[i]);
                    assert(later_is);
                }
            }
            assert(next.owners.contains_key(owner_id));
            let at_start = occurrences(start.owners[owner_id].license_ids, license_id);
            let at_next = occurrences(next.owners[owner_id].license_ids, license_id);
            assert(at_next + (if first_is && at_start >= 1 {
                1nat
            } else {
                0nat
            }) == at_start);
            assert(occurrences(end.owners[owner_id].license_ids, license_id) + (if later_is
                && at_next >= 1 {
                1nat
            } else {
                0nat
            }) == at_next);
        }
        assert forall|id: u64| end.owners.contains_key(id) implies {
            let after = #[trigger] end.owners[id];
            &&& after.id == id
            &&& after.name == start.owners[id].name
            &&& after.email == start.owners[id].email
            &&& after.auth_key == start.owners[id].auth_key
            &&& after.song_ids == start.owners[id].song_ids
        } by {
            assert(next.owners.contains_key(id));
            let between = next.owners[id];
            assert(between.id == id);
        }
        assert forall|id: u64| start.licenses.contains_key(id) implies (#[trigger] end.licenses[id])
            == if holds(licenses, id) {
            LicenseView { approved: false, ..start.licenses[id] }
        } else {
            start.licenses[id]
        } by {
            assert(next.licenses.contains_key(id));
            if holds(rest, id) {
                let i = choose|i: int| 0 <= i < rest.len() && (#[trigger] rest[i]).id == id;
                assert(licenses[i + 1] == rest[i]);
                assert(holds(licenses, id));
                assert(id != head.id);
            }
            if id == head.id {
                assert(licenses[0] == head);
                assert(holds(licenses, id));
            }
            if holds(licenses, id) {
                let i = choose|i: int| 0 <= i < licenses.len() && (#[trigger] licenses[i]).id == id;
                if i > 0 {
                    assert(rest[i - 1] == licenses[i]);
                    assert(holds(rest, id));
                }
            }
        }
    }
}

/// Deleting: with the owner's key, where the song and its owner exist, the
/// deletion succeeds and answers with the song, whether its licenses are
/// approved or not; a refused deletion changes nothing. After a deletion in
/// a coherent ledger the song is gone and cannot be got, it is in no
/// owner's list of songs, no license that referred to it is in any owner's
/// or any licensee's list, each of those licenses is kept as not approved
/// and is as it was in all else, every other license is as it was, and the
/// ledger is coherent.
pub proof fn law_delete_song(before: Ledger, auth_key: Seq<char>, id: u64)
    ensures
        ({
            let outcome = before.delete_song(auth_key, id);
            let after = outcome.state;
            &&& outcome.result is Err ==> after == before
            &&& before.songs.contains_key(id) && before.owners.contains_key(
                before.songs[id].owner_id,
            ) && before.owners[before.songs[id].owner_id].auth_key == auth_key ==> outcome.result
                == Ok::<SongView, ErrorKind>(before.songs[id])
            &&& before.coherent() && outcome.result is Ok ==> {
                &&& after.coherent()
                &&& after.songs == before.songs.remove(id)
                &&& after.get_song(id) == Err::<SongView, ErrorKind>(ErrorKind::NotFound)
                &&& after.licensees.dom() == before.licensees.dom()
                &&& after.owners.dom() == before.owners.dom()
                &&& after.licenses.dom() == before.licenses.dom()
                &&& forall|owner_id: u64|
                    after.owners.contains_key(owner_id) ==> #[trigger] after.song_entries(
                        owner_id,
                        id,
                    ) == 0
                &&& forall|license_id: u64|
                    before.licenses.contains_key(license_id) ==> (#[trigger] after.licenses[license_id])
                        == if before.licenses[license_id].song_id == id {
                        LicenseView { approved: false, ..before.licenses[license_id] }
                    } else {
                        before.licenses[license_id]
                    }
                &&& forall|owner_id: u64, license_id: u64|
                    after.owners.contains_key(owner_id) && before.licenses.contains_key(license_id)
                        && before.licenses[license_id].song_id == id
                        ==> #[trigger] after.owner_entries(owner_id, license_id) == 0
                &&& forall|licensee_id: u64, license_id: u64|
                    after.licensees.contains_key(licensee_id) && before.licenses.contains_key(
                        license_id,
                    ) && before.licenses[license_id].song_id == id
                        ==> #[trigger] after.licensee_entries(licensee_id, license_id) == 0
            }
        }),
{
    let outcome = before.delete_song(auth_key, id);
    if before.coherent() && outcome.result is Ok {
        let song = before.songs[id];
        assert(song.id == id);
        assert(before.owners.contains_key(song.owner_id));
        let owner = before.owners[song.owner_id];
        assert(owner.id == song.owner_id);
        assert(occurrences(owner.song_ids, id) == 1);
        lemma_occurrences_contains(owner.song_ids, id);
        let unlisted_owner = OwnerView { song_ids: without_first(owner.song_ids, id), ..owner };
        lemma_taken_off(owner.song_ids, id);
        let unlisted = before.with_owner(unlisted_owner);
        assert(before.remove_song_from_owner(id).state == unlisted);
        lemma_owner_put(before, unlisted_owner);
        let found = unlisted.licenses_of_song(id);
        lemma_licenses_of_song(unlisted, id);
        let detached = unlisted.detach_each(found);
        assert(unlisted.remove_song_from_licensee(id).state == detached);
        unlisted.lemma_detach_each_frame(found);
        lemma_detached(unlisted, found);
        assert(detached.licenses_of_song(id) == found);
        let released = detached.release_each(found);
        detached.lemma_release_each_frame(found);
        lemma_released(detached, found);
        let after = released.without_song(id);
        assert(outcome.state == after);
        assert forall|license_id: u64| before.licenses.contains_key(license_id) implies holds(
            found,
            license_id,
        ) == (before.licenses[license_id].song_id == id) by {
            let license = before.licenses[license_id];
            assert(license.id == license_id);
            if license.song_id == id {
                assert(found.contains(license));
                let x = choose|x: int| 0 <= x < found.len() && found[x] == license;
                assert(found[x].id == license_id);
            }
            if holds(found, license_id) {
                let x = choose|x: int| 0 <= x < found.len() && (#[trigger] found[x]).id == license_id;
                assert(before.licenses[found[x].id] == found[x]);
            }
        }
        assert forall|owner_id: u64, license_id: u64|
            before.owners.contains_key(owner_id) && before.licenses.contains_key(
                license_id,
            ) implies names_owner(found, owner_id, license_id) == (before.licenses[license_id].song_id
            == id && before.licenses[license_id].owner_id == owner_id) by {
            let license = before.licenses[license_id];
            assert(license.id == license_id);
            if license.song_id == id && license.owner_id == owner_id {
                assert(found.contains(license));
                let x = choose|x: int| 0 <= x < found.len() && found[x] == license;
                assert(found[x].owner_id == owner_id && found[x].id == license_id);
            }
            if names_owner(found, owner_id, license_id) {
                let x = choose|x: int|
                    0 <= x < found.len() && (#[trigger] found[x]).owner_id == owner_id
                        && found[x].id == license_id;
                assert(before.licenses[found[x].id] == found[x]);
            }
        }
        assert forall|licensee_id: u64, license_id: u64|
            before.licensees.contains_key(licensee_id) && before.licenses.contains_key(
                license_id,
            ) implies names(found, licensee_id, license_id) == (before.licenses[license_id].song_id
            == id && before.licenses[license_id].licensee_id == licensee_id) by {
            let license = before.licenses[license_id];
            assert(license.id == license_id);
            if license.song_id == id && license.licensee_id == licensee_id {
                assert(found.contains(license));
                let x = choose|x: int| 0 <= x < found.len() && found[x] == license;
                assert(found[x].licensee_id == licensee_id && found[x].id == license_id);
            }
            if names(found, licensee_id, license_id) {
                let x = choose|x: int|
                    0 <= x < found.len() && (#[trigger] found[x]).licensee_id == licensee_id
                        && found[x].id == license_id;
                assert(before.licenses[found[x].id] == found[x]);
            }
        }
        assert forall|owner_id: u64, license_id: u64|
            after.owners.contains_key(owner_id) && after.licenses.contains_key(
                license_id,
            ) implies #[trigger] occurrences(after.owners[owner_id].license_ids, license_id)
            == if after.licenses[license_id].owner_id == owner_id
            && after.licenses[license_id].approved {
            1nat
        } else {
            0nat
        } by {
            assert(before.owners.contains_key(owner_id));
            assert(before.licenses.contains_key(license_id));
            assert(occurrences(detached.owners[owner_id].license_ids, license_id) == occurrences(
                before.owners[owner_id].license_ids,
                license_id,
            ));
        }
        assert forall|licensee_id: u64, license_id: u64|
            after.licensees.contains_key(licensee_id) && after.licenses.contains_key(
                license_id,
            ) implies #[trigger] occurrences(after.licensees[licensee_id].licenses, license_id)
            == if after.licenses[license_id].licensee_id == licensee_id
            && after.licenses[license_id].approved {
            1nat
        } else {
            0nat
        } by {
            assert(before.licensees.contains_key(licensee_id));
            assert(before.licenses.contains_key(license_id));
        }
        assert forall|owner_id: u64, other: u64|
            after.owners.contains_key(owner_id) && other
                >= after.next_id implies #[trigger] occurrences(
            after.owners[owner_id].license_ids,
            other,
        ) == 0 by {
            assert(occurrences(detached.owners[owner_id].license_ids, other) == 0);
        }
        assert forall|licensee_id: u64, other: u64|
            after.licensees.contains_key(licensee_id) && other
                >= after.next_id implies #[trigger] occurrences(
            after.licensees[licensee_id].licenses,
            other,
        ) == 0 by {
            assert(occurrences(before.licensees[licensee_id].licenses, other) == 0);
        }
        assert forall|owner_id: u64, song_id: u64|
            after.owners.contains_key(owner_id) implies #[trigger] occurrences(
            after.owners[owner_id].song_ids,
            song_id,
        ) == if after.songs.contains_key(song_id) && after.songs[song_id].owner_id == owner_id {
            1nat
        } else {
            0nat
        } by {
            assert(after.owners[owner_id].song_ids == unlisted.owners[owner_id].song_ids);
        }
        assert(lists_keys(keys_in_order(before.licenses), after.licenses));
        lemma_keys_in_order(keys_in_order(before.licenses), after.licenses);
        assert(after.keyed());
        assert(after.ids_fresh());
        assert(after.kinds_apart());
        assert(after.references_resolve());
        assert(after.songs_listed());
        assert(after.licenses_listed());
    }
}

} // verus!
