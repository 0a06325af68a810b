//! The commands and queries of the registry.
//!
//! Each function does on a `Registry` what the function of the same name of
//! `Ledger` says: the registry afterwards is the model's state, and the
//! answer is the model's result, with an error standing for its kind.
//!
//! A command that writes a record asks of its caller what the machine asks:
//! that an identifier is left where one is taken, and that the record is
//! short enough for a table. The `can_*` functions test it.

use crate::entity::{
    ApprovePayload, Error, License, LicensePayload, Licensee, LicenseePayload, Owner,
    OwnerPayload, ProtectedPayload, ReturnOwner, Song, SongPayload, SongView, UpdateSongPayload,
};
use crate::ledger::{has_listing, lemma_filter_next, song_matches, Party};
use crate::links::{
    add_song_to_owner, attach_license, detach_license, licenses_of, release_licenses,
    remove_song_from_licensee, remove_song_from_owner,
};
use crate::registry::{
    _get_license, _get_licensee, _get_owner, _get_song, answer, answers, has_room, told, views,
    Registry,
};
use crate::text::{
    about_id, about_text, contains_text, lowercase_text, number_text, occurs_in, to_lowercase,
};
use crate::validate::{
    check_licensee_payload, check_owner_payload, check_song_payload, fits_table, is_long_enough,
    too_short, utf8_len,
};
use vstd::prelude::*;
use vstd::string::StringExecFns;

verus! {

fn song_not_found(id: u64) -> (error: Error)
    ensures
        error is NotFound,
        error.has_message(),
{
    Error::NotFound { msg: about_id("song id:", id, " could not be found") }
}

fn owner_not_found(id: u64) -> (error: Error)
    ensures
        error is NotFound,
        error.has_message(),
{
    Error::NotFound { msg: about_id("owner id:", id, " could not be found") }
}

fn license_not_found(id: u64) -> (error: Error)
    ensures
        error is NotFound,
        error.has_message(),
{
    Error::NotFound { msg: about_id("license id:", id, " could not be found") }
}

fn licensee_not_found(id: u64) -> (error: Error)
    ensures
        error is NotFound,
        error.has_message(),
{
    Error::NotFound { msg: about_id("licensee id:", id, " could not be found") }
}

fn no_songs() -> (message: String)
    ensures
        message@.len() > 0,
{
    proof {
        reveal_strlit("no licensable songs could be found");
    }
    String::from_str("no licensable songs could be found")
}

fn no_match(title: &str) -> (message: String)
    ensures
        message@.len() > 0,
{
    proof {
        reveal_strlit("no songs could be found with title:");
    }
    about_text("no songs could be found with title:", title, "")
}

fn wrong_key(auth_key: &str, only: &str) -> (message: String)
    ensures
        message@.len() > 0,
{
    proof {
        reveal_strlit("auth key:");
    }
    about_text("auth key:", auth_key, only)
}

/// All songs, by ascending identifier; `NotFound` where there is none.
pub fn get_all_songs(registry: &Registry) -> (result: Result<Vec<Song>, Error>)
    ensures
        answers(result) == registry@.get_all_songs(),
        has_listing(registry@.songs),
        told(result),
{
    let songs = registry.all_songs();
    if songs.len() == 0 {
        Err(Error::NotFound { msg: no_songs() })
    } else {
        Ok(songs)
    }
}

/// The song under an identifier; `NotFound` where there is none.
pub fn get_song(registry: &Registry, id: u64) -> (result: Result<Song, Error>)
    ensures
        answer(result) == registry@.get_song(id),
        told(result),
{
    match _get_song(registry, &id) {
        Some(song) => Ok(song),
        None => Err(song_not_found(id)),
    }
}

/// Whether `create_song` may be called with this payload.
pub fn can_create_song(registry: &Registry, payload: &SongPayload) -> (ok: bool)
    ensures
        ok == registry@.can_create_song(payload@),
{
    if !is_long_enough(&payload.title) {
        return true;
    }
    match _get_owner(registry, &payload.owner_id) {
        None => true,
        Some(owner) => registry.peek_id() < u64::MAX && fits_table(
            56,
            utf8_len(&payload.title),
            utf8_len(&payload.artist),
            utf8_len(&payload.genre),
        ) && has_room(&owner, 8),
    }
}

/// Creates a song under an existing owner and enters it in the owner's list
/// of songs. A new identifier is taken once the title has passed validation
/// and the owner is known to exist.
pub fn create_song(registry: &mut Registry, payload: SongPayload) -> (result: Result<Song, Error>)
    requires
        old(registry)@.can_create_song(payload@),
    ensures
        final(registry)@ == old(registry)@.create_song(payload@).state,
        answer(result) == old(registry)@.create_song(payload@).result,
        told(result),
{
    match check_song_payload(&payload) {
        Ok(_) => {},
        Err(error) => {
            return Err(error);
        },
    }
    if _get_owner(registry, &payload.owner_id).is_none() {
        return Err(
            Error::NotFound {
                msg: about_id(
                    "owner id:",
                    payload.owner_id,
                    " could not be found, add owner first",
                ),
            },
        );
    }
    let id = registry.next_id();
    let song = Song {
        id,
        title: payload.title,
        artist: payload.artist,
        owner_id: payload.owner_id,
        year: payload.year,
        genre: payload.genre,
        price: payload.price,
    };
    let _listed = add_song_to_owner(registry, song.owner_id, song.id);
    match registry.put_song(&song) {
        Some(_) => Err(
            Error::InvalidPayload { msg: about_id("song id:", song.id, " could not be created") },
        ),
        None => Ok(song),
    }
}

/// The public part of the owner of a song.
pub fn get_song_owner(registry: &Registry, id: u64) -> (result: Result<ReturnOwner, Error>)
    ensures
        answer(result) == registry@.get_song_owner(id),
        told(result),
{
    let song = match _get_song(registry, &id) {
        Some(song) => song,
        None => {
            return Err(song_not_found(id));
        },
    };
    match _get_owner(registry, &song.owner_id) {
        Some(owner) => Ok(ReturnOwner { id: owner.id, name: owner.name, email: owner.email }),
        None => Err(owner_not_found(song.owner_id)),
    }
}

/// Whether a query occurs in one of three texts, all four given in lower
/// case.
pub fn matches_query(title: &str, year: &str, genre: &str, query: &str) -> (found: bool)
    ensures
        found == (occurs_in(query@, title@) || occurs_in(query@, year@) || occurs_in(
            query@,
            genre@,
        )),
{
    contains_text(title, query) || contains_text(year, query) || contains_text(genre, query)
}

/// The songs whose title, year or genre holds the query, whatever the case
/// of letters, by ascending identifier; `NotFound` where there is none.
pub fn search_song_title_genre_year(registry: &Registry, title: String) -> (result: Result<
    Vec<Song>,
    Error,
>)
    ensures
        answers(result) == registry@.search_song_title_genre_year(title@),
        has_listing(registry@.songs),
        told(result),
{
    let query = to_lowercase(title.as_str());
    let songs = registry.all_songs();
    let ghost wanted = |song: SongView| song_matches(song, title@);
    let mut found: Vec<Song> = Vec::new();
    let mut at: usize = 0;
    proof {
        reveal(Seq::filter);
        assert(views(found@) =~= views(songs@).take(0).filter(wanted));
    }
    while at < songs.len()
        invariant
            at <= songs.len(),
            query@ == lowercase_text(title@),
            wanted == |song: SongView| song_matches(song, title@),
            views(found@) == views(songs@).take(at as int).filter(wanted),
        decreases songs.len() - at,
    {
        proof {
            lemma_filter_next(views(songs@), wanted, at as int);
        }
        let lower_title = to_lowercase(songs[at].title.as_str());
        let lower_year = to_lowercase(number_text(songs[at].year as u64).as_str());
        let lower_genre = to_lowercase(songs[at].genre.as_str());
        if matches_query(
            lower_title.as_str(),
            lower_year.as_str(),
            lower_genre.as_str(),
            query.as_str(),
        ) {
            found.push(songs[at].clone());
            proof {
                assert(views(found@) =~= views(songs@).take(at as int).filter(wanted).push(
                    songs[at as int]@,
                ));
            }
        }
        at += 1;
    }
    proof {
        assert(views(songs@).take(at as int) =~= views(songs@));
    }
    if found.len() == 0 {
        Err(Error::NotFound { msg: no_match(title.as_str()) })
    } else {
        Ok(found)
    }
}

/// Whether `update_song` may be called with this payload.
pub fn can_update_song(registry: &Registry, payload: &UpdateSongPayload) -> (ok: bool)
    ensures
        ok == registry@.can_update_song(payload@),
{
    if !is_long_enough(&payload.title) {
        return true;
    }
    let song = match _get_song(registry, &payload.id) {
        Some(song) => song,
        None => {
            return true;
        },
    };
    match _get_owner(registry, &song.owner_id) {
        None => true,
        Some(owner) => !(owner.auth_key == payload.auth_key) || fits_table(
            56,
            utf8_len(&payload.title),
            utf8_len(&payload.artist),
            utf8_len(&payload.genre),
        ),
    }
}

/// Replaces the title, artist, year, genre and price of a song, for a caller
/// who holds the key of the song's owner.
pub fn update_song(registry: &mut Registry, payload: UpdateSongPayload) -> (result: Result<
    Song,
    Error,
>)
    requires
        old(registry)@.can_update_song(payload@),
    ensures
        final(registry)@ == old(registry)@.update_song(payload@).state,
        answer(result) == old(registry)@.update_song(payload@).result,
        told(result),
{
    if !is_long_enough(&payload.title) {
        return Err(too_short("title"));
    }
    let song = match _get_song(registry, &payload.id) {
        Some(song) => song,
        None => {
            return Err(song_not_found(payload.id));
        },
    };
    let owner = match _get_owner(registry, &song.owner_id) {
        Some(owner) => owner,
        None => {
            return Err(owner_not_found(song.owner_id));
        },
    };
    if !(owner.auth_key == payload.auth_key) {
        return Err(
            Error::Unauthorized {
                msg: wrong_key(
                    payload.auth_key.as_str(),
                    " is invalid, only song owner can update",
                ),
            },
        );
    }
    let new_song = Song {
        id: song.id,
        title: payload.title,
        artist: payload.artist,
        owner_id: song.owner_id,
        year: payload.year,
        genre: payload.genre,
        price: payload.price,
    };
    registry.put_song(&new_song);
    Ok(new_song)
}

/// Deletes a song, for a caller who holds the key of the song's owner. The
/// song leaves its owner's list, every license that refers to it leaves its
/// licensee's and its owner's list and is kept as not approved, and then the
/// song itself goes. A license that was never approved is in no list and is
/// passed over.
pub fn delete_song(registry: &mut Registry, auth_key: String, id: u64) -> (result: Result<
    Song,
    Error,
>)
    ensures
        final(registry)@ == old(registry)@.delete_song(auth_key@, id).state,
        answer(result) == old(registry)@.delete_song(auth_key@, id).result,
        told(result),
{
    let song = match _get_song(registry, &id) {
        Some(song) => song,
        None => {
            return Err(song_not_found(id));
        },
    };
    let owner = match _get_owner(registry, &song.owner_id) {
        Some(owner) => owner,
        None => {
            return Err(owner_not_found(song.owner_id));
        },
    };
    if !(owner.auth_key == auth_key) {
        return Err(
            Error::InvalidPayload {
                msg: wrong_key(auth_key.as_str(), " is invalid, only song owner can delete"),
            },
        );
    }
    proof {
        let unlisted = registry@.remove_song_from_owner(id).state;
        let found = unlisted.licenses_of_song(unlisted.songs[id].id);
        unlisted.lemma_detach_each_frame(found);
        let detached = unlisted.detach_each(found);
        detached.lemma_release_each_frame(detached.licenses_of_song(song.id));
    }
    let _unlisted = remove_song_from_owner(registry, id);
    let _detached = remove_song_from_licensee(registry, id);
    release_licenses(registry, song.id);
    match registry.drop_song(id) {
        Some(removed) => Ok(removed),
        None => Err(
            Error::InvalidPayload { msg: about_id("song id:", id, " could not be deleted") },
        ),
    }
}

/// Whether `create_owner` may be called with this payload.
pub fn can_create_owner(registry: &Registry, payload: &OwnerPayload) -> (ok: bool)
    ensures
        ok == registry@.can_create_owner(payload@),
{
    !is_long_enough(&payload.name) || (registry.peek_id() < u64::MAX && fits_table(
        48,
        utf8_len(&payload.name),
        utf8_len(&payload.email),
        utf8_len(&payload.auth_key),
    ))
}

/// Creates an owner with no songs and no licenses.
pub fn create_owner(registry: &mut Registry, payload: OwnerPayload) -> (result: Result<
    Owner,
    Error,
>)
    requires
        old(registry)@.can_create_owner(payload@),
    ensures
        final(registry)@ == old(registry)@.create_owner(payload@).state,
        answer(result) == old(registry)@.create_owner(payload@).result,
        told(result),
{
    match check_owner_payload(&payload) {
        Ok(_) => {},
        Err(error) => {
            return Err(error);
        },
    }
    let id = registry.next_id();
    let owner = Owner {
        id,
        name: payload.name,
        email: payload.email,
        auth_key: payload.auth_key,
        song_ids: Vec::new(),
        license_ids: Vec::new(),
    };
    match registry.put_owner(&owner) {
        Some(_) => Err(
            Error::InvalidPayload { msg: about_id("owner id:", owner.id, " could not be created") },
        ),
        None => Ok(owner),
    }
}

/// The license under an identifier; `NotFound` where there is none.
pub fn get_license(registry: &Registry, id: u64) -> (result: Result<License, Error>)
    ensures
        answer(result) == registry@.get_license(id),
        told(result),
{
    match _get_license(registry, &id) {
        Some(license) => Ok(license),
        None => Err(license_not_found(id)),
    }
}

/// The licenses whose owner is `id`, approved or not, by ascending
/// identifier; `NotFound` where there is none.
pub fn get_owner_license_requests(registry: &Registry, id: u64) -> (result: Result<
    Vec<License>,
    Error,
>)
    ensures
        answers(result) == registry@.get_owner_license_requests(id),
        has_listing(registry@.licenses),
        told(result),
{
    let found = licenses_of(registry, Party::Owner, id);
    if found.len() == 0 {
        Err(
            Error::NotFound {
                msg: about_id("no licenses could be found for owner id:", id, ""),
            },
        )
    } else {
        Ok(found)
    }
}

/// The licenses whose licensee is `id`, approved or not, by ascending
/// identifier; `NotFound` where there is none.
pub fn get_licensee_licenses(registry: &Registry, id: u64) -> (result: Result<
    Vec<License>,
    Error,
>)
    ensures
        answers(result) == registry@.get_licensee_licenses(id),
        has_listing(registry@.licenses),
        told(result),
{
    let found = licenses_of(registry, Party::Licensee, id);
    if found.len() == 0 {
        Err(
            Error::NotFound {
                msg: about_id("no licenses could be found for licensee id:", id, ""),
            },
        )
    } else {
        Ok(found)
    }
}

/// Whether `create_license_request` may be called with this payload.
pub fn can_request(registry: &Registry, payload: &LicensePayload) -> (ok: bool)
    ensures
        ok == registry@.can_request(payload@),
{
    if registry.peek_id() == u64::MAX {
        return false;
    }
    if _get_licensee(registry, &payload.licensee_id).is_none() {
        return true;
    }
    if _get_song(registry, &payload.song_id).is_none() {
        return true;
    }
    fits_table(64, utf8_len(&payload.start_date), utf8_len(&payload.end_date), 0)
}

/// Records that a licensee asks for a license on a song. The owner is the
/// song's owner at this moment. Neither party's list changes: a license
/// enters them when it is approved. The identifier is taken first, so a
/// refused request uses one up.
pub fn create_license_request(registry: &mut Registry, payload: LicensePayload) -> (result: Result<
    License,
    Error,
>)
    requires
        old(registry)@.can_request(payload@),
    ensures
        final(registry)@ == old(registry)@.create_license_request(payload@).state,
        answer(result) == old(registry)@.create_license_request(payload@).result,
        told(result),
{
    let id = registry.next_id();
    if _get_licensee(registry, &payload.licensee_id).is_none() {
        return Err(
            Error::NotFound {
                msg: about_id(
                    "licensee id:",
                    payload.licensee_id,
                    " could not be found, add them first",
                ),
            },
        );
    }
    let song = match _get_song(registry, &payload.song_id) {
        Some(song) => song,
        None => {
            return Err(song_not_found(payload.song_id));
        },
    };
    let license = License {
        id,
        song_id: payload.song_id,
        owner_id: song.owner_id,
        licensee_id: payload.licensee_id,
        approved: false,
        price: 0,
        start_date: payload.start_date,
        end_date: payload.end_date,
    };
    match registry.put_license(&license) {
        Some(_) => Err(
            Error::InvalidPayload { msg: about_id("license id:", id, " could not be created") },
        ),
        None => Ok(license),
    }
}

/// Whether `approve_license` may be called with this payload.
pub fn can_approve(registry: &Registry, payload: &ApprovePayload) -> (ok: bool)
    ensures
        ok == registry@.can_approve(payload@),
{
    let license = match _get_license(registry, &payload.license_id) {
        Some(license) => license,
        None => {
            return true;
        },
    };
    let owner = match _get_owner(registry, &license.owner_id) {
        Some(owner) => owner,
        None => {
            return true;
        },
    };
    if !(owner.auth_key == payload.auth_key) || license.approved {
        return true;
    }
    has_room(&owner, 8) && match _get_licensee(registry, &license.licensee_id) {
        Some(licensee) => has_room(&licensee, 8),
        None => true,
    }
}

/// Approves a license at a price, for a caller who holds the key of the
/// license's owner: the license enters the owner's and the licensee's list.
pub fn approve_license(registry: &mut Registry, payload: ApprovePayload) -> (result: Result<
    License,
    Error,
>)
    requires
        old(registry)@.can_approve(payload@),
    ensures
        final(registry)@ == old(registry)@.approve_license(payload@).state,
        answer(result) == old(registry)@.approve_license(payload@).result,
        told(result),
{
    let license = match _get_license(registry, &payload.license_id) {
        Some(license) => license,
        None => {
            return Err(license_not_found(payload.license_id));
        },
    };
    let owner = match _get_owner(registry, &license.owner_id) {
        Some(owner) => owner,
        None => {
            return Err(owner_not_found(license.owner_id));
        },
    };
    if !(owner.auth_key == payload.auth_key) {
        return Err(
            Error::Unauthorized {
                msg: wrong_key(
                    payload.auth_key.as_str(),
                    " is invalid, only song owner can approve",
                ),
            },
        );
    }
    if license.approved {
        return Err(
            Error::AlreadyApproved {
                msg: about_id("license id:", payload.license_id, " has already been approved"),
            },
        );
    }
    let mut new_license = license.clone();
    new_license.approved = true;
    new_license.price = payload.cost;
    match attach_license(registry, license.owner_id, license.licensee_id, license.id) {
        Ok(_) => {},
        Err(error) => {
            return Err(error);
        },
    }
    registry.put_license(&new_license);
    Ok(new_license)
}

/// Revokes a license, for a caller who holds the key of the license's owner:
/// the license leaves the owner's and the licensee's list. The price stays.
pub fn revoke_license(registry: &mut Registry, payload: ProtectedPayload) -> (result: Result<
    License,
    Error,
>)
    ensures
        final(registry)@ == old(registry)@.revoke_license(payload@).state,
        answer(result) == old(registry)@.revoke_license(payload@).result,
        told(result),
{
    let license = match _get_license(registry, &payload.license_id) {
        Some(license) => license,
        None => {
            return Err(license_not_found(payload.license_id));
        },
    };
    let owner = match _get_owner(registry, &license.owner_id) {
        Some(owner) => owner,
        None => {
            return Err(owner_not_found(license.owner_id));
        },
    };
    if !(owner.auth_key == payload.auth_key) {
        return Err(
            Error::Unauthorized {
                msg: wrong_key(
                    payload.auth_key.as_str(),
                    " is invalid, only song owner can revoke",
                ),
            },
        );
    }
    let mut new_license = license.clone();
    new_license.approved = false;
    match detach_license(registry, license.owner_id, license.licensee_id, license.id) {
        Ok(_) => {},
        Err(error) => {
            return Err(error);
        },
    }
    registry.put_license(&new_license);
    Ok(new_license)
}

/// The licensee under an identifier; `NotFound` where there is none.
pub fn get_licensee(registry: &Registry, id: u64) -> (result: Result<Licensee, Error>)
    ensures
        answer(result) == registry@.get_licensee(id),
        told(result),
{
    match _get_licensee(registry, &id) {
        Some(licensee) => Ok(licensee),
        None => Err(licensee_not_found(id)),
    }
}

/// Whether `create_licensee` may be called with this payload.
pub fn can_create_licensee(registry: &Registry, payload: &LicenseePayload) -> (ok: bool)
    ensures
        ok == registry@.can_create_licensee(payload@),
{
    !is_long_enough(&payload.name) || (registry.peek_id() < u64::MAX && fits_table(
        32,
        utf8_len(&payload.name),
        utf8_len(&payload.email),
        0,
    ))
}

/// Creates a licensee with no licenses.
pub fn create_licensee(registry: &mut Registry, payload: LicenseePayload) -> (result: Result<
    Licensee,
    Error,
>)
    requires
        old(registry)@.can_create_licensee(payload@),
    ensures
        final(registry)@ == old(registry)@.create_licensee(payload@).state,
        answer(result) == old(registry)@.create_licensee(payload@).result,
        told(result),
{
    match check_licensee_payload(&payload) {
        Ok(_) => {},
        Err(error) => {
            return Err(error);
        },
    }
    let id = registry.next_id();
    let licensee = Licensee { id, name: payload.name, email: payload.email, licenses: Vec::new() };
    match registry.put_licensee(&licensee) {
        Some(_) => Err(
            Error::InvalidPayload {
                msg: about_id("licensee id:", licensee.id, " could not be created"),
            },
        ),
        None => Ok(licensee),
    }
}

} // verus!
