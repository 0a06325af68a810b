//! The relationship maintainer: the steps that keep the back-reference
//! lists of owners and licensees in step with songs and licenses.
//!
//! Each step reads one record, changes one list and puts the record back.
//! The tables know nothing of each other, so a command that needs several
//! steps takes them one after another.

use crate::entity::{Error, License, LicenseView, Song};
use crate::ledger::{
    has_listing, lemma_filter_next, lemma_position, license_fits, position, refers_to, Party,
};
use crate::registry::{_get_licensee, _get_owner, _get_song, told, verdict, views, Registry};
use crate::text::about_id;
use vstd::prelude::*;

verus! {

/// Where `id` first occurs in `ids`, if it occurs.
pub fn find_first(ids: &Vec<u64>, id: u64) -> (at: Option<usize>)
    ensures
        at is Some <==> ids@.contains(id),
        at is Some ==> at->0 == position(ids@, id) && at->0 < ids.len(),
{
    let mut at: usize = 0;
    while at < ids.len()
        invariant
            at <= ids.len(),
            forall|i: int| 0 <= i < at ==> ids[i] != id,
        decreases ids.len() - at,
    {
        if ids[at] == id {
            proof {
                lemma_position(ids@, id, at as int);
            }
            return Some(at);
        }
        at += 1;
    }
    proof {
        lemma_position(ids@, id, at as int);
    }
    None
}

fn two_ids(before: &str, first: u64, between: &str, second: u64) -> (text: String)
    ensures
        text@.len() > 0,
{
    let head = about_id(before, first, between);
    about_id(head.as_str(), second, "")
}

fn owner_not_found(id: u64) -> (error: Error)
    ensures
        error is NotFound,
        error.has_message(),
{
    Error::NotFound { msg: about_id("owner id:", id, " could not be found") }
}

fn licensee_not_found(id: u64) -> (error: Error)
    ensures
        error is NotFound,
        error.has_message(),
{
    Error::NotFound { msg: about_id("licensee id:", id, " could not be found") }
}

fn song_not_found(id: u64) -> (error: Error)
    ensures
        error is NotFound,
        error.has_message(),
{
    Error::NotFound { msg: about_id("song id:", id, " could not be found") }
}

/// Appends a song to its owner's list of songs.
pub fn add_song_to_owner(registry: &mut Registry, owner_id: u64, song_id: u64) -> (result: Result<
    (),
    Error,
>)
    requires
        old(registry)@.room_in_owner(owner_id),
    ensures
        final(registry)@ == old(registry)@.add_song_to_owner(owner_id, song_id).state,
        verdict(result) == old(registry)@.add_song_to_owner(owner_id, song_id).result,
        told(result),
{
    let mut owner = match _get_owner(registry, &owner_id) {
        Some(owner) => owner,
        None => {
            return Err(owner_not_found(owner_id));
        },
    };
    owner.song_ids.push(song_id);
    registry.put_owner(&owner);
    Ok(())
}

/// Appends a license to its owner's list of licenses.
pub fn add_license_to_owner(registry: &mut Registry, owner_id: u64, license_id: u64) -> (result:
    Result<(), Error>)
    requires
        old(registry)@.room_in_owner(owner_id),
    ensures
        final(registry)@ == old(registry)@.add_license_to_owner(owner_id, license_id).state,
        verdict(result) == old(registry)@.add_license_to_owner(owner_id, license_id).result,
        told(result),
{
    let mut owner = match _get_owner(registry, &owner_id) {
        Some(owner) => owner,
        None => {
            return Err(owner_not_found(owner_id));
        },
    };
    owner.license_ids.push(license_id);
    registry.put_owner(&owner);
    Ok(())
}

/// Appends a license to its licensee's list of licenses.
pub fn add_license_to_licensee(registry: &mut Registry, licensee_id: u64, license_id: u64) -> (result:
    Result<(), Error>)
    requires
        old(registry)@.room_in_licensee(licensee_id),
    ensures
        final(registry)@ == old(registry)@.add_license_to_licensee(licensee_id, license_id).state,
        verdict(result) == old(registry)@.add_license_to_licensee(licensee_id, license_id).result,
        told(result),
{
    let mut licensee = match _get_licensee(registry, &licensee_id) {
        Some(licensee) => licensee,
        None => {
            return Err(licensee_not_found(licensee_id));
        },
    };
    licensee.licenses.push(license_id);
    registry.put_licensee(&licensee);
    Ok(())
}

/// Takes the first entry for a license off its owner's list of licenses.
pub fn remove_license_from_owner(registry: &mut Registry, owner_id: u64, license_id: u64) -> (result:
    Result<(), Error>)
    ensures
        final(registry)@ == old(registry)@.remove_license_from_owner(owner_id, license_id).state,
        verdict(result) == old(registry)@.remove_license_from_owner(owner_id, license_id).result,
        told(result),
{
    let mut owner = match _get_owner(registry, &owner_id) {
        Some(owner) => owner,
        None => {
            return Err(owner_not_found(owner_id));
        },
    };
    let index = match find_first(&owner.license_ids, license_id) {
        Some(index) => index,
        None => {
            return Err(
                Error::NotFound {
                    msg: two_ids(
                        "license id:",
                        license_id,
                        " could not be found in owner id:",
                        owner_id,
                    ),
                },
            );
        },
    };
    owner.license_ids.remove(index);
    registry.put_owner(&owner);
    Ok(())
}

/// Takes the first entry for a license off its licensee's list of licenses.
pub fn remove_license_from_licensee(
    registry: &mut Registry,
    licensee_id: u64,
    license_id: u64,
) -> (result: Result<(), Error>)
    ensures
        final(registry)@ == old(registry)@.remove_license_from_licensee(
            licensee_id,
            license_id,
        ).state,
        verdict(result) == old(registry)@.remove_license_from_licensee(
            licensee_id,
            license_id,
        ).result,
        told(result),
{
    let mut licensee = match _get_licensee(registry, &licensee_id) {
        Some(licensee) => licensee,
        None => {
            return Err(licensee_not_found(licensee_id));
        },
    };
    let index = match find_first(&licensee.licenses, license_id) {
        Some(index) => index,
        None => {
            return Err(
                Error::NotFound {
                    msg: two_ids(
                        "license id:",
                        license_id,
                        " could not be found in licensee id:",
                        licensee_id,
                    ),
                },
            );
        },
    };
    licensee.licenses.remove(index);
    registry.put_licensee(&licensee);
    Ok(())
}

/// Takes the first entry for a song off its owner's list of songs.
pub fn remove_song_from_owner(registry: &mut Registry, id: u64) -> (result: Result<(), Error>)
    ensures
        final(registry)@ == old(registry)@.remove_song_from_owner(id).state,
        verdict(result) == old(registry)@.remove_song_from_owner(id).result,
        told(result),
{
    let song: Song = match _get_song(registry, &id) {
        Some(song) => song,
        None => {
            return Err(song_not_found(id));
        },
    };
    let mut owner = match _get_owner(registry, &song.owner_id) {
        Some(owner) => owner,
        None => {
            return Err(owner_not_found(song.owner_id));
        },
    };
    let index = match find_first(&owner.song_ids, song.id) {
        Some(index) => index,
        None => {
            return Err(
                Error::NotFound {
                    msg: two_ids(
                        "song id:",
                        song.id,
                        " could not be found in owner id:",
                        owner.id,
                    ),
                },
            );
        },
    };
    owner.song_ids.remove(index);
    registry.put_owner(&owner);
    Ok(())
}

/// Enters a license in its owner's list and then in its licensee's list.
pub fn attach_license(
    registry: &mut Registry,
    owner_id: u64,
    licensee_id: u64,
    license_id: u64,
) -> (result: Result<(), Error>)
    requires
        old(registry)@.room_in_owner(owner_id),
        old(registry)@.room_in_licensee(licensee_id),
    ensures
        final(registry)@ == old(registry)@.attach_license(owner_id, licensee_id, license_id).state,
        verdict(result) == old(registry)@.attach_license(owner_id, licensee_id, license_id).result,
        told(result),
{
    match add_license_to_owner(registry, owner_id, license_id) {
        Ok(_) => {},
        Err(error) => {
            return Err(error);
        },
    }
    add_license_to_licensee(registry, licensee_id, license_id)
}

/// Takes a license off its owner's list and then off its licensee's list.
pub fn detach_license(
    registry: &mut Registry,
    owner_id: u64,
    licensee_id: u64,
    license_id: u64,
) -> (result: Result<(), Error>)
    ensures
        final(registry)@ == old(registry)@.detach_license(owner_id, licensee_id, license_id).state,
        verdict(result) == old(registry)@.detach_license(owner_id, licensee_id, license_id).result,
        told(result),
{
    match remove_license_from_owner(registry, owner_id, license_id) {
        Ok(_) => {},
        Err(error) => {
            return Err(error);
        },
    }
    remove_license_from_licensee(registry, licensee_id, license_id)
}

/// The licenses that refer to `id` as the given party, by ascending
/// identifier.
pub fn licenses_of(registry: &Registry, party: Party, id: u64) -> (found: Vec<License>)
    ensures
        views(found@) == registry@.licenses_of(party, id),
        has_listing(registry@.licenses),
        forall|i: int| 0 <= i < found.len() ==> license_fits(#[trigger] found[i]@),
{
    let all = registry.all_licenses();
    let ghost wanted = |license: LicenseView| refers_to(license, party, id);
    let mut found: Vec<License> = Vec::new();
    let mut at: usize = 0;
    proof {
        reveal(Seq::filter);
        assert(views(found@) =~= views(all@).take(0).filter(wanted));
    }
    while at < all.len()
        invariant
            at <= all.len(),
            wanted == |license: LicenseView| refers_to(license, party, id),
            views(found@) == views(all@).take(at as int).filter(wanted),
            forall|i: int| 0 <= i < all.len() ==> license_fits(#[trigger] all[i]@),
            forall|i: int| 0 <= i < found.len() ==> license_fits(#[trigger] found[i]@),
        decreases all.len() - at,
    {
        proof {
            lemma_filter_next(views(all@), wanted, at as int);
        }
        let refers = match party {
            Party::Song => all[at].song_id == id,
            Party::Owner => all[at].owner_id == id,
            Party::Licensee => all[at].licensee_id == id,
        };
        if refers {
            found.push(all[at].clone());
            proof {
                assert(views(found@) =~= views(all@).take(at as int).filter(wanted).push(
                    all[at as int]@,
                ));
            }
        }
        at += 1;
    }
    proof {
        assert(views(all@).take(at as int) =~= views(all@));
    }
    found
}

/// The licenses that refer to a song, by ascending identifier.
pub fn licenses_of_song(registry: &Registry, song_id: u64) -> (found: Vec<License>)
    ensures
        views(found@) == registry@.licenses_of_song(song_id),
        has_listing(registry@.licenses),
        forall|i: int| 0 <= i < found.len() ==> license_fits(#[trigger] found[i]@),
{
    licenses_of(registry, Party::Song, song_id)
}

/// Takes every license that refers to a song off its licensee's list, by
/// ascending license identifier. A license that is in no list is passed
/// over.
pub fn remove_song_from_licensee(registry: &mut Registry, id: u64) -> (result: Result<(), Error>)
    ensures
        final(registry)@ == old(registry)@.remove_song_from_licensee(id).state,
        verdict(result) == old(registry)@.remove_song_from_licensee(id).result,
        told(result),
{
    let song: Song = match _get_song(registry, &id) {
        Some(song) => song,
        None => {
            return Err(song_not_found(id));
        },
    };
    let licenses = licenses_of_song(registry, song.id);
    let ghost start = registry@;
    let ghost all = views(licenses@);
    let mut at: usize = 0;
    proof {
        assert(all.skip(0) =~= all);
    }
    while at < licenses.len()
        invariant
            at <= licenses.len(),
            all == views(licenses@),
            start.detach_each(all) == registry@.detach_each(all.skip(at as int)),
        decreases licenses.len() - at,
    {
        proof {
            assert(all.skip(at as int).drop_first() =~= all.skip(at + 1));
            assert(all.skip(at as int)[0] == licenses[at as int]@);
        }
        let _passed = remove_license_from_licensee(
            registry,
            licenses[at].licensee_id,
            licenses[at].id,
        );
        at += 1;
    }
    proof {
        assert(all.skip(at as int) =~= Seq::<LicenseView>::empty());
    }
    Ok(())
}

/// Releases every license that refers to a song, by ascending license
/// identifier: the license leaves its owner's list, where it is there, and
/// is kept as not approved.
pub fn release_licenses(registry: &mut Registry, song_id: u64)
    ensures
        final(registry)@ == old(registry)@.release_licenses(song_id),
{
    let licenses = licenses_of_song(registry, song_id);
    let ghost start = registry@;
    let ghost all = views(licenses@);
    let mut at: usize = 0;
    proof {
        assert(all.skip(0) =~= all);
    }
    while at < licenses.len()
        invariant
            at <= licenses.len(),
            all == views(licenses@),
            forall|i: int| 0 <= i < licenses.len() ==> license_fits(#[trigger] licenses[i]@),
            start.release_each(all) == registry@.release_each(all.skip(at as int)),
        decreases licenses.len() - at,
    {
        proof {
            assert(all.skip(at as int).drop_first() =~= all.skip(at + 1));
            assert(all.skip(at as int)[0] == licenses[at as int]@);
        }
        let _passed = remove_license_from_owner(
            registry,
            licenses[at].owner_id,
            licenses[at].id,
        );
        if licenses[at].approved {
            let mut released = licenses[at].clone();
            released.approved = false;
            registry.put_license(&released);
        }
        at += 1;
    }
    proof {
        assert(all.skip(at as int) =~= Seq::<LicenseView>::empty());
    }
}

/// Takes a song off its owner's list and then its licenses off their
/// licensees' lists.
pub fn detach_song(registry: &mut Registry, id: u64) -> (result: Result<(), Error>)
    ensures
        final(registry)@ == old(registry)@.detach_song(id).state,
        verdict(result) == old(registry)@.detach_song(id).result,
        told(result),
{
    match remove_song_from_owner(registry, id) {
        Ok(_) => {},
        Err(error) => {
            return Err(error);
        },
    }
    remove_song_from_licensee(registry, id)
}

} // verus!
