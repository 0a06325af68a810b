use music_licensing_backend::entity::{
    ApprovePayload, ErrorKind, License, LicensePayload, Licensee, LicenseePayload, Owner,
    OwnerPayload, ProtectedPayload, Song, SongPayload, UpdateSongPayload,
};
use music_licensing_backend::registry::{
    Registry, _get_license, _get_licensee, _get_owner, _get_song,
};
use music_licensing_backend::service::{
    approve_license, create_license_request, create_licensee, create_owner, create_song,
    delete_song, get_license, get_licensee, get_song, get_song_owner, revoke_license, update_song,
};

fn owner_payload(name: &str, key: &str) -> OwnerPayload {
    OwnerPayload {
        name: name.to_string(),
        email: format!("{}@example.org", name),
        auth_key: key.to_string(),
    }
}

fn song_payload(title: &str, owner_id: u64) -> SongPayload {
    SongPayload {
        title: title.to_string(),
        artist: "The Band".to_string(),
        owner_id,
        year: 2020,
        genre: "Jazz".to_string(),
        price: 10,
    }
}

fn licensee_payload(name: &str) -> LicenseePayload {
    LicenseePayload { name: name.to_string(), email: format!("{}@example.org", name) }
}

fn request(song_id: u64, licensee_id: u64) -> LicensePayload {
    LicensePayload {
        song_id,
        licensee_id,
        start_date: "2024-01-01".to_string(),
        end_date: "2024-12-31".to_string(),
    }
}

struct World {
    registry: Registry,
    owner: Owner,
    song: Song,
    licensee: Licensee,
    license: License,
}

fn world() -> World {
    let mut registry = Registry::open();
    let owner = create_owner(&mut registry, owner_payload("Alice", "k1")).unwrap();
    let song = create_song(&mut registry, song_payload("Blue Train", owner.id)).unwrap();
    let licensee = create_licensee(&mut registry, licensee_payload("Bob")).unwrap();
    let license = create_license_request(&mut registry, request(song.id, licensee.id)).unwrap();
    World { registry, owner, song, licensee, license }
}

fn approve(world: &mut World, key: &str, cost: u32) -> Result<License, ErrorKind> {
    approve_license(
        &mut world.registry,
        ApprovePayload { auth_key: key.to_string(), license_id: world.license.id, cost },
    )
    .map_err(|error| error.kind())
}

fn revoke(world: &mut World, key: &str) -> Result<License, ErrorKind> {
    revoke_license(
        &mut world.registry,
        ProtectedPayload { auth_key: key.to_string(), license_id: world.license.id },
    )
    .map_err(|error| error.kind())
}

#[test]
fn a_new_registry_is_fresh_and_hands_out_zero_first() {
    let mut registry = Registry::open();
    assert!(registry.is_fresh());
    assert_eq!(registry.peek_id(), 0);
    let owner = create_owner(&mut registry, owner_payload("Alice", "k1")).unwrap();
    assert_eq!(owner.id, 0);
    assert_eq!(registry.peek_id(), 1);
    assert!(!registry.is_fresh());
}

#[test]
fn identifiers_are_shared_by_all_kinds_and_rise() {
    let world = world();
    assert_eq!(world.owner.id, 0);
    assert_eq!(world.song.id, 1);
    assert_eq!(world.licensee.id, 2);
    assert_eq!(world.license.id, 3);
    assert_eq!(world.registry.peek_id(), 4);
}

#[test]
fn created_records_are_returned_as_stored() {
    let world = world();
    assert_eq!(
        world.owner,
        Owner {
            id: 0,
            name: "Alice".to_string(),
            email: "Alice@example.org".to_string(),
            auth_key: "k1".to_string(),
            song_ids: vec![],
            license_ids: vec![],
        }
    );
    assert_eq!(
        world.song,
        Song {
            id: 1,
            title: "Blue Train".to_string(),
            artist: "The Band".to_string(),
            owner_id: 0,
            year: 2020,
            genre: "Jazz".to_string(),
            price: 10,
        }
    );
    assert_eq!(
        world.licensee,
        Licensee {
            id: 2,
            name: "Bob".to_string(),
            email: "Bob@example.org".to_string(),
            licenses: vec![],
        }
    );
    assert_eq!(get_song(&world.registry, 1).unwrap(), world.song);
    assert_eq!(get_licensee(&world.registry, 2).unwrap(), world.licensee);
    assert_eq!(get_license(&world.registry, 3).unwrap(), world.license);
    assert_eq!(_get_song(&world.registry, &1), Some(world.song));
    assert_eq!(_get_license(&world.registry, &3), Some(world.license));
    assert_eq!(_get_owner(&world.registry, &0).unwrap().song_ids, vec![1]);
}

#[test]
fn the_owner_of_a_created_song_is_the_owner_it_names() {
    let mut world = world();
    let other = create_owner(&mut world.registry, owner_payload("Carol", "k2")).unwrap();
    let second = create_song(&mut world.registry, song_payload("Giant Steps", other.id)).unwrap();
    let first_owner = get_song_owner(&world.registry, world.song.id).unwrap();
    assert_eq!(first_owner.id, world.song.owner_id);
    assert_eq!(first_owner.name, "Alice");
    assert_eq!(first_owner.email, "Alice@example.org");
    let second_owner = get_song_owner(&world.registry, second.id).unwrap();
    assert_eq!(second_owner.id, second.owner_id);
    assert_eq!(second_owner.name, "Carol");
}

#[test]
fn a_request_changes_no_list() {
    let world = world();
    assert_eq!(
        world.license,
        License {
            id: 3,
            song_id: 1,
            owner_id: 0,
            licensee_id: 2,
            approved: false,
            price: 0,
            start_date: "2024-01-01".to_string(),
            end_date: "2024-12-31".to_string(),
        }
    );
    assert!(_get_owner(&world.registry, &0).unwrap().license_ids.is_empty());
    assert!(_get_licensee(&world.registry, &2).unwrap().licenses.is_empty());
}

#[test]
fn approve_then_revoke_end_to_end() {
    let mut world = world();
    let approved = approve(&mut world, "k1", 100).unwrap();
    assert!(approved.approved);
    assert_eq!(approved.price, 100);
    assert_eq!(_get_owner(&world.registry, &0).unwrap().license_ids, vec![3]);
    assert_eq!(_get_licensee(&world.registry, &2).unwrap().licenses, vec![3]);
    assert_eq!(get_license(&world.registry, 3).unwrap(), approved);

    let revoked = revoke(&mut world, "k1").unwrap();
    assert!(!revoked.approved);
    assert_eq!(revoked.price, 100);
    assert!(_get_owner(&world.registry, &0).unwrap().license_ids.is_empty());
    assert!(_get_licensee(&world.registry, &2).unwrap().licenses.is_empty());
    assert_eq!(get_license(&world.registry, 3).unwrap(), revoked);
}

#[test]
fn approving_twice_is_refused_and_changes_nothing() {
    let mut world = world();
    let approved = approve(&mut world, "k1", 100).unwrap();
    assert_eq!(approve(&mut world, "k1", 5), Err(ErrorKind::AlreadyApproved));
    assert_eq!(get_license(&world.registry, 3).unwrap(), approved);
    assert_eq!(_get_owner(&world.registry, &0).unwrap().license_ids, vec![3]);
    assert_eq!(_get_licensee(&world.registry, &2).unwrap().licenses, vec![3]);
}

#[test]
fn a_license_can_be_approved_again_after_it_was_revoked() {
    let mut world = world();
    approve(&mut world, "k1", 100).unwrap();
    revoke(&mut world, "k1").unwrap();
    let again = approve(&mut world, "k1", 7).unwrap();
    assert!(again.approved);
    assert_eq!(again.price, 7);
    assert_eq!(_get_owner(&world.registry, &0).unwrap().license_ids, vec![3]);
    assert_eq!(_get_licensee(&world.registry, &2).unwrap().licenses, vec![3]);
}

#[test]
fn revoking_what_is_not_approved_is_not_found() {
    let mut world = world();
    assert_eq!(revoke(&mut world, "k1"), Err(ErrorKind::NotFound));
    approve(&mut world, "k1", 100).unwrap();
    revoke(&mut world, "k1").unwrap();
    assert_eq!(revoke(&mut world, "k1"), Err(ErrorKind::NotFound));
    assert!(!get_license(&world.registry, 3).unwrap().approved);
}

#[test]
fn only_the_owners_key_approves_and_revokes() {
    let mut world = world();
    assert_eq!(approve(&mut world, "k2", 100), Err(ErrorKind::Unauthorized));
    assert!(!get_license(&world.registry, 3).unwrap().approved);
    approve(&mut world, "k1", 100).unwrap();
    assert_eq!(revoke(&mut world, "", ), Err(ErrorKind::Unauthorized));
    assert!(get_license(&world.registry, 3).unwrap().approved);
    assert_eq!(_get_owner(&world.registry, &0).unwrap().license_ids, vec![3]);
}

#[test]
fn update_song_with_a_wrong_key_is_unauthorized_and_changes_nothing() {
    let mut world = world();
    let refused = update_song(
        &mut world.registry,
        UpdateSongPayload {
            auth_key: "k2".to_string(),
            id: world.song.id,
            title: "Other".to_string(),
            artist: "Nobody".to_string(),
            year: 1999,
            genre: "Rock".to_string(),
            price: 1,
        },
    );
    assert_eq!(refused.unwrap_err().kind(), ErrorKind::Unauthorized);
    assert_eq!(get_song(&world.registry, world.song.id).unwrap(), world.song);
}

#[test]
fn update_song_replaces_the_fields_and_keeps_id_and_owner() {
    let mut world = world();
    let updated = update_song(
        &mut world.registry,
        UpdateSongPayload {
            auth_key: "k1".to_string(),
            id: world.song.id,
            title: "Other".to_string(),
            artist: "Nobody".to_string(),
            year: 1999,
            genre: "Rock".to_string(),
            price: 1,
        },
    )
    .unwrap();
    assert_eq!(
        updated,
        Song {
            id: 1,
            title: "Other".to_string(),
            artist: "Nobody".to_string(),
            owner_id: 0,
            year: 1999,
            genre: "Rock".to_string(),
            price: 1,
        }
    );
    assert_eq!(get_song(&world.registry, 1).unwrap(), updated);
    assert_eq!(_get_owner(&world.registry, &0).unwrap().song_ids, vec![1]);
}

#[test]
fn deleting_a_song_with_a_wrong_key_is_an_invalid_payload() {
    let mut world = world();
    let refused = delete_song(&mut world.registry, "k2".to_string(), 1);
    assert_eq!(refused.unwrap_err().kind(), ErrorKind::InvalidPayload);
    assert_eq!(get_song(&world.registry, 1).unwrap(), world.song);
    assert_eq!(_get_owner(&world.registry, &0).unwrap().song_ids, vec![1]);
}

#[test]
fn a_song_without_licenses_is_deleted() {
    let mut registry = Registry::open();
    let owner = create_owner(&mut registry, owner_payload("Alice", "k1")).unwrap();
    let song = create_song(&mut registry, song_payload("Blue Train", owner.id)).unwrap();
    assert_eq!(delete_song(&mut registry, "k1".to_string(), song.id).unwrap(), song);
    assert!(_get_song(&registry, &song.id).is_none());
    assert!(_get_owner(&registry, &owner.id).unwrap().song_ids.is_empty());
    assert_eq!(
        delete_song(&mut registry, "k1".to_string(), song.id).unwrap_err().kind(),
        ErrorKind::NotFound
    );
}

#[test]
fn deleting_a_song_cleans_the_lists_that_hold_it() {
    let mut world = world();
    let carol = create_licensee(&mut world.registry, licensee_payload("Carol")).unwrap();
    let second = create_license_request(&mut world.registry, request(1, carol.id)).unwrap();
    let kept_song = create_song(&mut world.registry, song_payload("Giant Steps", 0)).unwrap();
    let kept = create_license_request(&mut world.registry, request(kept_song.id, 2)).unwrap();
    let pending = create_license_request(&mut world.registry, request(1, 2)).unwrap();
    for id in [world.license.id, second.id, kept.id] {
        approve_license(
            &mut world.registry,
            ApprovePayload { auth_key: "k1".to_string(), license_id: id, cost: 3 },
        )
        .unwrap();
    }
    assert_eq!(_get_licensee(&world.registry, &2).unwrap().licenses, vec![3, kept.id]);
    assert_eq!(_get_licensee(&world.registry, &carol.id).unwrap().licenses, vec![second.id]);
    assert_eq!(
        _get_owner(&world.registry, &0).unwrap().license_ids,
        vec![3, second.id, kept.id]
    );

    let deleted = delete_song(&mut world.registry, "k1".to_string(), 1).unwrap();
    assert_eq!(deleted, world.song);
    assert_eq!(get_song(&world.registry, 1).unwrap_err().kind(), ErrorKind::NotFound);
    assert_eq!(_get_owner(&world.registry, &0).unwrap().song_ids, vec![kept_song.id]);
    assert_eq!(_get_owner(&world.registry, &0).unwrap().license_ids, vec![kept.id]);
    assert_eq!(_get_licensee(&world.registry, &2).unwrap().licenses, vec![kept.id]);
    assert!(_get_licensee(&world.registry, &carol.id).unwrap().licenses.is_empty());
    for id in [world.license.id, second.id, pending.id] {
        let license = get_license(&world.registry, id).unwrap();
        assert!(!license.approved);
        assert_eq!(license.song_id, 1);
    }
    assert_eq!(get_license(&world.registry, world.license.id).unwrap().price, 3);
    assert_eq!(get_license(&world.registry, pending.id).unwrap(), pending);
    let still = get_license(&world.registry, kept.id).unwrap();
    assert!(still.approved);
    assert_eq!(still.price, 3);
}

#[test]
fn a_song_with_a_pending_request_is_deleted() {
    let mut world = world();
    let deleted = delete_song(&mut world.registry, "k1".to_string(), 1).unwrap();
    assert_eq!(deleted, world.song);
    assert_eq!(get_song(&world.registry, 1).unwrap_err().kind(), ErrorKind::NotFound);
    assert!(_get_owner(&world.registry, &0).unwrap().song_ids.is_empty());
    assert!(_get_owner(&world.registry, &0).unwrap().license_ids.is_empty());
    assert!(_get_licensee(&world.registry, &2).unwrap().licenses.is_empty());
    assert_eq!(get_license(&world.registry, 3).unwrap(), world.license);
}

#[test]
fn a_song_with_a_revoked_license_is_deleted() {
    let mut world = world();
    approve(&mut world, "k1", 100).unwrap();
    let revoked = revoke(&mut world, "k1").unwrap();
    delete_song(&mut world.registry, "k1".to_string(), 1).unwrap();
    assert_eq!(get_license(&world.registry, 3).unwrap(), revoked);
    assert!(_get_owner(&world.registry, &0).unwrap().license_ids.is_empty());
    assert!(_get_licensee(&world.registry, &2).unwrap().licenses.is_empty());
}
