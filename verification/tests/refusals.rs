use music_licensing_backend::entity::{
    ApprovePayload, ErrorKind, LicensePayload, LicenseePayload, OwnerPayload, ProtectedPayload,
    SongPayload, UpdateSongPayload,
};
use music_licensing_backend::links::{
    add_license_to_licensee, add_license_to_owner, add_song_to_owner, find_first,
    licenses_of_song, remove_license_from_licensee, remove_license_from_owner,
    remove_song_from_licensee, remove_song_from_owner,
};
use music_licensing_backend::registry::{Registry, _get_licensee, _get_owner};
use music_licensing_backend::service::{
    approve_license, can_approve, can_create_licensee, can_create_owner, can_create_song,
    can_request, can_update_song, create_license_request, create_licensee, create_owner,
    create_song, get_license, get_licensee, get_song, get_song_owner, revoke_license, update_song,
};
use music_licensing_backend::validate::{
    check_licensee_payload, check_owner_payload, check_song_payload, fits_table, is_long_enough,
    utf8_len,
};

fn owner(name: &str) -> OwnerPayload {
    OwnerPayload { name: name.to_string(), email: "".to_string(), auth_key: "k1".to_string() }
}

fn song(title: &str, owner_id: u64) -> SongPayload {
    SongPayload {
        title: title.to_string(),
        artist: "".to_string(),
        owner_id,
        year: 2000,
        genre: "".to_string(),
        price: 0,
    }
}

fn licensee(name: &str) -> LicenseePayload {
    LicenseePayload { name: name.to_string(), email: "".to_string() }
}

fn request(song_id: u64, licensee_id: u64) -> LicensePayload {
    LicensePayload { song_id, licensee_id, start_date: "".to_string(), end_date: "".to_string() }
}

#[test]
fn a_name_has_at_least_two_characters() {
    assert!(!is_long_enough(&"".to_string()));
    assert!(!is_long_enough(&"a".to_string()));
    assert!(is_long_enough(&"ab".to_string()));
    assert!(is_long_enough(&"abc".to_string()));
}

#[test]
fn characters_are_counted_not_bytes() {
    assert_eq!(utf8_len(&"é".to_string()), 2);
    assert!(!is_long_enough(&"é".to_string()));
    assert_eq!(utf8_len(&"🎵".to_string()), 4);
    assert!(!is_long_enough(&"🎵".to_string()));
    assert!(is_long_enough(&"éé".to_string()));
}

#[test]
fn payloads_with_short_names_are_invalid() {
    let mut registry = Registry::open();
    assert_eq!(
        create_owner(&mut registry, owner("A")).unwrap_err().kind(),
        ErrorKind::InvalidPayload
    );
    assert_eq!(
        create_licensee(&mut registry, licensee("")).unwrap_err().kind(),
        ErrorKind::InvalidPayload
    );
    assert!(registry.is_fresh());
    create_owner(&mut registry, owner("Al")).unwrap();
    assert_eq!(
        create_song(&mut registry, song("x", 0)).unwrap_err().kind(),
        ErrorKind::InvalidPayload
    );
    assert_eq!(registry.peek_id(), 1);
    let created = create_song(&mut registry, song("xy", 0)).unwrap();
    let refused = update_song(
        &mut registry,
        UpdateSongPayload {
            auth_key: "k1".to_string(),
            id: created.id,
            title: "z".to_string(),
            artist: "".to_string(),
            year: 1,
            genre: "".to_string(),
            price: 1,
        },
    );
    assert_eq!(refused.unwrap_err().kind(), ErrorKind::InvalidPayload);
    assert_eq!(get_song(&registry, created.id).unwrap(), created);
}

#[test]
fn what_is_not_there_is_not_found() {
    let mut registry = Registry::open();
    assert_eq!(get_song(&registry, 0).unwrap_err().kind(), ErrorKind::NotFound);
    assert_eq!(get_song_owner(&registry, 0).unwrap_err().kind(), ErrorKind::NotFound);
    assert_eq!(get_license(&registry, 0).unwrap_err().kind(), ErrorKind::NotFound);
    assert_eq!(get_licensee(&registry, 0).unwrap_err().kind(), ErrorKind::NotFound);
    assert_eq!(
        create_song(&mut registry, song("Song", 5)).unwrap_err().kind(),
        ErrorKind::NotFound
    );
    assert!(registry.is_fresh());
    let approve = ApprovePayload { auth_key: "k1".to_string(), license_id: 9, cost: 1 };
    assert_eq!(approve_license(&mut registry, approve).unwrap_err().kind(), ErrorKind::NotFound);
    let revoke = ProtectedPayload { auth_key: "k1".to_string(), license_id: 9 };
    assert_eq!(revoke_license(&mut registry, revoke).unwrap_err().kind(), ErrorKind::NotFound);
}

#[test]
fn a_refused_request_uses_up_an_identifier() {
    let mut registry = Registry::open();
    create_owner(&mut registry, owner("Alice")).unwrap();
    create_song(&mut registry, song("Song", 0)).unwrap();
    assert_eq!(
        create_license_request(&mut registry, request(1, 7)).unwrap_err().kind(),
        ErrorKind::NotFound
    );
    assert_eq!(registry.peek_id(), 3);
    let bob = create_licensee(&mut registry, licensee("Bob")).unwrap();
    assert_eq!(bob.id, 3);
    assert_eq!(
        create_license_request(&mut registry, request(9, bob.id)).unwrap_err().kind(),
        ErrorKind::NotFound
    );
    let license = create_license_request(&mut registry, request(1, bob.id)).unwrap();
    assert_eq!(license.id, 5);
}

#[test]
fn the_first_of_equal_entries_is_found() {
    assert_eq!(find_first(&vec![], 1), None);
    assert_eq!(find_first(&vec![4, 5, 6], 4), Some(0));
    assert_eq!(find_first(&vec![4, 5, 6], 6), Some(2));
    assert_eq!(find_first(&vec![4, 5, 5, 6, 5], 5), Some(1));
    assert_eq!(find_first(&vec![4, 5, 6], 7), None);
}

#[test]
fn lists_are_changed_one_entry_at_a_time() {
    let mut registry = Registry::open();
    create_owner(&mut registry, owner("Alice")).unwrap();
    create_licensee(&mut registry, licensee("Bob")).unwrap();
    add_song_to_owner(&mut registry, 0, 40).unwrap();
    add_song_to_owner(&mut registry, 0, 41).unwrap();
    add_license_to_owner(&mut registry, 0, 50).unwrap();
    add_license_to_owner(&mut registry, 0, 51).unwrap();
    add_license_to_owner(&mut registry, 0, 50).unwrap();
    add_license_to_licensee(&mut registry, 1, 50).unwrap();
    add_license_to_licensee(&mut registry, 1, 60).unwrap();
    assert_eq!(_get_owner(&registry, &0).unwrap().song_ids, vec![40, 41]);
    assert_eq!(_get_owner(&registry, &0).unwrap().license_ids, vec![50, 51, 50]);
    assert_eq!(_get_licensee(&registry, &1).unwrap().licenses, vec![50, 60]);

    remove_license_from_owner(&mut registry, 0, 50).unwrap();
    assert_eq!(_get_owner(&registry, &0).unwrap().license_ids, vec![51, 50]);
    remove_license_from_licensee(&mut registry, 1, 60).unwrap();
    assert_eq!(_get_licensee(&registry, &1).unwrap().licenses, vec![50]);

    let missing = remove_license_from_owner(&mut registry, 0, 99);
    assert_eq!(missing.unwrap_err().kind(), ErrorKind::NotFound);
    let missing = remove_license_from_licensee(&mut registry, 1, 60);
    assert_eq!(missing.unwrap_err().kind(), ErrorKind::NotFound);
    let nobody = add_song_to_owner(&mut registry, 1, 40);
    assert_eq!(nobody.unwrap_err().kind(), ErrorKind::NotFound);
    let nobody = add_license_to_owner(&mut registry, 7, 40);
    assert_eq!(nobody.unwrap_err().kind(), ErrorKind::NotFound);
    let nobody = add_license_to_licensee(&mut registry, 0, 40);
    assert_eq!(nobody.unwrap_err().kind(), ErrorKind::NotFound);
    let nobody = remove_license_from_owner(&mut registry, 1, 50);
    assert_eq!(nobody.unwrap_err().kind(), ErrorKind::NotFound);
    let nobody = remove_license_from_licensee(&mut registry, 0, 50);
    assert_eq!(nobody.unwrap_err().kind(), ErrorKind::NotFound);
    assert_eq!(_get_owner(&registry, &0).unwrap().license_ids, vec![51, 50]);
    assert_eq!(_get_licensee(&registry, &1).unwrap().licenses, vec![50]);
}

#[test]
fn a_value_may_be_as_long_as_32_bits_count() {
    assert!(fits_table(56, 0, 0, 0));
    assert!(fits_table(56, 968, 0, 0));
    assert!(fits_table(56, 969, 0, 0));
    assert!(fits_table(56, 1_000_000, 2_000_000, 3_000_000));
    let most = u32::MAX as usize - 56;
    assert!(fits_table(56, most, 0, 0));
    assert!(!fits_table(56, most, 1, 0));
    assert!(!fits_table(56, most, 0, 1));
    assert!(!fits_table(0, usize::MAX, usize::MAX, usize::MAX));
}

#[test]
fn only_title_and_name_are_validated() {
    assert!(check_song_payload(&song("ab", 0)).is_ok());
    assert!(check_song_payload(&song("a", 0)).is_err());
    assert!(check_song_payload(&song(&"a".repeat(5000), 0)).is_ok());
    assert!(check_owner_payload(&owner(&"a".repeat(5000))).is_ok());
    assert!(check_owner_payload(&owner("a")).is_err());
    assert!(check_licensee_payload(&licensee(&"a".repeat(5000))).is_ok());
    assert!(check_licensee_payload(&licensee("a")).is_err());
}

#[test]
fn long_fields_are_kept() {
    let mut registry = Registry::open();
    let long_owner = OwnerPayload {
        name: "Alice".to_string(),
        email: "e".repeat(3000),
        auth_key: "k".repeat(3000),
    };
    let key = long_owner.auth_key.clone();
    assert!(can_create_owner(&registry, &long_owner));
    let alice = create_owner(&mut registry, long_owner).unwrap();
    assert_eq!(alice.email.len(), 3000);
    let bob = create_licensee(
        &mut registry,
        LicenseePayload { name: "Bob".to_string(), email: "b".repeat(4000) },
    )
    .unwrap();
    let mut payload = song(&"t".repeat(2000), alice.id);
    payload.artist = "a".repeat(2000);
    payload.genre = "g".repeat(2000);
    assert!(can_create_song(&registry, &payload));
    let created = create_song(&mut registry, payload).unwrap();
    assert_eq!(get_song(&registry, created.id).unwrap(), created);
    let dates = LicensePayload {
        song_id: created.id,
        licensee_id: bob.id,
        start_date: "x".repeat(1000),
        end_date: "y".repeat(1000),
    };
    assert!(can_request(&registry, &dates));
    let license = create_license_request(&mut registry, dates).unwrap();
    assert_eq!(license.start_date.len(), 1000);
    let update = UpdateSongPayload {
        auth_key: key.clone(),
        id: created.id,
        title: "u".repeat(3000),
        artist: "v".repeat(3000),
        year: 1,
        genre: "w".repeat(3000),
        price: 2,
    };
    assert!(can_update_song(&registry, &update));
    let updated = update_song(&mut registry, update).unwrap();
    assert_eq!(updated.title.len(), 3000);
    let approve = ApprovePayload { auth_key: key, license_id: license.id, cost: 9 };
    assert!(can_approve(&registry, &approve));
    assert!(approve_license(&mut registry, approve).unwrap().approved);
}

#[test]
fn an_unknown_owner_is_not_found_whatever_the_other_fields() {
    let mut registry = Registry::open();
    let mut payload = song("Song", 5);
    payload.artist = "a".repeat(5000);
    assert!(can_create_song(&registry, &payload));
    assert_eq!(create_song(&mut registry, payload).unwrap_err().kind(), ErrorKind::NotFound);
    assert!(registry.is_fresh());
}

#[test]
fn an_owner_takes_a_great_many_songs() {
    let mut registry = Registry::open();
    create_owner(&mut registry, owner("Alice")).unwrap();
    for _ in 0..500 {
        let payload = song("Song", 0);
        assert!(can_create_song(&registry, &payload));
        create_song(&mut registry, payload).unwrap();
    }
    let kept = _get_owner(&registry, &0).unwrap();
    assert_eq!(kept.song_ids.len(), 500);
    assert_eq!(kept.song_ids[499], 500);
    assert_eq!(registry.peek_id(), 501);
}

#[test]
fn the_tests_before_a_call_say_yes_where_nothing_is_written() {
    let mut registry = Registry::open();
    assert!(can_create_song(&registry, &song("x", 0)));
    assert!(can_create_song(&registry, &song("Song", 9)));
    assert!(can_create_owner(&registry, &owner("A")));
    assert!(can_create_licensee(&registry, &licensee("")));
    assert!(can_request(&registry, &request(1, 2)));
    let approve = ApprovePayload { auth_key: "k1".to_string(), license_id: 9, cost: 1 };
    assert!(can_approve(&registry, &approve));
    create_owner(&mut registry, owner("Alice")).unwrap();
    assert!(can_create_song(&registry, &song("Song", 0)));
}

#[test]
fn a_song_leaves_its_owner_and_its_licenses_leave_their_licensees() {
    let mut registry = Registry::open();
    create_owner(&mut registry, owner("Alice")).unwrap();
    let first = create_song(&mut registry, song("First", 0)).unwrap();
    let second = create_song(&mut registry, song("Second", 0)).unwrap();
    let bob = create_licensee(&mut registry, licensee("Bob")).unwrap();
    let one = create_license_request(&mut registry, request(first.id, bob.id)).unwrap();
    let two = create_license_request(&mut registry, request(second.id, bob.id)).unwrap();
    let three = create_license_request(&mut registry, request(first.id, bob.id)).unwrap();
    let found: Vec<u64> =
        licenses_of_song(&registry, first.id).iter().map(|license| license.id).collect();
    assert_eq!(found, vec![one.id, three.id]);
    assert!(licenses_of_song(&registry, 99).is_empty());

    remove_song_from_owner(&mut registry, first.id).unwrap();
    assert_eq!(_get_owner(&registry, &0).unwrap().song_ids, vec![second.id]);
    let again = remove_song_from_owner(&mut registry, first.id);
    assert_eq!(again.unwrap_err().kind(), ErrorKind::NotFound);
    let missing = remove_song_from_owner(&mut registry, 99);
    assert_eq!(missing.unwrap_err().kind(), ErrorKind::NotFound);

    add_license_to_licensee(&mut registry, bob.id, one.id).unwrap();
    add_license_to_licensee(&mut registry, bob.id, two.id).unwrap();
    remove_song_from_licensee(&mut registry, first.id).unwrap();
    assert_eq!(_get_licensee(&registry, &bob.id).unwrap().licenses, vec![two.id]);

    add_license_to_licensee(&mut registry, bob.id, three.id).unwrap();
    add_license_to_licensee(&mut registry, bob.id, one.id).unwrap();
    remove_song_from_licensee(&mut registry, first.id).unwrap();
    assert_eq!(_get_licensee(&registry, &bob.id).unwrap().licenses, vec![two.id]);
    remove_song_from_licensee(&mut registry, first.id).unwrap();
    assert_eq!(_get_licensee(&registry, &bob.id).unwrap().licenses, vec![two.id]);
    let missing = remove_song_from_licensee(&mut registry, 99);
    assert_eq!(missing.unwrap_err().kind(), ErrorKind::NotFound);
}
