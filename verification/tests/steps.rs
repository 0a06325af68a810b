use music_licensing_backend::entity::{
    ErrorKind, LicensePayload, LicenseePayload, OwnerPayload, SongPayload,
};
use music_licensing_backend::ledger::Party;
use music_licensing_backend::links::{
    attach_license, detach_license, detach_song, licenses_of, release_licenses,
};
use music_licensing_backend::registry::{
    Registry, _get_license, _get_licensee, _get_owner, _get_song,
};
use music_licensing_backend::service::{
    create_license_request, create_licensee, create_owner, create_song,
};

fn registry() -> Registry {
    let mut registry = Registry::open();
    create_owner(
        &mut registry,
        OwnerPayload {
            name: "Alice".to_string(),
            email: "".to_string(),
            auth_key: "k1".to_string(),
        },
    )
    .unwrap();
    create_licensee(
        &mut registry,
        LicenseePayload { name: "Bob".to_string(), email: "".to_string() },
    )
    .unwrap();
    create_song(
        &mut registry,
        SongPayload {
            title: "Song".to_string(),
            artist: "".to_string(),
            owner_id: 0,
            year: 2000,
            genre: "".to_string(),
            price: 0,
        },
    )
    .unwrap();
    create_license_request(
        &mut registry,
        LicensePayload {
            song_id: 2,
            licensee_id: 1,
            start_date: "".to_string(),
            end_date: "".to_string(),
        },
    )
    .unwrap();
    registry
}

#[test]
fn attaching_enters_the_license_in_both_lists() {
    let mut registry = registry();
    attach_license(&mut registry, 0, 1, 3).unwrap();
    assert_eq!(_get_owner(&registry, &0).unwrap().license_ids, vec![3]);
    assert_eq!(_get_licensee(&registry, &1).unwrap().licenses, vec![3]);
}

#[test]
fn attaching_stops_where_a_party_is_missing() {
    let mut registry = registry();
    let no_owner = attach_license(&mut registry, 9, 1, 3);
    assert_eq!(no_owner.unwrap_err().kind(), ErrorKind::NotFound);
    assert!(_get_licensee(&registry, &1).unwrap().licenses.is_empty());
    let no_licensee = attach_license(&mut registry, 0, 9, 3);
    assert_eq!(no_licensee.unwrap_err().kind(), ErrorKind::NotFound);
    assert_eq!(_get_owner(&registry, &0).unwrap().license_ids, vec![3]);
}

#[test]
fn detaching_takes_the_license_off_both_lists() {
    let mut registry = registry();
    attach_license(&mut registry, 0, 1, 3).unwrap();
    attach_license(&mut registry, 0, 1, 8).unwrap();
    detach_license(&mut registry, 0, 1, 3).unwrap();
    assert_eq!(_get_owner(&registry, &0).unwrap().license_ids, vec![8]);
    assert_eq!(_get_licensee(&registry, &1).unwrap().licenses, vec![8]);
}

#[test]
fn detaching_what_is_in_no_list_is_not_found() {
    let mut registry = registry();
    let missing = detach_license(&mut registry, 0, 1, 3);
    assert_eq!(missing.unwrap_err().kind(), ErrorKind::NotFound);
    attach_license(&mut registry, 0, 9, 3).unwrap_err();
    let half = detach_license(&mut registry, 0, 1, 3);
    assert_eq!(half.unwrap_err().kind(), ErrorKind::NotFound);
    assert!(_get_owner(&registry, &0).unwrap().license_ids.is_empty());
}

#[test]
fn detaching_a_song_cleans_owner_and_licensees_and_keeps_the_song() {
    let mut registry = registry();
    attach_license(&mut registry, 0, 1, 3).unwrap();
    detach_song(&mut registry, 2).unwrap();
    assert!(_get_owner(&registry, &0).unwrap().song_ids.is_empty());
    assert_eq!(_get_owner(&registry, &0).unwrap().license_ids, vec![3]);
    assert!(_get_licensee(&registry, &1).unwrap().licenses.is_empty());
    assert!(_get_song(&registry, &2).is_some());
    let again = detach_song(&mut registry, 2);
    assert_eq!(again.unwrap_err().kind(), ErrorKind::NotFound);
    let missing = detach_song(&mut registry, 7);
    assert_eq!(missing.unwrap_err().kind(), ErrorKind::NotFound);
}

#[test]
fn releasing_takes_licenses_off_the_owner_and_unapproves_them() {
    let mut registry = registry();
    attach_license(&mut registry, 0, 1, 3).unwrap();
    let mut approved = _get_license(&registry, &3).unwrap();
    approved.approved = true;
    approved.price = 7;
    registry.put_license(&approved);
    release_licenses(&mut registry, 2);
    assert!(_get_owner(&registry, &0).unwrap().license_ids.is_empty());
    assert_eq!(_get_licensee(&registry, &1).unwrap().licenses, vec![3]);
    let released = _get_license(&registry, &3).unwrap();
    assert!(!released.approved);
    assert_eq!(released.price, 7);
    release_licenses(&mut registry, 2);
    assert_eq!(_get_license(&registry, &3).unwrap(), released);
    release_licenses(&mut registry, 77);
    assert_eq!(_get_license(&registry, &3).unwrap(), released);
}

#[test]
fn licenses_are_found_by_each_party() {
    let registry = registry();
    let ids = |found: Vec<music_licensing_backend::entity::License>| -> Vec<u64> {
        found.iter().map(|license| license.id).collect()
    };
    assert_eq!(ids(licenses_of(&registry, Party::Song, 2)), vec![3]);
    assert_eq!(ids(licenses_of(&registry, Party::Owner, 0)), vec![3]);
    assert_eq!(ids(licenses_of(&registry, Party::Licensee, 1)), vec![3]);
    assert!(licenses_of(&registry, Party::Song, 0).is_empty());
    assert!(licenses_of(&registry, Party::Owner, 1).is_empty());
    assert!(licenses_of(&registry, Party::Licensee, 2).is_empty());
}
