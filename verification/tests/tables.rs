use music_licensing_backend::entity::{License, Licensee, Owner, Song};
use music_licensing_backend::registry::{
    has_room, Record, Registry, _get_license, _get_licensee, _get_owner, _get_song,
};

fn song(id: u64, title: &str) -> Song {
    Song {
        id,
        title: title.to_string(),
        artist: "".to_string(),
        owner_id: 0,
        year: 2000,
        genre: "".to_string(),
        price: 1,
    }
}

fn owner(id: u64) -> Owner {
    Owner {
        id,
        name: "Alice".to_string(),
        email: "".to_string(),
        auth_key: "k1".to_string(),
        song_ids: vec![],
        license_ids: vec![],
    }
}

fn license(id: u64, song_id: u64) -> License {
    License {
        id,
        song_id,
        owner_id: 0,
        licensee_id: 0,
        approved: false,
        price: 0,
        start_date: "".to_string(),
        end_date: "".to_string(),
    }
}

fn licensee(id: u64) -> Licensee {
    Licensee { id, name: "Bob".to_string(), email: "".to_string(), licenses: vec![] }
}

#[test]
fn the_counter_hands_out_each_number_once() {
    let mut registry = Registry::open();
    assert_eq!(registry.next_id(), 0);
    assert_eq!(registry.next_id(), 1);
    assert_eq!(registry.peek_id(), 2);
    assert_eq!(registry.next_id(), 2);
    assert_eq!(registry.peek_id(), 3);
    assert!(!registry.is_fresh());
}

#[test]
fn two_registries_do_not_share_their_tables() {
    let mut first = Registry::open();
    let second = Registry::open();
    first.put_song(&song(1, "Song"));
    first.next_id();
    assert!(second.is_fresh());
    assert!(_get_song(&second, &1).is_none());
}

#[test]
fn a_record_is_kept_under_its_own_identifier() {
    let mut registry = Registry::open();
    assert_eq!(registry.put_song(&song(5, "Five")), None);
    assert_eq!(registry.put_song(&song(3, "Three")), None);
    assert_eq!(
        registry.put_song(&song(5, "Cinq")),
        Some(song(5, "Five"))
    );
    assert_eq!(_get_song(&registry, &5), Some(song(5, "Cinq")));
    assert_eq!(_get_song(&registry, &3), Some(song(3, "Three")));
    assert_eq!(_get_song(&registry, &4), None);
    assert_eq!(registry.all_songs(), vec![song(3, "Three"), song(5, "Cinq")]);
}

#[test]
fn each_kind_has_its_own_table() {
    let mut registry = Registry::open();
    assert_eq!(registry.put_owner(&owner(1)), None);
    assert_eq!(registry.put_license(&license(1, 9)), None);
    assert_eq!(registry.put_licensee(&licensee(1)), None);
    assert_eq!(registry.put_song(&song(1, "Song")), None);
    assert_eq!(registry.put_owner(&owner(1)), Some(owner(1)));
    assert_eq!(_get_owner(&registry, &1), Some(owner(1)));
    assert_eq!(_get_license(&registry, &1), Some(license(1, 9)));
    assert_eq!(_get_licensee(&registry, &1), Some(licensee(1)));
    assert_eq!(_get_song(&registry, &1), Some(song(1, "Song")));
    assert_eq!(registry.peek_id(), 0);
}

#[test]
fn a_dropped_song_is_gone_and_returned() {
    let mut registry = Registry::open();
    registry.put_song(&song(1, "One"));
    registry.put_song(&song(2, "Two"));
    assert_eq!(registry.drop_song(1), Some(song(1, "One")));
    assert_eq!(registry.drop_song(1), None);
    assert_eq!(_get_song(&registry, &1), None);
    assert_eq!(registry.all_songs(), vec![song(2, "Two")]);
}

#[test]
fn licenses_are_listed_by_ascending_identifier() {
    let mut registry = Registry::open();
    for id in [300u64, 2, 70000, 1, 256, 255] {
        registry.put_license(&license(id, id + 1));
    }
    let found: Vec<u64> = registry.all_licenses().iter().map(|license| license.id).collect();
    assert_eq!(found, vec![1, 2, 255, 256, 300, 70000]);
    assert!(registry.all_songs().is_empty());
}

#[test]
fn a_record_tells_its_identifier_and_its_bytes() {
    let record = licensee(9);
    assert_eq!(Record::id(&record), 9);
    assert_eq!(Record::encode(&record), record.to_bytes());
    assert_eq!(<Licensee as Record>::decode(&record.to_bytes()), Some(record));
    assert_eq!(<Song as Record>::decode(&vec![1, 2, 3]), None);
}

#[test]
fn a_record_longer_than_1024_bytes_is_kept() {
    let mut registry = Registry::open();
    let long = song(1, &"a".repeat(100_000));
    assert_eq!(long.to_bytes().len(), 100_056);
    assert_eq!(registry.put_song(&long), None);
    assert_eq!(_get_song(&registry, &1), Some(long));
}

#[test]
fn room_is_measured_against_the_longest_value() {
    let record = licensee(9);
    let length = record.to_bytes().len();
    assert_eq!(length, 32 + 3);
    assert!(has_room(&record, 0));
    assert!(has_room(&record, 8));
    assert!(has_room(&record, u32::MAX as usize - length));
    assert!(!has_room(&record, u32::MAX as usize - length + 1));
    assert!(!has_room(&record, usize::MAX));
}
