use music_licensing_backend::codec::MAX_VALUE_BYTES;
use music_licensing_backend::entity::{License, Licensee, Owner, Song};

fn word(x: u64) -> Vec<u8> {
    x.to_le_bytes().to_vec()
}

fn text(s: &str) -> Vec<u8> {
    let mut bytes = word(s.len() as u64);
    bytes.extend_from_slice(s.as_bytes());
    bytes
}

fn song() -> Song {
    Song {
        id: 7,
        title: "Für Elise".to_string(),
        artist: "Beethoven".to_string(),
        owner_id: 3,
        year: 1810,
        genre: "Classical".to_string(),
        price: 12,
    }
}

fn owner() -> Owner {
    Owner {
        id: 3,
        name: "Ludwig".to_string(),
        email: "l@example.org".to_string(),
        auth_key: "sécret".to_string(),
        song_ids: vec![7, 9, u64::MAX],
        license_ids: vec![],
    }
}

fn license() -> License {
    License {
        id: 11,
        song_id: 7,
        owner_id: 3,
        licensee_id: 5,
        approved: true,
        price: u32::MAX,
        start_date: "2024-01-01".to_string(),
        end_date: "".to_string(),
    }
}

fn licensee() -> Licensee {
    Licensee { id: 1, name: "ab".to_string(), email: "".to_string(), licenses: vec![7] }
}

#[test]
fn a_licensee_has_the_documented_bytes() {
    let expected: Vec<u8> = vec![
        1, 0, 0, 0, 0, 0, 0, 0, // id
        2, 0, 0, 0, 0, 0, 0, 0, b'a', b'b', // name
        0, 0, 0, 0, 0, 0, 0, 0, // email
        1, 0, 0, 0, 0, 0, 0, 0, // number of licenses
        7, 0, 0, 0, 0, 0, 0, 0, // the license
    ];
    assert_eq!(licensee().to_bytes(), expected);
    assert_eq!(licensee().to_bytes().len(), 32 + 2 + 8);
}

#[test]
fn a_song_is_its_fields_in_order() {
    let mut expected = word(7);
    expected.extend(text("Für Elise"));
    expected.extend(text("Beethoven"));
    expected.extend(word(3));
    expected.extend(word(1810));
    expected.extend(text("Classical"));
    expected.extend(word(12));
    assert_eq!(song().to_bytes(), expected);
    assert_eq!(song().to_bytes().len(), 56 + 10 + 9 + 9);
}

#[test]
fn an_owner_is_its_fields_in_order() {
    let mut expected = word(3);
    expected.extend(text("Ludwig"));
    expected.extend(text("l@example.org"));
    expected.extend(text("sécret"));
    expected.extend(word(3));
    expected.extend(word(7));
    expected.extend(word(9));
    expected.extend(word(u64::MAX));
    expected.extend(word(0));
    assert_eq!(owner().to_bytes(), expected);
    assert_eq!(owner().to_bytes().len(), 48 + 6 + 13 + 7 + 8 * 3);
}

#[test]
fn a_license_is_its_fields_in_order() {
    let mut expected = word(11);
    expected.extend(word(7));
    expected.extend(word(3));
    expected.extend(word(5));
    expected.extend(word(1));
    expected.extend(word(u32::MAX as u64));
    expected.extend(text("2024-01-01"));
    expected.extend(text(""));
    assert_eq!(license().to_bytes(), expected);
    assert_eq!(license().to_bytes().len(), 64 + 10);
}

#[test]
fn records_are_read_back_unchanged() {
    assert_eq!(Song::from_bytes(&song().to_bytes()), Some(song()));
    assert_eq!(Owner::from_bytes(&owner().to_bytes()), Some(owner()));
    assert_eq!(License::from_bytes(&license().to_bytes()), Some(license()));
    assert_eq!(Licensee::from_bytes(&licensee().to_bytes()), Some(licensee()));
    let unapproved = License { approved: false, price: 0, ..license() };
    assert_eq!(License::from_bytes(&unapproved.to_bytes()), Some(unapproved));
}

#[test]
fn text_outside_ascii_is_read_back_unchanged() {
    let record = Licensee {
        id: 2,
        name: "Ζωή 音楽 🎵".to_string(),
        email: "ñ@example.org".to_string(),
        licenses: vec![],
    };
    assert_eq!(Licensee::from_bytes(&record.to_bytes()), Some(record));
}

#[test]
fn bytes_that_are_cut_short_stand_for_nothing() {
    let bytes = song().to_bytes();
    for cut in 0..bytes.len() {
        assert_eq!(Song::from_bytes(&bytes[..cut].to_vec()), None);
    }
    let bytes = owner().to_bytes();
    for cut in 0..bytes.len() {
        assert_eq!(Owner::from_bytes(&bytes[..cut].to_vec()), None);
    }
}

#[test]
fn bytes_with_something_left_over_stand_for_nothing() {
    let mut bytes = song().to_bytes();
    bytes.push(0);
    assert_eq!(Song::from_bytes(&bytes), None);
    let mut bytes = licensee().to_bytes();
    bytes.extend(word(0));
    assert_eq!(Licensee::from_bytes(&bytes), None);
}

#[test]
fn bytes_that_are_no_utf8_stand_for_nothing() {
    let mut bytes = word(1);
    bytes.extend(word(2));
    bytes.extend(vec![0xff, 0xfe]);
    bytes.extend(text(""));
    bytes.extend(word(0));
    assert_eq!(Licensee::from_bytes(&bytes), None);
    let mut valid = word(1);
    valid.extend(text("ab"));
    valid.extend(text(""));
    valid.extend(word(0));
    assert!(Licensee::from_bytes(&valid).is_some());
}

#[test]
fn a_flag_is_zero_or_one_and_a_price_fits_32_bits() {
    let good = license().to_bytes();
    let mut bad_flag = good.clone();
    bad_flag[32] = 2;
    assert_eq!(License::from_bytes(&bad_flag), None);
    let mut bad_price = good.clone();
    bad_price[44] = 1;
    assert_eq!(License::from_bytes(&bad_price), None);
    let mut bad_year = song().to_bytes();
    let year_at = 8 + 8 + 10 + 8 + 9 + 8;
    bad_year[year_at + 4] = 1;
    assert_eq!(Song::from_bytes(&bad_year), None);
}

#[test]
fn a_count_that_promises_more_than_there_is_stands_for_nothing() {
    let mut bytes = word(1);
    bytes.extend(text("ab"));
    bytes.extend(text(""));
    bytes.extend(word(u64::MAX));
    bytes.extend(word(7));
    assert_eq!(Licensee::from_bytes(&bytes), None);
    let mut long_text = word(1);
    long_text.extend(word(u64::MAX));
    long_text.extend(vec![b'a', b'b']);
    assert_eq!(Licensee::from_bytes(&long_text), None);
}

#[test]
fn a_value_is_as_long_as_32_bits_count() {
    assert_eq!(MAX_VALUE_BYTES as u64, u32::MAX as u64);
}

#[test]
fn a_long_record_is_read_back_unchanged() {
    let long = Song { title: "t".repeat(5000), genre: "g".repeat(70000), ..song() };
    assert_eq!(long.to_bytes().len(), 56 + 5000 + 9 + 70000);
    assert_eq!(Song::from_bytes(&long.to_bytes()), Some(long));
    let many = Owner { license_ids: (0..3000u64).collect(), ..owner() };
    assert_eq!(Owner::from_bytes(&many.to_bytes()), Some(many));
}
