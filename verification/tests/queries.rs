use music_licensing_backend::entity::{
    ApprovePayload, ErrorKind, LicensePayload, LicenseePayload, OwnerPayload, Song, SongPayload,
};
use music_licensing_backend::registry::Registry;
use music_licensing_backend::service::{
    approve_license, create_license_request, create_licensee, create_owner, create_song,
    get_all_songs, get_licensee_licenses, get_owner_license_requests, matches_query,
    search_song_title_genre_year,
};
use music_licensing_backend::text::{about_id, about_text};

fn song(title: &str, year: u32, genre: &str) -> SongPayload {
    SongPayload {
        title: title.to_string(),
        artist: "The Band".to_string(),
        owner_id: 0,
        year,
        genre: genre.to_string(),
        price: 10,
    }
}

fn library() -> Registry {
    let mut registry = Registry::open();
    create_owner(
        &mut registry,
        OwnerPayload {
            name: "Alice".to_string(),
            email: "a@example.org".to_string(),
            auth_key: "k1".to_string(),
        },
    )
    .unwrap();
    create_song(&mut registry, song("Blue Train", 1957, "Jazz")).unwrap();
    create_song(&mut registry, song("Odyssey 2020", 1999, "Rock")).unwrap();
    create_song(&mut registry, song("Quiet Year", 2020, "Ambient")).unwrap();
    create_song(&mut registry, song("ÉTUDE", 12020, "jazz fusion")).unwrap();
    create_song(&mut registry, song("Nothing", 1980, "Pop")).unwrap();
    registry
}

fn ids(found: Result<Vec<Song>, ErrorKind>) -> Result<Vec<u64>, ErrorKind> {
    found.map(|songs| songs.iter().map(|song| song.id).collect())
}

fn search(registry: &Registry, query: &str) -> Result<Vec<u64>, ErrorKind> {
    ids(search_song_title_genre_year(registry, query.to_string()).map_err(|error| error.kind()))
}

#[test]
fn all_songs_come_by_ascending_identifier() {
    let registry = library();
    let all = get_all_songs(&registry).unwrap();
    let found: Vec<u64> = all.iter().map(|song| song.id).collect();
    assert_eq!(found, vec![1, 2, 3, 4, 5]);
    assert_eq!(all[0].title, "Blue Train");
    assert_eq!(all[4].title, "Nothing");
}

#[test]
fn many_songs_come_in_numeric_order() {
    let mut registry = Registry::open();
    for n in 0..30u64 {
        let owner = create_owner(
            &mut registry,
            OwnerPayload {
                name: format!("owner {}", n),
                email: "".to_string(),
                auth_key: "k".to_string(),
            },
        )
        .unwrap();
        let mut payload = song("Song", 2000, "Pop");
        payload.owner_id = owner.id;
        create_song(&mut registry, payload).unwrap();
    }
    let found: Vec<u64> = get_all_songs(&registry).unwrap().iter().map(|song| song.id).collect();
    let expected: Vec<u64> = (0..30u64).map(|n| 2 * n + 1).collect();
    assert_eq!(found, expected);
}

#[test]
fn no_songs_is_not_found() {
    let registry = Registry::open();
    assert_eq!(get_all_songs(&registry).unwrap_err().kind(), ErrorKind::NotFound);
    assert_eq!(search(&registry, ""), Err(ErrorKind::NotFound));
}

#[test]
fn a_year_is_searched_by_its_digits() {
    let registry = library();
    assert_eq!(search(&registry, "2020"), Ok(vec![2, 3, 4]));
    assert_eq!(search(&registry, "1957"), Ok(vec![1]));
    assert_eq!(search(&registry, "957"), Ok(vec![1]));
    assert_eq!(search(&registry, "19"), Ok(vec![1, 2, 5]));
}

#[test]
fn the_case_of_letters_does_not_matter() {
    let registry = library();
    assert_eq!(search(&registry, "Jazz"), Ok(vec![1, 4]));
    assert_eq!(search(&registry, "JAZZ"), Ok(vec![1, 4]));
    assert_eq!(search(&registry, "jazz"), Ok(vec![1, 4]));
    assert_eq!(search(&registry, "blue TRAIN"), Ok(vec![1]));
    assert_eq!(search(&registry, "étude"), Ok(vec![4]));
}

#[test]
fn the_artist_is_not_searched() {
    let registry = library();
    assert_eq!(search(&registry, "The Band"), Err(ErrorKind::NotFound));
}

#[test]
fn what_occurs_nowhere_is_not_found() {
    let registry = library();
    assert_eq!(search(&registry, "polka"), Err(ErrorKind::NotFound));
    assert_eq!(search(&registry, "Blue  Train"), Err(ErrorKind::NotFound));
}

#[test]
fn the_empty_query_finds_every_song() {
    let registry = library();
    assert_eq!(search(&registry, ""), Ok(vec![1, 2, 3, 4, 5]));
}

#[test]
fn a_query_is_looked_for_in_title_year_and_genre() {
    assert!(matches_query("blue train", "1957", "jazz", "train"));
    assert!(matches_query("blue train", "1957", "jazz", "95"));
    assert!(matches_query("blue train", "1957", "jazz", "jazz"));
    assert!(matches_query("blue train", "1957", "jazz", ""));
    assert!(!matches_query("blue train", "1957", "jazz", "Train"));
    assert!(!matches_query("blue train", "1957", "jazz", "train1957"));
    assert!(!matches_query("", "", "", "a"));
}

#[test]
fn messages_name_the_identifier_in_decimal() {
    assert_eq!(about_id("song id:", 0, " could not be found"), "song id:0 could not be found");
    assert_eq!(about_id("", 42, ""), "42");
    assert_eq!(about_id("<", u64::MAX, ">"), "<18446744073709551615>");
    assert_eq!(about_text("auth key:", "k1", " is invalid"), "auth key:k1 is invalid");
}

#[test]
fn refusals_of_payloads_say_why() {
    let short = music_licensing_backend::validate::too_short("title");
    assert_eq!(short.kind(), ErrorKind::InvalidPayload);
    assert_eq!(short.message(), "title: length must be at least 2");
}

#[test]
fn every_refusal_has_a_message() {
    let mut registry = library();
    let mut nobodys = song("Song", 2000, "Pop");
    nobodys.owner_id = 77;
    let mut errors = vec![
        get_all_songs(&Registry::open()).unwrap_err(),
        search_song_title_genre_year(&registry, "polka".to_string()).unwrap_err(),
        get_owner_license_requests(&registry, 9).unwrap_err(),
        get_licensee_licenses(&registry, 9).unwrap_err(),
        create_song(&mut registry, song("x", 2000, "Pop")).unwrap_err(),
        create_song(&mut registry, nobodys).unwrap_err(),
    ];
    errors.push(
        music_licensing_backend::service::delete_song(&mut registry, "nope".to_string(), 1)
            .unwrap_err(),
    );
    errors.push(
        approve_license(
            &mut registry,
            ApprovePayload { auth_key: "k1".to_string(), license_id: 99, cost: 1 },
        )
        .unwrap_err(),
    );
    for error in errors {
        assert!(!error.message().is_empty());
    }
    let refused = music_licensing_backend::service::delete_song(&mut registry, "nope".to_string(), 2);
    assert_eq!(
        refused.unwrap_err().message(),
        "auth key:nope is invalid, only song owner can delete"
    );
    assert_eq!(
        search_song_title_genre_year(&registry, "polka".to_string()).unwrap_err().message(),
        "no songs could be found with title:polka"
    );
    assert_eq!(
        get_all_songs(&Registry::open()).unwrap_err().message(),
        "no licensable songs could be found"
    );
}

#[test]
fn an_error_carries_its_message() {
    let registry = Registry::open();
    let error = music_licensing_backend::service::get_song(&registry, 17).unwrap_err();
    assert_eq!(error.kind(), ErrorKind::NotFound);
    assert_eq!(error.message(), "song id:17 could not be found");
}

#[test]
fn licenses_are_found_by_owner_and_by_licensee() {
    let mut registry = library();
    let other = create_owner(
        &mut registry,
        OwnerPayload {
            name: "Carol".to_string(),
            email: "".to_string(),
            auth_key: "k2".to_string(),
        },
    )
    .unwrap();
    let mut payload = song("Hers", 2001, "Folk");
    payload.owner_id = other.id;
    let hers = create_song(&mut registry, payload).unwrap();
    let bob = create_licensee(
        &mut registry,
        LicenseePayload { name: "Bob".to_string(), email: "".to_string() },
    )
    .unwrap();
    let dan = create_licensee(
        &mut registry,
        LicenseePayload { name: "Dan".to_string(), email: "".to_string() },
    )
    .unwrap();
    let ask = |registry: &mut Registry, song_id: u64, licensee_id: u64| {
        create_license_request(
            registry,
            LicensePayload {
                song_id,
                licensee_id,
                start_date: "".to_string(),
                end_date: "".to_string(),
            },
        )
        .unwrap()
        .id
    };
    let first = ask(&mut registry, 1, bob.id);
    let second = ask(&mut registry, hers.id, bob.id);
    let third = ask(&mut registry, 2, dan.id);
    approve_license(
        &mut registry,
        ApprovePayload { auth_key: "k1".to_string(), license_id: third, cost: 1 },
    )
    .unwrap();

    let of = |found: Vec<music_licensing_backend::entity::License>| -> Vec<u64> {
        found.iter().map(|license| license.id).collect()
    };
    assert_eq!(of(get_owner_license_requests(&registry, 0).unwrap()), vec![first, third]);
    assert_eq!(of(get_owner_license_requests(&registry, other.id).unwrap()), vec![second]);
    assert_eq!(of(get_licensee_licenses(&registry, bob.id).unwrap()), vec![first, second]);
    assert_eq!(of(get_licensee_licenses(&registry, dan.id).unwrap()), vec![third]);
    assert_eq!(
        get_owner_license_requests(&registry, bob.id).unwrap_err().kind(),
        ErrorKind::NotFound
    );
    assert_eq!(get_licensee_licenses(&registry, 0).unwrap_err().kind(), ErrorKind::NotFound);
}
