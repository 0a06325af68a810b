//! The byte form in which records are kept in the tables.
//!
//! A record is the concatenation of its fields in declaration order. A number
//! or a flag is one word: eight bytes, little-endian. A text is a word that
//! holds the length of its UTF-8 form, then that form. A list of identifiers
//! is a word that holds the number of entries, then one word per entry.
//!
//! `*_bytes` say what the form of a value is, `*_from_bytes` say which value,
//! if any, a byte string stands for, and the round-trip lemmas show that
//! every value that is short enough for a table is read back unchanged, and
//! that a byte string that stands for a value is the form of that value.

use crate::entity::{
    License, LicenseView, Licensee, LicenseeView, Owner, OwnerView, Song, SongView,
};
use vstd::bytes::{
    lemma_auto_spec_u64_to_from_le_bytes, spec_u64_from_le_bytes, spec_u64_to_le_bytes,
    u64_from_le_bytes, u64_to_le_bytes,
};
use vstd::prelude::*;
use vstd::slice::{slice_subrange, slice_to_vec};
use vstd::string::StrSliceExecFns;
use vstd::utf8::{
    decode_utf8, decode_utf8_encode_utf8, encode_utf8, encode_utf8_decode_utf8,
    encode_utf8_valid_utf8, valid_utf8,
};

verus! {

/// The largest byte form that a table takes: its length must fit in 32
/// bits.
pub const MAX_VALUE_BYTES: usize = 0xffff_ffff;

/// The byte form of a number: one word.
pub open spec fn word_bytes(x: u64) -> Seq<u8> {
    spec_u64_to_le_bytes(x)
}

/// The number that stands for a flag.
pub open spec fn flag_word(flag: bool) -> u64 {
    if flag {
        1
    } else {
        0
    }
}

/// The byte form of a text.
pub open spec fn text_bytes(text: Seq<char>) -> Seq<u8> {
    word_bytes(encode_utf8(text).len() as u64) + encode_utf8(text)
}

/// The words of a list of identifiers, without their number.
pub open spec fn ids_body(ids: Seq<u64>) -> Seq<u8>
    decreases ids.len(),
{
    if ids.len() == 0 {
        Seq::empty()
    } else {
        word_bytes(ids[0]) + ids_body(ids.drop_first())
    }
}

/// The byte form of a list of identifiers.
pub open spec fn ids_bytes(ids: Seq<u64>) -> Seq<u8> {
    word_bytes(ids.len() as u64) + ids_body(ids)
}

/// The byte form of a song.
pub open spec fn song_bytes(song: SongView) -> Seq<u8> {
    word_bytes(song.id) + (text_bytes(song.title) + (text_bytes(song.artist) + (word_bytes(
        song.owner_id,
    ) + (word_bytes(song.year as u64) + (text_bytes(song.genre) + word_bytes(
        song.price as u64,
    ))))))
}

/// The byte form of an owner.
pub open spec fn owner_bytes(owner: OwnerView) -> Seq<u8> {
    word_bytes(owner.id) + (text_bytes(owner.name) + (text_bytes(owner.email) + (text_bytes(
        owner.auth_key,
    ) + (ids_bytes(owner.song_ids) + ids_bytes(owner.license_ids)))))
}

/// The byte form of a license.
pub open spec fn license_bytes(license: LicenseView) -> Seq<u8> {
    word_bytes(license.id) + (word_bytes(license.song_id) + (word_bytes(license.owner_id)
        + (word_bytes(license.licensee_id) + (word_bytes(flag_word(license.approved))
        + (word_bytes(license.price as u64) + (text_bytes(license.start_date) + text_bytes(
        license.end_date,
    )))))))
}

/// The byte form of a licensee.
pub open spec fn licensee_bytes(licensee: LicenseeView) -> Seq<u8> {
    word_bytes(licensee.id) + (text_bytes(licensee.name) + (text_bytes(licensee.email)
        + ids_bytes(licensee.licenses)))
}

/// What is left of a byte string while it is read from the front. Once `ok`
/// is false the reading has failed, and stays failed.
pub struct Cursor {
    pub rest: Seq<u8>,
    pub ok: bool,
}

/// The cursor at the front of a byte string.
pub open spec fn start(bytes: Seq<u8>) -> Cursor {
    Cursor { rest: bytes, ok: true }
}

/// A cursor whose reading has failed.
pub open spec fn failed(cursor: Cursor) -> Cursor {
    Cursor { rest: cursor.rest, ok: false }
}

/// Reads one word.
pub open spec fn read_word(cursor: Cursor) -> (u64, Cursor) {
    if cursor.ok && cursor.rest.len() >= 8 {
        (spec_u64_from_le_bytes(cursor.rest.take(8)), Cursor { rest: cursor.rest.skip(8), ok: true })
    } else {
        (0, failed(cursor))
    }
}

/// Reads a text: its length, then as many bytes, which must be UTF-8.
pub open spec fn read_text(cursor: Cursor) -> (Seq<char>, Cursor) {
    let (length, after) = read_word(cursor);
    if after.ok && length <= after.rest.len() && valid_utf8(after.rest.take(length as int)) {
        (
            decode_utf8(after.rest.take(length as int)),
            Cursor { rest: after.rest.skip(length as int), ok: true },
        )
    } else {
        (Seq::empty(), failed(after))
    }
}

/// Reads `count` identifiers.
pub open spec fn read_ids_body(cursor: Cursor, count: nat) -> (Seq<u64>, Cursor)
    decreases count,
{
    if count == 0 {
        (Seq::empty(), cursor)
    } else {
        let (first, after) = read_word(cursor);
        let (others, end) = read_ids_body(after, (count - 1) as nat);
        (seq![first] + others, end)
    }
}

/// Reads a list of identifiers: their number, then as many words.
pub open spec fn read_ids(cursor: Cursor) -> (Seq<u64>, Cursor) {
    let (count, after) = read_word(cursor);
    read_ids_body(after, count as nat)
}

/// Whether the reading has not failed and nothing is left.
pub open spec fn finished(cursor: Cursor) -> bool {
    cursor.ok && cursor.rest.len() == 0
}

/// The song that a byte string stands for, if any.
pub open spec fn song_from_bytes(bytes: Seq<u8>) -> Option<SongView> {
    let (id, c1) = read_word(start(bytes));
    let (title, c2) = read_text(c1);
    let (artist, c3) = read_text(c2);
    let (owner_id, c4) = read_word(c3);
    let (year, c5) = read_word(c4);
    let (genre, c6) = read_text(c5);
    let (price, c7) = read_word(c6);
    if finished(c7) && year <= u32::MAX && price <= u32::MAX {
        Some(
            SongView {
                id,
                title,
                artist,
                owner_id,
                year: year as u32,
                genre,
                price: price as u32,
            },
        )
    } else {
        None
    }
}

/// The owner that a byte string stands for, if any.
pub open spec fn owner_from_bytes(bytes: Seq<u8>) -> Option<OwnerView> {
    let (id, c1) = read_word(start(bytes));
    let (name, c2) = read_text(c1);
    let (email, c3) = read_text(c2);
    let (auth_key, c4) = read_text(c3);
    let (song_ids, c5) = read_ids(c4);
    let (license_ids, c6) = read_ids(c5);
    if finished(c6) {
        Some(OwnerView { id, name, email, auth_key, song_ids, license_ids })
    } else {
        None
    }
}

/// The license that a byte string stands for, if any.
pub open spec fn license_from_bytes(bytes: Seq<u8>) -> Option<LicenseView> {
    let (id, c1) = read_word(start(bytes));
    let (song_id, c2) = read_word(c1);
    let (owner_id, c3) = read_word(c2);
    let (licensee_id, c4) = read_word(c3);
    let (approved, c5) = read_word(c4);
    let (price, c6) = read_word(c5);
    let (start_date, c7) = read_text(c6);
    let (end_date, c8) = read_text(c7);
    if finished(c8) && approved <= 1 && price <= u32::MAX {
        Some(
            LicenseView {
                id,
                song_id,
                owner_id,
                licensee_id,
                approved: approved == 1,
                price: price as u32,
                start_date,
                end_date,
            },
        )
    } else {
        None
    }
}

/// The licensee that a byte string stands for, if any.
pub open spec fn licensee_from_bytes(bytes: Seq<u8>) -> Option<LicenseeView> {
    let (id, c1) = read_word(start(bytes));
    let (name, c2) = read_text(c1);
    let (email, c3) = read_text(c2);
    let (licenses, c4) = read_ids(c3);
    if finished(c4) {
        Some(LicenseeView { id, name, email, licenses })
    } else {
        None
    }
}

/// A word is eight bytes.
pub proof fn lemma_word_bytes_len(x: u64)
    ensures
        word_bytes(x).len() == 8,
{
    lemma_auto_spec_u64_to_from_le_bytes();
}

/// The words of a list are eight bytes for each entry.
pub proof fn lemma_ids_body_len(ids: Seq<u64>)
    ensures
        ids_body(ids).len() == 8 * ids.len(),
    decreases ids.len(),
{
    if ids.len() > 0 {
        lemma_word_bytes_len(ids[0]);
        lemma_ids_body_len(ids.drop_first());
    }
}

/// Appending one identifier to a list appends one word to its body.
pub proof fn lemma_ids_body_push(ids: Seq<u64>, id: u64)
    ensures
        ids_body(ids.push(id)) == ids_body(ids) + word_bytes(id),
    decreases ids.len(),
{
    if ids.len() == 0 {
        reveal_with_fuel(ids_body, 2);
        assert(ids.push(id).drop_first() =~= Seq::<u64>::empty());
        assert(ids_body(ids.push(id)) =~= ids_body(ids) + word_bytes(id));
    } else {
        lemma_ids_body_push(ids.drop_first(), id);
        assert(ids.push(id).drop_first() =~= ids.drop_first().push(id));
        assert(ids_body(ids.push(id)) =~= ids_body(ids) + word_bytes(id));
    }
}

/// A word that was written is read back, and what follows it is left.
pub proof fn lemma_read_word(x: u64, rest: Seq<u8>)
    ensures
        read_word(start(word_bytes(x) + rest)) == (x, start(rest)),
{
    lemma_auto_spec_u64_to_from_le_bytes();
    let all = word_bytes(x) + rest;
    assert(all.take(8) =~= word_bytes(x));
    assert(all.skip(8) =~= rest);
}

/// A text that was written is read back, and what follows it is left.
pub proof fn lemma_read_text(text: Seq<char>, rest: Seq<u8>)
    requires
        encode_utf8(text).len() <= u64::MAX,
    ensures
        read_text(start(text_bytes(text) + rest)) == (text, start(rest)),
{
    let form = encode_utf8(text);
    let length = form.len() as u64;
    assert(text_bytes(text) + rest =~= word_bytes(length) + (form + rest));
    lemma_read_word(length, form + rest);
    assert((form + rest).take(length as int) =~= form);
    assert((form + rest).skip(length as int) =~= rest);
    encode_utf8_valid_utf8(text);
    encode_utf8_decode_utf8(text);
}

/// Identifiers that were written are read back, and what follows is left.
pub proof fn lemma_read_ids_body(ids: Seq<u64>, rest: Seq<u8>)
    ensures
        read_ids_body(start(ids_body(ids) + rest), ids.len()) == (ids, start(rest)),
    decreases ids.len(),
{
    if ids.len() == 0 {
        assert(ids_body(ids) + rest =~= rest);
        assert(ids =~= Seq::<u64>::empty());
    } else {
        let tail = ids.drop_first();
        assert(ids_body(ids) + rest =~= word_bytes(ids[0]) + (ids_body(tail) + rest));
        lemma_read_word(ids[0], ids_body(tail) + rest);
        lemma_read_ids_body(tail, rest);
        assert(seq![ids[0]] + tail =~= ids);
    }
}

/// A list that was written is read back, and what follows it is left.
pub proof fn lemma_read_ids(ids: Seq<u64>, rest: Seq<u8>)
    requires
        ids.len() <= u64::MAX,
    ensures
        read_ids(start(ids_bytes(ids) + rest)) == (ids, start(rest)),
{
    assert(ids_bytes(ids) + rest =~= word_bytes(ids.len() as u64) + (ids_body(ids) + rest));
    lemma_read_word(ids.len() as u64, ids_body(ids) + rest);
    lemma_read_ids_body(ids, rest);
}

/// A text's form is at least one word long and no shorter than its UTF-8 form.
pub proof fn lemma_text_bytes_len(text: Seq<char>)
    ensures
        text_bytes(text).len() == 8 + encode_utf8(text).len(),
{
    lemma_word_bytes_len(encode_utf8(text).len() as u64);
}

/// A list's form is one word and eight bytes for each entry.
pub proof fn lemma_ids_bytes_len(ids: Seq<u64>)
    ensures
        ids_bytes(ids).len() == 8 + 8 * ids.len(),
{
    lemma_word_bytes_len(ids.len() as u64);
    lemma_ids_body_len(ids);
}

/// The length of a song's byte form.
pub open spec fn song_len(song: SongView) -> nat {
    40 + encode_utf8(song.title).len() + encode_utf8(song.artist).len() + encode_utf8(
        song.genre,
    ).len() + 16
}

/// The length of an owner's byte form.
pub open spec fn owner_len(owner: OwnerView) -> nat {
    48 + encode_utf8(owner.name).len() + encode_utf8(owner.email).len() + encode_utf8(
        owner.auth_key,
    ).len() + 8 * owner.song_ids.len() + 8 * owner.license_ids.len()
}

/// The length of a license's byte form.
pub open spec fn license_len(license: LicenseView) -> nat {
    64 + encode_utf8(license.start_date).len() + encode_utf8(license.end_date).len()
}

/// The length of a licensee's byte form.
pub open spec fn licensee_len(licensee: LicenseeView) -> nat {
    32 + encode_utf8(licensee.name).len() + encode_utf8(licensee.email).len() + 8
        * licensee.licenses.len()
}

/// A song's byte form has the length that `song_len` gives.
pub proof fn lemma_song_bytes_len(song: SongView)
    ensures
        song_bytes(song).len() == song_len(song),
{
    lemma_word_bytes_len(song.id);
    lemma_word_bytes_len(song.owner_id);
    lemma_word_bytes_len(song.year as u64);
    lemma_word_bytes_len(song.price as u64);
    lemma_text_bytes_len(song.title);
    lemma_text_bytes_len(song.artist);
    lemma_text_bytes_len(song.genre);
}

/// An owner's byte form has the length that `owner_len` gives.
pub proof fn lemma_owner_bytes_len(owner: OwnerView)
    ensures
        owner_bytes(owner).len() == owner_len(owner),
{
    lemma_word_bytes_len(owner.id);
    lemma_text_bytes_len(owner.name);
    lemma_text_bytes_len(owner.email);
    lemma_text_bytes_len(owner.auth_key);
    lemma_ids_bytes_len(owner.song_ids);
    lemma_ids_bytes_len(owner.license_ids);
}

/// A license's byte form has the length that `license_len` gives.
pub proof fn lemma_license_bytes_len(license: LicenseView)
    ensures
        license_bytes(license).len() == license_len(license),
{
    lemma_word_bytes_len(license.id);
    lemma_word_bytes_len(license.song_id);
    lemma_word_bytes_len(license.owner_id);
    lemma_word_bytes_len(license.licensee_id);
    lemma_word_bytes_len(flag_word(license.approved));
    lemma_word_bytes_len(license.price as u64);
    lemma_text_bytes_len(license.start_date);
    lemma_text_bytes_len(license.end_date);
}

/// A licensee's byte form has the length that `licensee_len` gives.
pub proof fn lemma_licensee_bytes_len(licensee: LicenseeView)
    ensures
        licensee_bytes(licensee).len() == licensee_len(licensee),
{
    lemma_word_bytes_len(licensee.id);
    lemma_text_bytes_len(licensee.name);
    lemma_text_bytes_len(licensee.email);
    lemma_ids_bytes_len(licensee.licenses);
}

/// A song whose form is short enough for a table is read back unchanged.
pub proof fn lemma_song_round_trip(song: SongView)
    requires
        song_len(song) <= MAX_VALUE_BYTES,
    ensures
        song_from_bytes(song_bytes(song)) == Some(song),
{
    let r6 = word_bytes(song.price as u64);
    let r5 = text_bytes(song.genre) + r6;
    let r4 = word_bytes(song.year as u64) + r5;
    let r3 = word_bytes(song.owner_id) + r4;
    let r2 = text_bytes(song.artist) + r3;
    let r1 = text_bytes(song.title) + r2;
    lemma_read_word(song.id, r1);
    lemma_read_text(song.title, r2);
    lemma_read_text(song.artist, r3);
    lemma_read_word(song.owner_id, r4);
    lemma_read_word(song.year as u64, r5);
    lemma_read_text(song.genre, r6);
    assert(r6 =~= r6 + Seq::<u8>::empty());
    lemma_read_word(song.price as u64, Seq::empty());
}

/// An owner whose form is short enough for a table is read back unchanged.
pub proof fn lemma_owner_round_trip(owner: OwnerView)
    requires
        owner_len(owner) <= MAX_VALUE_BYTES,
    ensures
        owner_from_bytes(owner_bytes(owner)) == Some(owner),
{
    let r5 = ids_bytes(owner.license_ids);
    let r4 = ids_bytes(owner.song_ids) + r5;
    let r3 = text_bytes(owner.auth_key) + r4;
    let r2 = text_bytes(owner.email) + r3;
    let r1 = text_bytes(owner.name) + r2;
    lemma_read_word(owner.id, r1);
    lemma_read_text(owner.name, r2);
    lemma_read_text(owner.email, r3);
    lemma_read_text(owner.auth_key, r4);
    lemma_read_ids(owner.song_ids, r5);
    assert(r5 =~= r5 + Seq::<u8>::empty());
    lemma_read_ids(owner.license_ids, Seq::empty());
}

/// A license whose form is short enough for a table is read back unchanged.
pub proof fn lemma_license_round_trip(license: LicenseView)
    requires
        license_len(license) <= MAX_VALUE_BYTES,
    ensures
        license_from_bytes(license_bytes(license)) == Some(license),
{
    let r7 = text_bytes(license.end_date);
    let r6 = text_bytes(license.start_date) + r7;
    let r5 = word_bytes(license.price as u64) + r6;
    let r4 = word_bytes(flag_word(license.approved)) + r5;
    let r3 = word_bytes(license.licensee_id) + r4;
    let r2 = word_bytes(license.owner_id) + r3;
    let r1 = word_bytes(license.song_id) + r2;
    lemma_read_word(license.id, r1);
    lemma_read_word(license.song_id, r2);
    lemma_read_word(license.owner_id, r3);
    lemma_read_word(license.licensee_id, r4);
    lemma_read_word(flag_word(license.approved), r5);
    lemma_read_word(license.price as u64, r6);
    lemma_read_text(license.start_date, r7);
    assert(r7 =~= r7 + Seq::<u8>::empty());
    lemma_read_text(license.end_date, Seq::empty());
}

/// A licensee whose form is short enough for a table is read back unchanged.
pub proof fn lemma_licensee_round_trip(licensee: LicenseeView)
    requires
        licensee_len(licensee) <= MAX_VALUE_BYTES,
    ensures
        licensee_from_bytes(licensee_bytes(licensee)) == Some(licensee),
{
    let r3 = ids_bytes(licensee.licenses);
    let r2 = text_bytes(licensee.email) + r3;
    let r1 = text_bytes(licensee.name) + r2;
    lemma_read_word(licensee.id, r1);
    lemma_read_text(licensee.name, r2);
    lemma_read_text(licensee.email, r3);
    assert(r3 =~= r3 + Seq::<u8>::empty());
    lemma_read_ids(licensee.licenses, Seq::empty());
}

/// A word that was read was there: the cursor held its bytes, then what is
/// left.
pub proof fn lemma_word_was_read(cursor: Cursor)
    requires
        read_word(cursor).1.ok,
    ensures
        cursor.ok,
        cursor.rest == word_bytes(read_word(cursor).0) + read_word(cursor).1.rest,
{
    lemma_auto_spec_u64_to_from_le_bytes();
    assert(cursor.rest =~= cursor.rest.take(8) + cursor.rest.skip(8));
}

/// A text that was read was there.
pub proof fn lemma_text_was_read(cursor: Cursor)
    requires
        read_text(cursor).1.ok,
    ensures
        cursor.ok,
        cursor.rest == text_bytes(read_text(cursor).0) + read_text(cursor).1.rest,
{
    let (length, after) = read_word(cursor);
    lemma_word_was_read(cursor);
    let piece = after.rest.take(length as int);
    decode_utf8_encode_utf8(piece);
    assert(after.rest =~= piece + after.rest.skip(length as int));
    assert(cursor.rest =~= text_bytes(read_text(cursor).0) + read_text(cursor).1.rest);
}

/// Identifiers that were read were there, as many as were asked for.
pub proof fn lemma_ids_body_was_read(cursor: Cursor, count: nat)
    requires
        read_ids_body(cursor, count).1.ok,
    ensures
        cursor.ok,
        read_ids_body(cursor, count).0.len() == count,
        cursor.rest == ids_body(read_ids_body(cursor, count).0) + read_ids_body(
            cursor,
            count,
        ).1.rest,
    decreases count,
{
    if count == 0 {
        assert(cursor.rest =~= ids_body(Seq::<u64>::empty()) + cursor.rest);
    } else {
        let (first, after) = read_word(cursor);
        let (others, end) = read_ids_body(after, (count - 1) as nat);
        if !after.ok {
            lemma_failed_ids_body(after, (count - 1) as nat);
        }
        lemma_word_was_read(cursor);
        lemma_ids_body_was_read(after, (count - 1) as nat);
        let ids = seq![first] + others;
        assert(ids.drop_first() =~= others);
        assert(cursor.rest =~= ids_body(ids) + end.rest);
    }
}

/// A list that was read was there.
pub proof fn lemma_ids_was_read(cursor: Cursor)
    requires
        read_ids(cursor).1.ok,
    ensures
        cursor.ok,
        cursor.rest == ids_bytes(read_ids(cursor).0) + read_ids(cursor).1.rest,
{
    let (count, after) = read_word(cursor);
    if !after.ok {
        lemma_failed_ids_body(after, count as nat);
    }
    lemma_word_was_read(cursor);
    lemma_ids_body_was_read(after, count as nat);
    assert(cursor.rest =~= ids_bytes(read_ids(cursor).0) + read_ids(cursor).1.rest);
}

/// A byte string that stands for a song is the byte form of that song.
pub proof fn lemma_song_canonical(bytes: Seq<u8>)
    requires
        song_from_bytes(bytes) is Some,
    ensures
        song_bytes(song_from_bytes(bytes)->0) == bytes,
{
    let (id, c1) = read_word(start(bytes));
    let (title, c2) = read_text(c1);
    let (artist, c3) = read_text(c2);
    let (owner_id, c4) = read_word(c3);
    let (year, c5) = read_word(c4);
    let (genre, c6) = read_text(c5);
    let (price, c7) = read_word(c6);
    lemma_word_was_read(c6);
    lemma_text_was_read(c5);
    lemma_word_was_read(c4);
    lemma_word_was_read(c3);
    lemma_text_was_read(c2);
    lemma_text_was_read(c1);
    lemma_word_was_read(start(bytes));
    assert(c7.rest =~= Seq::<u8>::empty());
    assert(song_bytes(song_from_bytes(bytes)->0) =~= bytes);
}

/// A byte string that stands for an owner is the byte form of that owner.
pub proof fn lemma_owner_canonical(bytes: Seq<u8>)
    requires
        owner_from_bytes(bytes) is Some,
    ensures
        owner_bytes(owner_from_bytes(bytes)->0) == bytes,
{
    let (id, c1) = read_word(start(bytes));
    let (name, c2) = read_text(c1);
    let (email, c3) = read_text(c2);
    let (auth_key, c4) = read_text(c3);
    let (song_ids, c5) = read_ids(c4);
    let (license_ids, c6) = read_ids(c5);
    lemma_ids_was_read(c5);
    lemma_ids_was_read(c4);
    lemma_text_was_read(c3);
    lemma_text_was_read(c2);
    lemma_text_was_read(c1);
    lemma_word_was_read(start(bytes));
    assert(c6.rest =~= Seq::<u8>::empty());
    assert(owner_bytes(owner_from_bytes(bytes)->0) =~= bytes);
}

/// A byte string that stands for a license is the byte form of that
/// license.
#[verifier::rlimit(60)]
pub proof fn lemma_license_canonical(bytes: Seq<u8>)
    requires
        license_from_bytes(bytes) is Some,
    ensures
        license_bytes(license_from_bytes(bytes)->0) == bytes,
{
    let (id, c1) = read_word(start(bytes));
    let (song_id, c2) = read_word(c1);
    let (owner_id, c3) = read_word(c2);
    let (licensee_id, c4) = read_word(c3);
    let (approved, c5) = read_word(c4);
    let (price, c6) = read_word(c5);
    let (start_date, c7) = read_text(c6);
    let (end_date, c8) = read_text(c7);
    lemma_text_was_read(c7);
    lemma_text_was_read(c6);
    lemma_word_was_read(c5);
    lemma_word_was_read(c4);
    lemma_word_was_read(c3);
    lemma_word_was_read(c2);
    lemma_word_was_read(c1);
    lemma_word_was_read(start(bytes));
    assert(c8.rest =~= Seq::<u8>::empty());
    assert(c7.rest =~= text_bytes(end_date));
    assert(flag_word(approved == 1) == approved);
    assert((price as u32) as u64 == price);
    assert(license_bytes(license_from_bytes(bytes)->0) =~= bytes);
}

/// A byte string that stands for a licensee is the byte form of that
/// licensee.
pub proof fn lemma_licensee_canonical(bytes: Seq<u8>)
    requires
        licensee_from_bytes(bytes) is Some,
    ensures
        licensee_bytes(licensee_from_bytes(bytes)->0) == bytes,
{
    let (id, c1) = read_word(start(bytes));
    let (name, c2) = read_text(c1);
    let (email, c3) = read_text(c2);
    let (licenses, c4) = read_ids(c3);
    lemma_ids_was_read(c3);
    lemma_text_was_read(c2);
    lemma_text_was_read(c1);
    lemma_word_was_read(start(bytes));
    assert(c4.rest =~= Seq::<u8>::empty());
    assert(licensee_bytes(licensee_from_bytes(bytes)->0) =~= bytes);
}

/// Calls `String::from_utf8`. The standard library documents that it returns
/// the text that the bytes spell when they are valid UTF-8, and an error
/// otherwise.
#[verifier::external_body]
fn text_from_utf8(bytes: Vec<u8>) -> (text: Option<String>)
    ensures
        text is Some <==> valid_utf8(bytes@),
        text is Some ==> text->0@ == decode_utf8(bytes@),
{
    String::from_utf8(bytes).ok()
}

fn put_word(buffer: &mut Vec<u8>, x: u64)
    ensures
        final(buffer)@ == old(buffer)@ + word_bytes(x),
{
    let mut word = u64_to_le_bytes(x);
    buffer.append(&mut word);
}

fn put_text(buffer: &mut Vec<u8>, text: &String)
    ensures
        final(buffer)@ == old(buffer)@ + text_bytes(text@),
{
    let mut form = text.as_str().as_bytes_vec();
    put_word(buffer, form.len() as u64);
    buffer.append(&mut form);
    assert(buffer@ =~= old(buffer)@ + text_bytes(text@));
}

fn put_ids(buffer: &mut Vec<u8>, ids: &Vec<u64>)
    ensures
        final(buffer)@ == old(buffer)@ + ids_bytes(ids@),
{
    put_word(buffer, ids.len() as u64);
    let mut at: usize = 0;
    while at < ids.len()
        invariant
            at <= ids.len(),
            buffer@ == old(buffer)@ + word_bytes(ids.len() as u64) + ids_body(ids@.take(at as int)),
        decreases ids.len() - at,
    {
        proof {
            lemma_ids_body_push(ids@.take(at as int), ids[at as int]);
            assert(ids@.take(at as int).push(ids[at as int]) =~= ids@.take(at + 1));
        }
        put_word(buffer, ids[at]);
        at += 1;
        assert(buffer@ =~= old(buffer)@ + word_bytes(ids.len() as u64) + ids_body(
            ids@.take(at as int),
        ));
    }
    assert(ids@.take(at as int) =~= ids@);
    assert(buffer@ =~= old(buffer)@ + ids_bytes(ids@));
}

fn flag_as_word(flag: bool) -> (word: u64)
    ensures
        word == flag_word(flag),
{
    if flag {
        1
    } else {
        0
    }
}

impl Song {
    /// The byte form of this song.
    pub fn to_bytes(&self) -> (bytes: Vec<u8>)
        ensures
            bytes@ == song_bytes(self@),
    {
        let mut buffer: Vec<u8> = Vec::new();
        put_word(&mut buffer, self.id);
        put_text(&mut buffer, &self.title);
        put_text(&mut buffer, &self.artist);
        put_word(&mut buffer, self.owner_id);
        put_word(&mut buffer, self.year as u64);
        put_text(&mut buffer, &self.genre);
        put_word(&mut buffer, self.price as u64);
        assert(buffer@ =~= song_bytes(self@));
        buffer
    }

    /// The song that `bytes` stand for, if they stand for one.
    pub fn from_bytes(bytes: &Vec<u8>) -> (song: Option<Song>)
        ensures
            song is Some <==> song_from_bytes(bytes@) is Some,
            song is Some ==> song->0@ == song_from_bytes(bytes@)->0,
    {
        let mut reader = Reader::over(bytes);
        let id = reader.word();
        let title = reader.text();
        let artist = reader.text();
        let owner_id = reader.word();
        let year = reader.word();
        let genre = reader.text();
        let price = reader.word();
        if reader.finished() && year <= u32::MAX as u64 && price <= u32::MAX as u64 {
            Some(
                Song { id, title, artist, owner_id, year: year as u32, genre, price: price as u32 },
            )
        } else {
            None
        }
    }
}

impl Owner {
    /// The byte form of this owner.
    pub fn to_bytes(&self) -> (bytes: Vec<u8>)
        ensures
            bytes@ == owner_bytes(self@),
    {
        let mut buffer: Vec<u8> = Vec::new();
        put_word(&mut buffer, self.id);
        put_text(&mut buffer, &self.name);
        put_text(&mut buffer, &self.email);
        put_text(&mut buffer, &self.auth_key);
        put_ids(&mut buffer, &self.song_ids);
        put_ids(&mut buffer, &self.license_ids);
        assert(buffer@ =~= owner_bytes(self@));
        buffer
    }

    /// The owner that `bytes` stand for, if they stand for one.
    pub fn from_bytes(bytes: &Vec<u8>) -> (owner: Option<Owner>)
        ensures
            owner is Some <==> owner_from_bytes(bytes@) is Some,
            owner is Some ==> owner->0@ == owner_from_bytes(bytes@)->0,
    {
        let mut reader = Reader::over(bytes);
        let id = reader.word();
        let name = reader.text();
        let email = reader.text();
        let auth_key = reader.text();
        let song_ids = reader.ids();
        let license_ids = reader.ids();
        if reader.finished() {
            Some(Owner { id, name, email, auth_key, song_ids, license_ids })
        } else {
            None
        }
    }
}

impl License {
    /// The byte form of this license.
    pub fn to_bytes(&self) -> (bytes: Vec<u8>)
        ensures
            bytes@ == license_bytes(self@),
    {
        let mut buffer: Vec<u8> = Vec::new();
        put_word(&mut buffer, self.id);
        put_word(&mut buffer, self.song_id);
        put_word(&mut buffer, self.owner_id);
        put_word(&mut buffer, self.licensee_id);
        put_word(&mut buffer, flag_as_word(self.approved));
        put_word(&mut buffer, self.price as u64);
        put_text(&mut buffer, &self.start_date);
        put_text(&mut buffer, &self.end_date);
        assert(buffer@ =~= license_bytes(self@));
        buffer
    }

    /// The license that `bytes` stand for, if they stand for one.
    pub fn from_bytes(bytes: &Vec<u8>) -> (license: Option<License>)
        ensures
            license is Some <==> license_from_bytes(bytes@) is Some,
            license is Some ==> license->0@ == license_from_bytes(bytes@)->0,
    {
        let mut reader = Reader::over(bytes);
        let id = reader.word();
        let song_id = reader.word();
        let owner_id = reader.word();
        let licensee_id = reader.word();
        let approved = reader.word();
        let price = reader.word();
        let start_date = reader.text();
        let end_date = reader.text();
        if reader.finished() && approved <= 1 && price <= u32::MAX as u64 {
            Some(
                License {
                    id,
                    song_id,
                    owner_id,
                    licensee_id,
                    approved: approved == 1,
                    price: price as u32,
                    start_date,
                    end_date,
                },
            )
        } else {
            None
        }
    }
}

impl Licensee {
    /// The byte form of this licensee.
    pub fn to_bytes(&self) -> (bytes: Vec<u8>)
        ensures
            bytes@ == licensee_bytes(self@),
    {
        let mut buffer: Vec<u8> = Vec::new();
        put_word(&mut buffer, self.id);
        put_text(&mut buffer, &self.name);
        put_text(&mut buffer, &self.email);
        put_ids(&mut buffer, &self.licenses);
        assert(buffer@ =~= licensee_bytes(self@));
        buffer
    }

    /// The licensee that `bytes` stand for, if they stand for one.
    pub fn from_bytes(bytes: &Vec<u8>) -> (licensee: Option<Licensee>)
        ensures
            licensee is Some <==> licensee_from_bytes(bytes@) is Some,
            licensee is Some ==> licensee->0@ == licensee_from_bytes(bytes@)->0,
    {
        let mut reader = Reader::over(bytes);
        let id = reader.word();
        let name = reader.text();
        let email = reader.text();
        let licenses = reader.ids();
        if reader.finished() {
            Some(Licensee { id, name, email, licenses })
        } else {
            None
        }
    }
}

/// Reads a byte string from the front. Its view is the cursor that the
/// `read_*` functions speak of.
struct Reader<'a> {
    bytes: &'a Vec<u8>,
    at: usize,
    ok: bool,
}

/// Whether a reading step did what `want` says: it failed where `want`
/// fails, and where `want` succeeds it gave the same value and the same rest.
spec fn agrees<T>(got: (T, Cursor), want: (T, Cursor)) -> bool {
    got.1.ok == want.1.ok && (want.1.ok ==> got == want)
}

proof fn lemma_failed_ids_body(cursor: Cursor, count: nat)
    requires
        !cursor.ok,
    ensures
        !read_ids_body(cursor, count).1.ok,
    decreases count,
{
    if count > 0 {
        lemma_failed_ids_body(read_word(cursor).1, (count - 1) as nat);
    }
}

impl<'a> Reader<'a> {
    spec fn inv(&self) -> bool {
        self.at <= self.bytes@.len()
    }

    spec fn cursor(&self) -> Cursor {
        Cursor { rest: self.bytes@.skip(self.at as int), ok: self.ok }
    }

    fn over(bytes: &'a Vec<u8>) -> (reader: Reader<'a>)
        ensures
            reader.inv(),
            reader.bytes == bytes,
            reader.cursor() == start(bytes@),
    {
        assert(bytes@.skip(0) =~= bytes@);
        Reader { bytes, at: 0, ok: true }
    }

    fn finished(&self) -> (done: bool)
        requires
            self.inv(),
        ensures
            done == finished(self.cursor()),
    {
        self.ok && self.at == self.bytes.len()
    }

    fn word(&mut self) -> (x: u64)
        requires
            old(self).inv(),
        ensures
            final(self).inv(),
            final(self).bytes == old(self).bytes,
            agrees((x, final(self).cursor()), read_word(old(self).cursor())),
    {
        if self.ok && self.bytes.len() - self.at >= 8 {
            let piece = slice_subrange(self.bytes.as_slice(), self.at, self.at + 8);
            let x = u64_from_le_bytes(piece);
            proof {
                let rest = self.bytes@.skip(self.at as int);
                assert(rest.take(8) =~= piece@);
                assert(rest.skip(8) =~= self.bytes@.skip(self.at + 8));
            }
            self.at = self.at + 8;
            x
        } else {
            self.ok = false;
            0
        }
    }

    fn text(&mut self) -> (text: String)
        requires
            old(self).inv(),
        ensures
            final(self).inv(),
            final(self).bytes == old(self).bytes,
            agrees((text@, final(self).cursor()), read_text(old(self).cursor())),
    {
        let length = self.word();
        if self.ok && length <= (self.bytes.len() - self.at) as u64 {
            let size = length as usize;
            let piece = slice_to_vec(slice_subrange(self.bytes.as_slice(), self.at, self.at + size));
            proof {
                let rest = self.bytes@.skip(self.at as int);
                assert(rest.take(length as int) =~= piece@);
                assert(rest.skip(length as int) =~= self.bytes@.skip(self.at + size));
            }
            match text_from_utf8(piece) {
                Some(text) => {
                    self.at = self.at + size;
                    text
                },
                None => {
                    self.ok = false;
                    String::new()
                },
            }
        } else {
            self.ok = false;
            String::new()
        }
    }

    fn ids(&mut self) -> (ids: Vec<u64>)
        requires
            old(self).inv(),
        ensures
            final(self).inv(),
            final(self).bytes == old(self).bytes,
            agrees((ids@, final(self).cursor()), read_ids(old(self).cursor())),
    {
        let count = self.word();
        let ghost first = self.cursor();
        let mut ids: Vec<u64> = Vec::new();
        let mut done: u64 = 0;
        proof {
            if !self.ok {
                lemma_failed_ids_body(first, count as nat);
            }
        }
        while done < count && self.ok
            invariant
                self.inv(),
                self.bytes == old(self).bytes,
                done <= count,
                !self.ok ==> !read_ids_body(first, count as nat).1.ok,
                self.ok ==> ({
                    let whole = read_ids_body(first, count as nat);
                    let left = read_ids_body(self.cursor(), (count - done) as nat);
                    &&& whole.1 == left.1
                    &&& whole.0 == ids@ + left.0
                }),
            decreases count - done,
        {
            let ghost before = self.cursor();
            let id = self.word();
            proof {
                let after = read_word(before).1;
                let left = read_ids_body(after, (count - done - 1) as nat);
                if !self.ok {
                    lemma_failed_ids_body(after, (count - done - 1) as nat);
                } else {
                    assert(ids@ + (seq![id] + left.0) =~= ids@.push(id) + left.0);
                }
            }
            if self.ok {
                ids.push(id);
            }
            done += 1;
        }
        proof {
            if self.ok {
                assert(ids@ + Seq::<u64>::empty() =~= ids@);
            }
        }
        ids
    }
}

} // verus!
