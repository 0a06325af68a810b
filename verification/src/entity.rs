//! The four kinds of record that the registry keeps, the payloads that
//! commands carry, and the errors that commands report.
//!
//! Every record has a mathematical view in which text is a sequence of
//! characters and a list is a sequence of identifiers. All contracts in this
//! crate speak of those views.

use vstd::prelude::*;

verus! {

/// A song that can be licensed.
#[derive(Debug, PartialEq, Eq)]
pub struct Song {
    pub id: u64,
    pub title: String,
    pub artist: String,
    pub owner_id: u64,
    pub year: u32,
    pub genre: String,
    pub price: u32,
}

pub struct SongView {
    pub id: u64,
    pub title: Seq<char>,
    pub artist: Seq<char>,
    pub owner_id: u64,
    pub year: u32,
    pub genre: Seq<char>,
    pub price: u32,
}

impl View for Song {
    type V = SongView;

    open spec fn view(&self) -> SongView {
        SongView {
            id: self.id,
            title: self.title@,
            artist: self.artist@,
            owner_id: self.owner_id,
            year: self.year,
            genre: self.genre@,
            price: self.price,
        }
    }
}

impl Clone for Song {
    fn clone(&self) -> (copy: Song)
        ensures
            copy@ == self@,
    {
        Song {
            id: self.id,
            title: self.title.clone(),
            artist: self.artist.clone(),
            owner_id: self.owner_id,
            year: self.year,
            genre: self.genre.clone(),
            price: self.price,
        }
    }
}

/// The holder of the rights to some songs. `song_ids` and `license_ids` are
/// back-references, kept in step with the songs and licenses themselves.
#[derive(Debug, PartialEq, Eq)]
pub struct Owner {
    pub id: u64,
    pub name: String,
    pub email: String,
    pub auth_key: String,
    pub song_ids: Vec<u64>,
    pub license_ids: Vec<u64>,
}

pub struct OwnerView {
    pub id: u64,
    pub name: Seq<char>,
    pub email: Seq<char>,
    pub auth_key: Seq<char>,
    pub song_ids: Seq<u64>,
    pub license_ids: Seq<u64>,
}

impl View for Owner {
    type V = OwnerView;

    open spec fn view(&self) -> OwnerView {
        OwnerView {
            id: self.id,
            name: self.name@,
            email: self.email@,
            auth_key: self.auth_key@,
            song_ids: self.song_ids@,
            license_ids: self.license_ids@,
        }
    }
}

impl Clone for Owner {
    fn clone(&self) -> (copy: Owner)
        ensures
            copy@ == self@,
    {
        Owner {
            id: self.id,
            name: self.name.clone(),
            email: self.email.clone(),
            auth_key: self.auth_key.clone(),
            song_ids: copy_ids(&self.song_ids),
            license_ids: copy_ids(&self.license_ids),
        }
    }
}

/// An agreement that binds one song, its owner and one licensee.
#[derive(Debug, PartialEq, Eq)]
pub struct License {
    pub id: u64,
    pub song_id: u64,
    pub owner_id: u64,
    pub licensee_id: u64,
    pub approved: bool,
    pub price: u32,
    pub start_date: String,
    pub end_date: String,
}

pub struct LicenseView {
    pub id: u64,
    pub song_id: u64,
    pub owner_id: u64,
    pub licensee_id: u64,
    pub approved: bool,
    pub price: u32,
    pub start_date: Seq<char>,
    pub end_date: Seq<char>,
}

impl View for License {
    type V = LicenseView;

    open spec fn view(&self) -> LicenseView {
        LicenseView {
            id: self.id,
            song_id: self.song_id,
            owner_id: self.owner_id,
            licensee_id: self.licensee_id,
            approved: self.approved,
            price: self.price,
            start_date: self.start_date@,
            end_date: self.end_date@,
        }
    }
}

impl Clone for License {
    fn clone(&self) -> (copy: License)
        ensures
            copy@ == self@,
    {
        License {
            id: self.id,
            song_id: self.song_id,
            owner_id: self.owner_id,
            licensee_id: self.licensee_id,
            approved: self.approved,
            price: self.price,
            start_date: self.start_date.clone(),
            end_date: self.end_date.clone(),
        }
    }
}

/// A party that asks for the right to use songs. `licenses` is a
/// back-reference list like those of an owner.
#[derive(Debug, PartialEq, Eq)]
pub struct Licensee {
    pub id: u64,
    pub name: String,
    pub email: String,
    pub licenses: Vec<u64>,
}

pub struct LicenseeView {
    pub id: u64,
    pub name: Seq<char>,
    pub email: Seq<char>,
    pub licenses: Seq<u64>,
}

impl View for Licensee {
    type V = LicenseeView;

    open spec fn view(&self) -> LicenseeView {
        LicenseeView {
            id: self.id,
            name: self.name@,
            email: self.email@,
            licenses: self.licenses@,
        }
    }
}

impl Clone for Licensee {
    fn clone(&self) -> (copy: Licensee)
        ensures
            copy@ == self@,
    {
        Licensee {
            id: self.id,
            name: self.name.clone(),
            email: self.email.clone(),
            licenses: copy_ids(&self.licenses),
        }
    }
}

/// What a caller may learn of a song's owner: everything but the secret and
/// the back-reference lists.
#[derive(Debug, PartialEq, Eq)]
pub struct ReturnOwner {
    pub id: u64,
    pub name: String,
    pub email: String,
}

pub struct ReturnOwnerView {
    pub id: u64,
    pub name: Seq<char>,
    pub email: Seq<char>,
}

impl View for ReturnOwner {
    type V = ReturnOwnerView;

    open spec fn view(&self) -> ReturnOwnerView {
        ReturnOwnerView { id: self.id, name: self.name@, email: self.email@ }
    }
}

/// A copy of a list of identifiers.
pub fn copy_ids(ids: &Vec<u64>) -> (copy: Vec<u64>)
    ensures
        copy@ == ids@,
{
    let mut copy: Vec<u64> = Vec::new();
    let mut at: usize = 0;
    while at < ids.len()
        invariant
            at <= ids.len(),
            copy@ == ids@.take(at as int),
        decreases ids.len() - at,
    {
        copy.push(ids[at]);
        at += 1;
    }
    copy
}

/// What is needed to create a song.
#[derive(Debug, PartialEq, Eq)]
pub struct SongPayload {
    pub title: String,
    pub artist: String,
    pub owner_id: u64,
    pub year: u32,
    pub genre: String,
    pub price: u32,
}

pub struct SongPayloadView {
    pub title: Seq<char>,
    pub artist: Seq<char>,
    pub owner_id: u64,
    pub year: u32,
    pub genre: Seq<char>,
    pub price: u32,
}

impl View for SongPayload {
    type V = SongPayloadView;

    open spec fn view(&self) -> SongPayloadView {
        SongPayloadView {
            title: self.title@,
            artist: self.artist@,
            owner_id: self.owner_id,
            year: self.year,
            genre: self.genre@,
            price: self.price,
        }
    }
}

/// What is needed to update a song: the owner's key, the song, and the
/// fields to put in place.
#[derive(Debug, PartialEq, Eq)]
pub struct UpdateSongPayload {
    pub auth_key: String,
    pub id: u64,
    pub title: String,
    pub artist: String,
    pub year: u32,
    pub genre: String,
    pub price: u32,
}

pub struct UpdateSongPayloadView {
    pub auth_key: Seq<char>,
    pub id: u64,
    pub title: Seq<char>,
    pub artist: Seq<char>,
    pub year: u32,
    pub genre: Seq<char>,
    pub price: u32,
}

impl View for UpdateSongPayload {
    type V = UpdateSongPayloadView;

    open spec fn view(&self) -> UpdateSongPayloadView {
        UpdateSongPayloadView {
            auth_key: self.auth_key@,
            id: self.id,
            title: self.title@,
            artist: self.artist@,
            year: self.year,
            genre: self.genre@,
            price: self.price,
        }
    }
}

/// What is needed to create an owner.
#[derive(Debug, PartialEq, Eq)]
pub struct OwnerPayload {
    pub name: String,
    pub email: String,
    pub auth_key: String,
}

pub struct OwnerPayloadView {
    pub name: Seq<char>,
    pub email: Seq<char>,
    pub auth_key: Seq<char>,
}

impl View for OwnerPayload {
    type V = OwnerPayloadView;

    open spec fn view(&self) -> OwnerPayloadView {
        OwnerPayloadView { name: self.name@, email: self.email@, auth_key: self.auth_key@ }
    }
}

/// What is needed to create a licensee.
#[derive(Debug, PartialEq, Eq)]
pub struct LicenseePayload {
    pub name: String,
    pub email: String,
}

pub struct LicenseePayloadView {
    pub name: Seq<char>,
    pub email: Seq<char>,
}

impl View for LicenseePayload {
    type V = LicenseePayloadView;

    open spec fn view(&self) -> LicenseePayloadView {
        LicenseePayloadView { name: self.name@, email: self.email@ }
    }
}

/// What is needed to request a license.
#[derive(Debug, PartialEq, Eq)]
pub struct LicensePayload {
    pub song_id: u64,
    pub licensee_id: u64,
    pub start_date: String,
    pub end_date: String,
}

pub struct LicensePayloadView {
    pub song_id: u64,
    pub licensee_id: u64,
    pub start_date: Seq<char>,
    pub end_date: Seq<char>,
}

impl View for LicensePayload {
    type V = LicensePayloadView;

    open spec fn view(&self) -> LicensePayloadView {
        LicensePayloadView {
            song_id: self.song_id,
            licensee_id: self.licensee_id,
            start_date: self.start_date@,
            end_date: self.end_date@,
        }
    }
}

/// What is needed to approve a license: the owner's key, the license and
/// its price.
#[derive(Debug, PartialEq, Eq)]
pub struct ApprovePayload {
    pub auth_key: String,
    pub license_id: u64,
    pub cost: u32,
}

pub struct ApprovePayloadView {
    pub auth_key: Seq<char>,
    pub license_id: u64,
    pub cost: u32,
}

impl View for ApprovePayload {
    type V = ApprovePayloadView;

    open spec fn view(&self) -> ApprovePayloadView {
        ApprovePayloadView {
            auth_key: self.auth_key@,
            license_id: self.license_id,
            cost: self.cost,
        }
    }
}

/// What is needed to revoke a license: the owner's key and the license.
#[derive(Debug, PartialEq, Eq)]
pub struct ProtectedPayload {
    pub auth_key: String,
    pub license_id: u64,
}

pub struct ProtectedPayloadView {
    pub auth_key: Seq<char>,
    pub license_id: u64,
}

impl View for ProtectedPayload {
    type V = ProtectedPayloadView;

    open spec fn view(&self) -> ProtectedPayloadView {
        ProtectedPayloadView { auth_key: self.auth_key@, license_id: self.license_id }
    }
}

/// Why a command was refused, without the message.
#[derive(Clone, Copy, Debug, PartialEq, Eq, Structural)]
pub enum ErrorKind {
    NotFound,
    AlreadyApproved,
    InvalidPayload,
    Unauthorized,
}

/// Why a command was refused. Each variant carries a message for a human
/// reader; contracts speak of the variant only, through the view.
#[derive(Debug, PartialEq, Eq)]
pub enum Error {
    NotFound { msg: String },
    AlreadyApproved { msg: String },
    InvalidPayload { msg: String },
    Unauthorized { msg: String },
}

impl View for Error {
    type V = ErrorKind;

    open spec fn view(&self) -> ErrorKind {
        match self {
            Error::NotFound { .. } => ErrorKind::NotFound,
            Error::AlreadyApproved { .. } => ErrorKind::AlreadyApproved,
            Error::InvalidPayload { .. } => ErrorKind::InvalidPayload,
            Error::Unauthorized { .. } => ErrorKind::Unauthorized,
        }
    }
}

impl Error {
    /// The kind of the error.
    pub fn kind(&self) -> (kind: ErrorKind)
        ensures
            kind == self@,
    {
        match self {
            Error::NotFound { .. } => ErrorKind::NotFound,
            Error::AlreadyApproved { .. } => ErrorKind::AlreadyApproved,
            Error::InvalidPayload { .. } => ErrorKind::InvalidPayload,
            Error::Unauthorized { .. } => ErrorKind::Unauthorized,
        }
    }

    /// The message, whatever the variant.
    pub fn message(&self) -> (msg: &String)
        ensures
            msg@ == self.message_text(),
    {
        match self {
            Error::NotFound { msg } => msg,
            Error::AlreadyApproved { msg } => msg,
            Error::InvalidPayload { msg } => msg,
            Error::Unauthorized { msg } => msg,
        }
    }

    /// Whether the error tells its reader anything.
    pub open spec fn has_message(&self) -> bool {
        self.message_text().len() > 0
    }

    /// The message, whatever the variant.
    pub open spec fn message_text(&self) -> Seq<char> {
        match self {
            Error::NotFound { msg } => msg@,
            Error::AlreadyApproved { msg } => msg@,
            Error::InvalidPayload { msg } => msg@,
            Error::Unauthorized { msg } => msg@,
        }
    }
}

} // verus!
