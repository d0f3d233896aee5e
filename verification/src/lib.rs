//! Decoder for chunk-based build manifests and the assembly of files from
//! the chunks that a manifest names.
//!
//! The functions of this crate are verified against their contracts. The
//! few calls into other crates are taken on trust; each is named in the doc
//! comment of the item that makes it.

use vstd::prelude::*;
use vstd::string::*;

pub mod assemble;
pub mod auth;
pub mod chunk;
pub mod ext;
pub mod fetch;
pub mod guid;
pub mod info;
pub mod inflate;
pub mod manifest;
pub mod reader;
pub mod sections;
pub mod text;

verus! {

/// What went wrong, as a tag that callers can match on.
#[derive(Clone, Copy, Debug, PartialEq, Eq, Structural)]
pub enum ErrorKind {
    /// The manifest does not start with the binary container's magic number.
    UnsupportedContainer,
    /// The storage flags say that the payload is encrypted.
    UnsupportedEncryption,
    /// The storage flags hold a value that names no known storage.
    UnknownStorage,
    /// A string field is stored as UTF-16.
    UnsupportedEncoding,
    /// The bytes do not have the shape of a manifest or of a chunk file.
    CorruptManifest,
    /// The byte-fetch service failed.
    FetchError,
    /// The chunk cache could not be read or written.
    CacheIoError,
}

/// The sentence that goes with a kind when nothing more is known.
pub open spec fn kind_text(kind: ErrorKind) -> Seq<char> {
    match kind {
        ErrorKind::UnsupportedContainer => "not a binary manifest"@,
        ErrorKind::UnsupportedEncryption => "encrypted manifests are not supported"@,
        ErrorKind::UnknownStorage => "unknown storage flags"@,
        ErrorKind::UnsupportedEncoding => "UTF-16 strings are not supported"@,
        ErrorKind::CorruptManifest => "the data is corrupt or truncated"@,
        ErrorKind::FetchError => "a chunk could not be fetched"@,
        ErrorKind::CacheIoError => "the chunk cache could not be used"@,
    }
}

/// The part of the input that an error speaks of.
#[derive(Clone, Copy, Debug, PartialEq, Eq, Structural)]
pub enum Place {
    /// The outer frame of a manifest.
    Container,
    /// The stored payload of a manifest.
    Payload,
    /// The first section: what the build is.
    BuildMeta,
    /// The second section: the chunks.
    ChunkTable,
    /// The third section: the files.
    FileTable,
    /// The fourth section: the custom fields.
    CustomFields,
    /// A chunk file as it comes from the content network.
    ChunkFile,
    /// The description of where a manifest is found.
    ManifestInfo,
}

/// The name of a place as it opens an error's sentence.
pub open spec fn place_text(place: Place) -> Seq<char> {
    match place {
        Place::Container => "manifest container"@,
        Place::Payload => "manifest payload"@,
        Place::BuildMeta => "build meta section"@,
        Place::ChunkTable => "chunk table section"@,
        Place::FileTable => "file table section"@,
        Place::CustomFields => "custom fields section"@,
        Place::ChunkFile => "chunk file"@,
        Place::ManifestInfo => "manifest info"@,
    }
}

/// What an error of a kind says when it is found at a place.
pub open spec fn located(kind: ErrorKind, place: Place) -> Failure {
    Failure { kind, message: place_text(place) + ": "@ + kind_text(kind) }
}

/// What an error says once it is known where it was met: the same kind, and
/// the place in front of the sentence.
pub open spec fn within(place: Place, failure: Failure) -> Failure {
    Failure { kind: failure.kind, message: place_text(place) + ": "@ + failure.message }
}

/// What is said of a file that is not sound: the file's path and what is
/// wrong with it.
pub open spec fn file_failure(name: Seq<char>, fault: Seq<char>) -> Failure {
    Failure { kind: ErrorKind::CorruptManifest, message: "file "@ + name + ": "@ + fault }
}

/// What is said of a chunk that could not be had: the name of its file,
/// which holds its identifier, and the kind's own sentence.
pub open spec fn chunk_failure(kind: ErrorKind, file_name: Seq<char>) -> Failure {
    Failure { kind, message: "chunk "@ + file_name + ": "@ + kind_text(kind) }
}

/// The one error type of the crate: a kind and a sentence for the reader.
#[derive(Debug)]
pub struct ParserError {
    pub kind: ErrorKind,
    pub message: String,
}

/// What an error says: its kind and the characters of its sentence.
pub ghost struct Failure {
    pub kind: ErrorKind,
    pub message: Seq<char>,
}

impl View for ParserError {
    type V = Failure;

    open spec fn view(&self) -> Failure {
        Failure { kind: self.kind, message: self.message@ }
    }
}

impl ParserError {
    /// An error of the given kind with the kind's own sentence.
    pub fn of_kind(kind: ErrorKind) -> (e: Self)
        ensures
            e@ == (Failure { kind, message: kind_text(kind) }),
    {
        match kind {
            ErrorKind::UnsupportedContainer => Self::new(kind, "not a binary manifest"),
            ErrorKind::UnsupportedEncryption => Self::new(
                kind,
                "encrypted manifests are not supported",
            ),
            ErrorKind::UnknownStorage => Self::new(kind, "unknown storage flags"),
            ErrorKind::UnsupportedEncoding => Self::new(kind, "UTF-16 strings are not supported"),
            ErrorKind::CorruptManifest => Self::new(kind, "the data is corrupt or truncated"),
            ErrorKind::FetchError => Self::new(kind, "a chunk could not be fetched"),
            ErrorKind::CacheIoError => Self::new(kind, "the chunk cache could not be used"),
        }
    }

    /// An error of the given kind with the given sentence.
    pub fn new(kind: ErrorKind, message: &str) -> (e: Self)
        ensures
            e.kind == kind,
            e.message@ == message@,
    {
        Self { kind, message: message.to_owned() }
    }

    /// The name of a place.
    fn place_name(place: Place) -> (name: String)
        ensures
            name@ == place_text(place),
    {
        match place {
            Place::Container => "manifest container".to_owned(),
            Place::Payload => "manifest payload".to_owned(),
            Place::BuildMeta => "build meta section".to_owned(),
            Place::ChunkTable => "chunk table section".to_owned(),
            Place::FileTable => "file table section".to_owned(),
            Place::CustomFields => "custom fields section".to_owned(),
            Place::ChunkFile => "chunk file".to_owned(),
            Place::ManifestInfo => "manifest info".to_owned(),
        }
    }

    /// An error of the given kind whose sentence names the place.
    pub fn located_at(kind: ErrorKind, place: Place) -> (e: Self)
        ensures
            e@ == located(kind, place),
    {
        Self::of_kind(kind).within(place)
    }

    /// The same error with the place in front of its sentence.
    pub fn within(self, place: Place) -> (e: Self)
        ensures
            e@ == within(place, self@),
    {
        let mut message = Self::place_name(place);
        message.append(": ");
        message.append(self.message.as_str());
        ParserError { kind: self.kind, message }
    }

    /// An error that says what is wrong with the file of the given path.
    pub fn in_file(name: &str, fault: &str) -> (e: Self)
        ensures
            e@ == file_failure(name@, fault@),
    {
        let mut message = "file ".to_owned();
        message.append(name);
        message.append(": ");
        message.append(fault);
        ParserError { kind: ErrorKind::CorruptManifest, message }
    }

    /// An error of the given kind that names the file of a chunk.
    pub fn in_chunk(kind: ErrorKind, file_name: &str) -> (e: Self)
        ensures
            e@ == chunk_failure(kind, file_name@),
    {
        let mut message = "chunk ".to_owned();
        message.append(file_name);
        message.append(": ");
        let plain = Self::of_kind(kind);
        message.append(plain.message.as_str());
        ParserError { kind, message }
    }

    /// The sentence of the error, as `Display` would print it.
    pub fn to_string(&self) -> (s: String)
        ensures
            s@ == self.message@,
    {
        self.message.clone()
    }
}

/// An error as the vendor's services report it.
#[derive(Debug)]
pub struct EpicError {
    pub error_code: String,
    pub error_message: String,
}

impl EpicError {
    /// The code, a colon and a space, and the message.
    pub fn to_string(&self) -> (s: String)
        ensures
            s@ == self.error_code@ + ": "@ + self.error_message@,
    {
        let mut s = self.error_code.clone();
        s.append(": ");
        s.append(self.error_message.as_str());
        s
    }
}

} // verus!
