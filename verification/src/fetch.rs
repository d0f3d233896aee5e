//! How the body of a chunk is obtained: from the cache where it is there,
//! from the content network where it is not; and how a chunk file from the
//! network is decoded. The functions here decide and decode; the caller
//! reads, fetches and writes, and comes back with what happened.

use crate::chunk::{ChunkDownload, ChunkDownloadView, ManifestContext};
use crate::inflate::{inflate_zlib, zlib_inflated, MAX_INFLATED};
use crate::reader::{i32_le_at, ByteReader};
use crate::{chunk_failure, located, ErrorKind, Failure, ParserError, Place};
use vstd::prelude::*;
use vstd::slice::{slice_subrange, slice_to_vec};

verus! {

/// What a chunk file holds before its body is unpacked: the stored body, and
/// whether it is compressed. The size of the header stands at byte 8, the
/// compression flag at byte 40, and the body runs from the end of the header
/// to the end of the file.
pub open spec fn spec_chunk_frame(raw: Seq<u8>) -> Result<(Seq<u8>, bool), Failure> {
    if raw.len() < 41 {
        Err(located(ErrorKind::CorruptManifest, Place::ChunkFile))
    } else {
        let header_size = i32_le_at(raw, 8);
        if header_size < 0 || header_size > raw.len() {
            Err(located(ErrorKind::CorruptManifest, Place::ChunkFile))
        } else {
            Ok((raw.subrange(header_size as int, raw.len() as int), raw[40] == 1))
        }
    }
}

/// The body of a chunk file: the stored body, unpacked where the file says
/// that it is compressed.
pub open spec fn spec_chunk_body(raw: Seq<u8>) -> Result<Seq<u8>, Failure> {
    match spec_chunk_frame(raw) {
        Err(f) => Err(f),
        Ok((stored, compressed)) => if compressed {
            match zlib_inflated(stored, MAX_INFLATED) {
                None => Err(located(ErrorKind::CorruptManifest, Place::ChunkFile)),
                Some(body) => Ok(body),
            }
        } else {
            Ok(stored)
        },
    }
}

/// Reads the header of a chunk file: where the stored body starts, and
/// whether it is compressed.
pub fn chunk_frame(raw: Vec<u8>) -> (r: Result<(Vec<u8>, usize, bool), ParserError>)
    ensures
        match spec_chunk_frame(raw@) {
            Ok((stored, compressed)) => r is Ok && r->Ok_0.0 == raw && r->Ok_0.2 == compressed
                && r->Ok_0.1 <= raw@.len() && stored == raw@.subrange(
                r->Ok_0.1 as int,
                raw@.len() as int,
            ),
            Err(f) => r is Err && r->Err_0@ == f,
        },
{
    let mut reader = ByteReader::new(raw);
    reader.seek(8);
    let header_size: i32 = match reader.read_i32_le() {
        Ok(v) => v,
        Err(e) => {
            return Err(e.within(Place::ChunkFile));
        },
    };
    reader.seek(40);
    let flag: u8 = match reader.read_u8() {
        Ok(v) => v,
        Err(e) => {
            return Err(e.within(Place::ChunkFile));
        },
    };
    if header_size < 0 || header_size as usize > reader.data.len() {
        return Err(ParserError::located_at(ErrorKind::CorruptManifest, Place::ChunkFile));
    }
    Ok((reader.data, header_size as usize, flag == 1))
}

/// The body of a chunk file as it comes from the content network.
pub fn chunk_body(raw: Vec<u8>) -> (r: Result<Vec<u8>, ParserError>)
    ensures
        match spec_chunk_body(raw@) {
            Ok(body) => r is Ok && r->Ok_0@ == body,
            Err(f) => r is Err && r->Err_0@ == f,
        },
{
    let (raw, start, compressed) = chunk_frame(raw)?;
    let stored: &[u8] = slice_subrange(raw.as_slice(), start, raw.len());
    if compressed {
        match inflate_zlib(stored, MAX_INFLATED) {
            Ok(body) => Ok(body),
            Err(_) => Err(ParserError::located_at(ErrorKind::CorruptManifest, Place::ChunkFile)),
        }
    } else {
        Ok(slice_to_vec(stored))
    }
}

/// What the caller is asked to do next.
pub enum ChunkAction {
    /// Look for the file `file_name` in `directory`.
    ReadCache { directory: String, file_name: String },
    /// Fetch what lies at `uri`.
    Fetch { uri: String },
    /// Write `body` to the file `file_name` in `directory`, which is made
    /// where it is missing.
    WriteCache { directory: String, file_name: String, body: Vec<u8> },
    /// The body is there. A warning says that it could not be cached.
    Done { body: Vec<u8>, warning: Option<ParserError> },
    /// There is no body.
    Fail { error: ParserError },
}

/// What a look into the cache found.
pub enum CacheLookup {
    /// The file is there, with these bytes.
    Hit(Vec<u8>),
    /// There is no such file.
    Miss,
    /// The file is there and could not be read.
    Failed,
}

/// What an action says, with each text as its characters.
pub ghost enum ChunkActionView {
    ReadCache { directory: Seq<char>, file_name: Seq<char> },
    Fetch { uri: Seq<char> },
    WriteCache { directory: Seq<char>, file_name: Seq<char>, body: Seq<u8> },
    Done { body: Seq<u8>, warning: Option<Failure> },
    Fail { error: Failure },
}

impl View for ChunkAction {
    type V = ChunkActionView;

    open spec fn view(&self) -> ChunkActionView {
        match self {
            ChunkAction::ReadCache { directory, file_name } => ChunkActionView::ReadCache {
                directory: directory@,
                file_name: file_name@,
            },
            ChunkAction::Fetch { uri } => ChunkActionView::Fetch { uri: uri@ },
            ChunkAction::WriteCache { directory, file_name, body } => ChunkActionView::WriteCache {
                directory: directory@,
                file_name: file_name@,
                body: body@,
            },
            ChunkAction::Done { body, warning } => ChunkActionView::Done {
                body: body@,
                warning: match warning {
                    Some(e) => Some(e@),
                    None => None,
                },
            },
            ChunkAction::Fail { error } => ChunkActionView::Fail { error: error@ },
        }
    }
}

/// The first step: with a cache, look there; without one, fetch.
pub open spec fn spec_first_action(
    uri: Seq<char>,
    file_name: Seq<char>,
    cache_dir: Option<Seq<char>>,
) -> ChunkActionView {
    match cache_dir {
        Some(directory) => ChunkActionView::ReadCache { directory, file_name },
        None => ChunkActionView::Fetch { uri },
    }
}

/// The step after a look into the cache: what was found there is the body as
/// it stands; what is not there is fetched; a cache that cannot be read is
/// an error.
pub open spec fn spec_after_lookup(
    uri: Seq<char>,
    file_name: Seq<char>,
    found: Option<Option<Seq<u8>>>,
) -> ChunkActionView {
    match found {
        Some(Some(body)) => ChunkActionView::Done { body, warning: None },
        Some(None) => ChunkActionView::Fetch { uri },
        None => ChunkActionView::Fail {
            error: chunk_failure(ErrorKind::CacheIoError, file_name),
        },
    }
}

/// The step after the body of a fetched chunk file was decoded: with a
/// cache, the body is written there; without one, it is handed out. An
/// error of the decoder is told again with the name of the chunk's file.
pub open spec fn spec_after_body(
    file_name: Seq<char>,
    cache_dir: Option<Seq<char>>,
    body: Result<Seq<u8>, Failure>,
) -> ChunkActionView {
    match body {
        Err(error) => ChunkActionView::Fail { error: chunk_failure(error.kind, file_name) },
        Ok(body) => match cache_dir {
            Some(directory) => ChunkActionView::WriteCache { directory, file_name, body },
            None => ChunkActionView::Done { body, warning: None },
        },
    }
}

/// The step after a fetch: a fetch that failed is an error; what was fetched
/// is a chunk file, whose body is decoded.
pub open spec fn spec_after_fetch(
    file_name: Seq<char>,
    cache_dir: Option<Seq<char>>,
    fetched: Option<Seq<u8>>,
) -> ChunkActionView {
    match fetched {
        None => ChunkActionView::Fail { error: chunk_failure(ErrorKind::FetchError, file_name) },
        Some(raw) => spec_after_body(file_name, cache_dir, spec_chunk_body(raw)),
    }
}

/// The last step: the body is handed out, with a warning where it could not
/// be written to the cache.
pub open spec fn spec_after_store(file_name: Seq<char>, body: Seq<u8>, stored: bool) -> ChunkActionView {
    ChunkActionView::Done {
        body,
        warning: if stored {
            None
        } else {
            Some(chunk_failure(ErrorKind::CacheIoError, file_name))
        },
    }
}

/// What one request for the body of a chunk does where a cache is set up
/// and works: the last step, what the cache holds afterwards, and how often
/// the network was asked. `fetched` is what the network answers if asked.
pub open spec fn spec_cached_request(
    cache: Map<Seq<char>, Seq<u8>>,
    directory: Seq<char>,
    download: ChunkDownloadView,
    fetched: Option<Seq<u8>>,
) -> (ChunkActionView, Map<Seq<char>, Seq<u8>>, nat) {
    let found = if cache.contains_key(download.file_name) {
        Some(cache[download.file_name])
    } else {
        None
    };
    match spec_after_lookup(download.uri, download.file_name, Some(found)) {
        ChunkActionView::Fetch { .. } => match spec_after_fetch(
            download.file_name,
            Some(directory),
            fetched,
        ) {
            ChunkActionView::WriteCache { file_name, body, .. } => (
                spec_after_store(download.file_name, body, true),
                cache.insert(file_name, body),
                1,
            ),
            last => (last, cache, 1),
        },
        last => (last, cache, 0),
    }
}

/// Once a request for a chunk has yielded its body, a second request for the
/// same chunk yields the same body without asking the network: the two
/// requests together fetch at most once.
pub proof fn lemma_second_request_needs_no_fetch(
    cache: Map<Seq<char>, Seq<u8>>,
    directory: Seq<char>,
    download: ChunkDownloadView,
    first_answer: Option<Seq<u8>>,
    second_answer: Option<Seq<u8>>,
)
    requires
        spec_cached_request(cache, directory, download, first_answer).0 is Done,
    ensures
        ({
            let first = spec_cached_request(cache, directory, download, first_answer);
            let second = spec_cached_request(first.1, directory, download, second_answer);
            &&& second.0 == first.0
            &&& second.1 == first.1
            &&& second.2 == 0
            &&& first.2 + second.2 <= 1
        }),
{
    let first = spec_cached_request(cache, directory, download, first_answer);
    let second = spec_cached_request(first.1, directory, download, second_answer);
    if first.2 == 1 {
        assert(first.1.contains_key(download.file_name));
        assert(second.1 =~= first.1);
    }
}

/// What a look into the cache found, as the contracts state it.
pub open spec fn lookup_view(found: CacheLookup) -> Option<Option<Seq<u8>>> {
    match found {
        CacheLookup::Hit(body) => Some(Some(body@)),
        CacheLookup::Miss => Some(None),
        CacheLookup::Failed => None,
    }
}

/// What a decoded body or its error says.
pub open spec fn body_view(body: Result<Vec<u8>, ParserError>) -> Result<Seq<u8>, Failure> {
    match body {
        Ok(bytes) => Ok(bytes@),
        Err(e) => Err(e@),
    }
}

impl ChunkDownload {
    /// The first step towards the body of the chunk.
    pub fn first_action(&self, context: &ManifestContext) -> (action: ChunkAction)
        ensures
            action@ == spec_first_action(self.uri@, self.file_name@, context.cache_dir.deep_view()),
    {
        match &context.cache_dir {
            Some(directory) => ChunkAction::ReadCache {
                directory: directory.clone(),
                file_name: self.file_name.clone(),
            },
            None => ChunkAction::Fetch { uri: self.uri.clone() },
        }
    }

    /// The step after a look into the cache. A hit ends the work without a
    /// fetch.
    pub fn after_lookup(&self, found: CacheLookup) -> (action: ChunkAction)
        ensures
            action@ == spec_after_lookup(self.uri@, self.file_name@, lookup_view(found)),
    {
        match found {
            CacheLookup::Hit(body) => ChunkAction::Done { body, warning: None },
            CacheLookup::Miss => ChunkAction::Fetch { uri: self.uri.clone() },
            CacheLookup::Failed => ChunkAction::Fail {
                error: ParserError::in_chunk(ErrorKind::CacheIoError, self.file_name.as_str()),
            },
        }
    }

    /// The step after a fetch, `fetched` being the bytes that came, or
    /// nothing where the fetch failed.
    pub fn after_fetch(&self, context: &ManifestContext, fetched: Option<Vec<u8>>) -> (action:
        ChunkAction)
        ensures
            action@ == spec_after_fetch(
                self.file_name@,
                context.cache_dir.deep_view(),
                fetched.deep_view(),
            ),
    {
        match fetched {
            None => ChunkAction::Fail {
                error: ParserError::in_chunk(ErrorKind::FetchError, self.file_name.as_str()),
            },
            Some(raw) => {
                assert(raw.deep_view() =~= raw@);
                self.after_body(context, chunk_body(raw))
            },
        }
    }

    /// The step after the body of the fetched chunk file was decoded.
    pub fn after_body(&self, context: &ManifestContext, body: Result<Vec<u8>, ParserError>) -> (action:
        ChunkAction)
        ensures
            action@ == spec_after_body(
                self.file_name@,
                context.cache_dir.deep_view(),
                body_view(body),
            ),
    {
        match body {
            Err(error) => ChunkAction::Fail {
                error: ParserError::in_chunk(error.kind, self.file_name.as_str()),
            },
            Ok(body) => match &context.cache_dir {
                Some(directory) => ChunkAction::WriteCache {
                    directory: directory.clone(),
                    file_name: self.file_name.clone(),
                    body,
                },
                None => ChunkAction::Done { body, warning: None },
            },
        }
    }

    /// The last step, `stored` saying whether the body was written to the
    /// cache.
    pub fn after_store(&self, body: Vec<u8>, stored: bool) -> (action: ChunkAction)
        ensures
            action@ == spec_after_store(self.file_name@, body@, stored),
    {
        let warning = if stored {
            None
        } else {
            Some(ParserError::in_chunk(ErrorKind::CacheIoError, self.file_name.as_str()))
        };
        ChunkAction::Done { body, warning }
    }
}

} // verus!
