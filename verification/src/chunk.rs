//! Chunks: where each one lies on the content network, which byte ranges of
//! which chunks make up a file, and how the ranges are put together.

use crate::guid::{guid_at, guid_of_key, lemma_guid_of_key, lemma_key_injective, FGuid};
use crate::reader::{has_bytes, i32_le_at, reads, ByteReader, Decode, Parsed};
use crate::text::{push_two_digit, two_digit};
use crate::{file_failure, ErrorKind, Failure, ParserError};
use std::collections::HashMap;
use std::sync::Arc;
use vstd::prelude::*;
use vstd::string::*;

verus! {

broadcast use vstd::std_specs::hash::group_hash_axioms;

/// One chunk of the content network: what the manifest says of it, and
/// where it is found.
#[derive(Debug)]
pub struct FileChunk {
    pub guid: FGuid,
    pub size: u64,
    pub hash: String,
    pub sha: String,
    pub data_group: u8,
    pub file_name: String,
    pub uri: String,
}

/// What a `FileChunk` holds, with each text as its characters.
pub ghost struct FileChunkView {
    pub guid: FGuid,
    pub size: u64,
    pub hash: Seq<char>,
    pub sha: Seq<char>,
    pub data_group: u8,
    pub file_name: Seq<char>,
    pub uri: Seq<char>,
}

impl View for FileChunk {
    type V = FileChunkView;

    open spec fn view(&self) -> FileChunkView {
        FileChunkView {
            guid: self.guid,
            size: self.size,
            hash: self.hash@,
            sha: self.sha@,
            data_group: self.data_group,
            file_name: self.file_name@,
            uri: self.uri@,
        }
    }
}

/// The name of a chunk's file: rolling hash, underscore, identifier, and
/// the extension.
pub open spec fn chunk_file_name(hash: Seq<char>, guid: FGuid) -> Seq<char> {
    hash + "_"@ + guid.text() + ".chunk"@
}

/// Where a chunk is fetched from: the base, the data group in two decimal
/// digits, a slash, and the file's name.
pub open spec fn chunk_uri(base_url: Seq<char>, data_group: u8, file_name: Seq<char>) -> Seq<
    char,
> {
    (base_url + two_digit(data_group)).push('/') + file_name
}

/// The descriptor that the constructor builds from its arguments.
pub open spec fn chunk_view(
    guid: FGuid,
    size: u64,
    hash: Seq<char>,
    sha: Seq<char>,
    data_group: u8,
    base_url: Seq<char>,
) -> FileChunkView {
    FileChunkView {
        guid,
        size,
        hash,
        sha,
        data_group,
        file_name: chunk_file_name(hash, guid),
        uri: chunk_uri(base_url, data_group, chunk_file_name(hash, guid)),
    }
}

impl FileChunk {
    /// The descriptor of a chunk, with the name of its file and its address
    /// under `base_url`, which ends in a slash.
    pub fn new(guid: FGuid, size: u64, hash: &str, sha: &str, data_group: u8, base_url: &str) -> (chunk:
        Self)
        ensures
            chunk@ == chunk_view(guid, size, hash@, sha@, data_group, base_url@),
    {
        let mut file_name = String::from_str(hash);
        file_name.append("_");
        let text = guid.to_string();
        file_name.append(text.as_str());
        file_name.append(".chunk");
        let mut uri = String::from_str(base_url);
        push_two_digit(&mut uri, data_group);
        uri.push('/');
        uri.append(file_name.as_str());
        FileChunk {
            guid,
            size,
            hash: String::from_str(hash),
            sha: String::from_str(sha),
            data_group,
            file_name,
            uri,
        }
    }
}

/// The chunks of a manifest, found by identifier.
#[derive(Debug)]
pub struct ChunkIndex {
    map: HashMap<u128, FileChunk>,
}

impl View for ChunkIndex {
    type V = Map<FGuid, FileChunkView>;

    closed spec fn view(&self) -> Map<FGuid, FileChunkView> {
        Map::new(
            |g: FGuid| self.map@.contains_key(g.key()),
            |g: FGuid| self.map@[g.key()]@,
        )
    }
}

impl ChunkIndex {
    /// An index without chunks.
    pub fn new() -> (index: Self)
        ensures
            index@ == Map::<FGuid, FileChunkView>::empty(),
    {
        let index = ChunkIndex { map: HashMap::new() };
        assert(index@ =~= Map::<FGuid, FileChunkView>::empty());
        index
    }

    /// Files a chunk under its identifier. A chunk filed earlier under the
    /// same identifier is replaced.
    pub fn insert(&mut self, chunk: FileChunk)
        ensures
            final(self)@ == old(self)@.insert(chunk.guid, chunk@),
    {
        let ghost guid = chunk.guid;
        let ghost view = chunk@;
        let key: u128 = chunk.guid.to_key();
        self.map.insert(key, chunk);
        proof {
            assert forall|g: FGuid| g != guid implies g.key() != guid.key() by {
                if g.key() == guid.key() {
                    lemma_key_injective(g, guid);
                }
            }
            assert(self@ =~= old(self)@.insert(guid, view));
        }
    }

    /// The chunk with the given identifier, if the index holds one.
    pub fn get(&self, guid: &FGuid) -> (found: Option<&FileChunk>)
        ensures
            match found {
                Some(chunk) => self@.contains_key(*guid) && chunk@ == self@[*guid],
                None => !self@.contains_key(*guid),
            },
    {
        let key: u128 = guid.to_key();
        self.map.get(&key)
    }

    /// The number of chunks in the index.
    pub fn len(&self) -> (n: usize)
        ensures
            self@.dom().finite(),
            n == self@.len(),
    {
        proof {
            let keys = self.map@.dom();
            let back = |key: u128| guid_of_key(key);
            assert(vstd::relations::injective_on(back, keys)) by {
                assert forall|j: u128, k: u128|
                    keys.contains(j) && keys.contains(k) && #[trigger] back(j) == #[trigger] back(
                        k,
                    ) implies j == k by {
                    lemma_guid_of_key(j);
                    lemma_guid_of_key(k);
                }
            }
            assert(keys.map(back) =~= self@.dom()) by {
                assert forall|g: FGuid| self@.dom().contains(g) implies keys.map(back).contains(
                    g,
                ) by {
                    lemma_guid_of_key(g.key());
                    lemma_key_injective(guid_of_key(g.key()), g);
                    assert(keys.contains(g.key()) && back(g.key()) == g);
                }
                assert forall|g: FGuid| keys.map(back).contains(g) implies self@.dom().contains(
                    g,
                ) by {
                    let key = choose|key: u128| keys.contains(key) && g == back(key);
                    lemma_guid_of_key(key);
                }
            }
            vstd::set_lib::lemma_map_size(keys, self@.dom(), back);
        }
        self.map.len()
    }

    /// Whether the index holds a chunk with the given identifier.
    pub fn contains(&self, guid: &FGuid) -> (found: bool)
        ensures
            found == self@.contains_key(*guid),
    {
        let key: u128 = guid.to_key();
        self.map.contains_key(&key)
    }
}

/// What every file of a manifest shares: the chunks and the cache directory.
#[derive(Debug)]
pub struct ManifestContext {
    pub chunks: ChunkIndex,
    pub cache_dir: Option<String>,
}

impl ManifestContext {
    /// The context of the given chunks and cache directory.
    pub fn new(chunks: ChunkIndex, cache_dir: Option<String>) -> (context: Self)
        ensures
            context.chunks == chunks,
            context.cache_dir == cache_dir,
    {
        Self { chunks, cache_dir }
    }
}

/// One byte range of one chunk: `size` bytes from `offset` on.
#[derive(Debug, Clone, Copy, PartialEq, Eq, Structural)]
pub struct FileChunkPart {
    pub guid: FGuid,
    pub offset: i32,
    pub size: i32,
}

impl DeepView for FileChunkPart {
    type V = FileChunkPart;

    open spec fn deep_view(&self) -> FileChunkPart {
        *self
    }
}

/// The record of twenty-eight bytes at `pos`: four bytes that are passed
/// over, the identifier, the offset and the size.
pub open spec fn spec_part(data: Seq<u8>, pos: int) -> Parsed<FileChunkPart> {
    if has_bytes(data, pos, 28) {
        Ok(
            (
                FileChunkPart {
                    guid: guid_at(data, pos + 4),
                    offset: i32_le_at(data, pos + 20),
                    size: i32_le_at(data, pos + 24),
                },
                pos + 28,
            ),
        )
    } else {
        Err(ErrorKind::CorruptManifest)
    }
}

impl FileChunkPart {
    /// Reads one record of a file's list of parts.
    pub fn new(reader: &mut ByteReader) -> (r: Result<Self, ParserError>)
        ensures
            reads(*old(reader), *final(reader), r, spec_part(old(reader).data@, old(reader).pos as int)),
    {
        if !reader.has(28) {
            return Err(ParserError::of_kind(ErrorKind::CorruptManifest));
        }
        reader.skip(4)?;
        let guid = FGuid::new(reader)?;
        let offset: i32 = reader.read_i32_le()?;
        let size: i32 = reader.read_i32_le()?;
        Ok(FileChunkPart { guid, offset, size })
    }
}

impl Decode for FileChunkPart {
    open spec fn parse(data: Seq<u8>, pos: int) -> Parsed<FileChunkPart> {
        spec_part(data, pos)
    }

    fn decode(reader: &mut ByteReader) -> (r: Result<Self, ParserError>) {
        FileChunkPart::new(reader)
    }
}

/// The bytes that a part adds to its file. A negative size adds none.
pub open spec fn part_len(part: FileChunkPart) -> nat {
    if part.size >= 0 {
        part.size as nat
    } else {
        0
    }
}

/// The size of a file: the sum of what its parts add.
pub open spec fn total_size(parts: Seq<FileChunkPart>) -> nat
    decreases parts.len(),
{
    if parts.len() == 0 {
        0
    } else {
        total_size(parts.drop_last()) + part_len(parts.last())
    }
}

/// The parts before any point of a list add no more than the whole list.
pub proof fn lemma_total_size_grows(parts: Seq<FileChunkPart>, n: int)
    requires
        0 <= n <= parts.len(),
    ensures
        total_size(parts.subrange(0, n)) <= total_size(parts),
    decreases parts.len(),
{
    if n < parts.len() {
        assert(parts.drop_last().subrange(0, n) =~= parts.subrange(0, n));
        lemma_total_size_grows(parts.drop_last(), n);
    } else {
        assert(parts.subrange(0, n) =~= parts);
    }
}

/// The size of a file with the given parts; nothing where the sum does not
/// fit the machine's word.
pub fn checked_total_size(parts: &Vec<FileChunkPart>) -> (total: Option<usize>)
    ensures
        match total {
            Some(n) => n == total_size(parts@),
            None => total_size(parts@) > usize::MAX,
        },
{
    let mut size: usize = 0;
    let mut i: usize = 0;
    assert(parts@.subrange(0, 0) =~= Seq::<FileChunkPart>::empty());
    while i < parts.len()
        invariant
            i <= parts.len(),
            size == total_size(parts@.subrange(0, i as int)),
        decreases parts.len() - i,
    {
        let part = parts[i];
        let ghost longer = parts@.subrange(0, i + 1);
        proof {
            assert(longer.drop_last() =~= parts@.subrange(0, i as int));
            lemma_total_size_grows(parts@, i + 1);
        }
        if part.size > 0 {
            match size.checked_add(part.size as usize) {
                Some(sum) => {
                    size = sum;
                },
                None => {
                    return None;
                },
            }
        }
        i += 1;
    }
    assert(parts@.subrange(0, i as int) =~= parts@);
    Some(size)
}

/// One file of a build: its path, its digest, its tags, and the ordered
/// parts whose bytes, one after another, are the file.
#[derive(Debug)]
pub struct FileManifest {
    pub name: String,
    pub hash: String,
    pub install_tags: Vec<String>,
    pub chunk_parts: Vec<FileChunkPart>,
    pub size: usize,
}

/// What a `FileManifest` holds, with each text as its characters.
pub ghost struct FileManifestView {
    pub name: Seq<char>,
    pub hash: Seq<char>,
    pub install_tags: Seq<Seq<char>>,
    pub chunk_parts: Seq<FileChunkPart>,
    pub size: nat,
}

impl View for FileManifest {
    type V = FileManifestView;

    open spec fn view(&self) -> FileManifestView {
        FileManifestView {
            name: self.name@,
            hash: self.hash@,
            install_tags: self.install_tags.deep_view(),
            chunk_parts: self.chunk_parts@,
            size: self.size as nat,
        }
    }
}

/// The file that the constructor builds from its arguments.
pub open spec fn file_view(
    name: Seq<char>,
    hash: Seq<char>,
    install_tags: Seq<Seq<char>>,
    chunk_parts: Seq<FileChunkPart>,
) -> FileManifestView {
    FileManifestView { name, hash, install_tags, chunk_parts, size: total_size(chunk_parts) }
}

impl FileManifest {
    /// A file of the given parts, whose size is the sum of their sizes.
    pub fn new(
        name: String,
        hash: String,
        install_tags: Vec<String>,
        chunk_parts: Vec<FileChunkPart>,
    ) -> (file: Self)
        requires
            total_size(chunk_parts@) <= usize::MAX,
        ensures
            file@ == file_view(name@, hash@, install_tags.deep_view(), chunk_parts@),
    {
        let size: usize = checked_total_size(&chunk_parts).unwrap();
        FileManifest { name, hash, install_tags, chunk_parts, size }
    }
}

/// A file in the making: the path is known, the rest is set piece by piece.
pub struct FileManifestBuilder {
    pub name: String,
    pub hash: Option<String>,
    pub install_tags: Option<Vec<String>>,
    pub chunk_parts: Option<Vec<FileChunkPart>>,
    pub chunks: Option<Arc<ChunkIndex>>,
}

/// The parts that a builder holds; none where none were set.
pub open spec fn parts_of(chunk_parts: Option<Vec<FileChunkPart>>) -> Seq<FileChunkPart> {
    match chunk_parts {
        Some(parts) => parts@,
        None => Seq::empty(),
    }
}

impl FileManifestBuilder {
    /// A builder for the file of the given path.
    pub fn new(name: &str) -> (builder: Self)
        ensures
            builder.name@ == name@,
            builder.hash is None,
            builder.install_tags is None,
            builder.chunk_parts is None,
            builder.chunks is None,
    {
        FileManifestBuilder {
            name: name.to_owned(),
            hash: None,
            install_tags: None,
            chunk_parts: None,
            chunks: None,
        }
    }

    /// Sets the text of the file's digest.
    pub fn set_hash(&mut self, hash: &str) -> (builder: &mut Self)
        ensures
            builder.hash is Some,
            builder.hash->Some_0@ == hash@,
            builder.name == old(self).name,
            builder.install_tags == old(self).install_tags,
            builder.chunk_parts == old(self).chunk_parts,
            builder.chunks == old(self).chunks,
            *final(self) == *final(builder),
    {
        self.hash = Some(hash.to_owned());
        self
    }

    /// Sets the tags of the file.
    pub fn set_install_tags(&mut self, install_tags: Vec<String>) -> (builder: &mut Self)
        ensures
            builder.install_tags == Some(install_tags),
            builder.name == old(self).name,
            builder.hash == old(self).hash,
            builder.chunk_parts == old(self).chunk_parts,
            builder.chunks == old(self).chunks,
            *final(self) == *final(builder),
    {
        self.install_tags = Some(install_tags);
        self
    }

    /// Sets the parts of the file.
    pub fn set_chunk_parts(&mut self, chunk_parts: Vec<FileChunkPart>) -> (builder: &mut Self)
        ensures
            builder.chunk_parts == Some(chunk_parts),
            builder.name == old(self).name,
            builder.hash == old(self).hash,
            builder.install_tags == old(self).install_tags,
            builder.chunks == old(self).chunks,
            *final(self) == *final(builder),
    {
        self.chunk_parts = Some(chunk_parts);
        self
    }

    /// Sets the chunks that the parts of the file name.
    pub fn set_chunks(&mut self, chunks: Arc<ChunkIndex>) -> (builder: &mut Self)
        ensures
            builder.chunks == Some(chunks),
            builder.name == old(self).name,
            builder.hash == old(self).hash,
            builder.install_tags == old(self).install_tags,
            builder.chunk_parts == old(self).chunk_parts,
            *final(self) == *final(builder),
    {
        self.chunks = Some(chunks);
        self
    }

    /// The file of what was set. What was not set is empty.
    pub fn build(self) -> (file: FileManifest)
        requires
            total_size(parts_of(self.chunk_parts)) <= usize::MAX,
        ensures
            file@ == file_view(
                self.name@,
                match self.hash {
                    Some(hash) => hash@,
                    None => Seq::empty(),
                },
                match self.install_tags {
                    Some(tags) => tags.deep_view(),
                    None => Seq::empty(),
                },
                parts_of(self.chunk_parts),
            ),
    {
        let hash = match self.hash {
            Some(hash) => hash,
            None => String::new(),
        };
        let install_tags: Vec<String> = match self.install_tags {
            Some(tags) => tags,
            None => Vec::new(),
        };
        let chunk_parts: Vec<FileChunkPart> = match self.chunk_parts {
            Some(parts) => parts,
            None => Vec::new(),
        };
        assert(install_tags.deep_view() =~= match self.install_tags {
            Some(tags) => tags.deep_view(),
            None => Seq::empty(),
        });
        FileManifest::new(self.name, hash, install_tags, chunk_parts)
    }
}

/// A part is sound where its chunk is known and neither its offset nor its
/// size is negative.
pub open spec fn part_ok(part: FileChunkPart, chunks: Map<FGuid, FileChunkView>) -> bool {
    chunks.contains_key(part.guid) && part.offset >= 0 && part.size >= 0
}

/// A file is sound where each of its parts is, and its size fits the
/// machine's word.
pub open spec fn file_ok(parts: Seq<FileChunkPart>, chunks: Map<FGuid, FileChunkView>) -> bool {
    (forall|j: int| 0 <= j < parts.len() ==> part_ok(#[trigger] parts[j], chunks)) && total_size(
        parts,
    ) <= usize::MAX
}

/// The first index from `from` on and below `end` at which `holds` is true.
pub open spec fn first_from(holds: spec_fn(int) -> bool, from: int, end: int) -> Option<int>
    decreases end - from,
{
    if from >= end {
        None
    } else if holds(from) {
        Some(from)
    } else {
        first_from(holds, from + 1, end)
    }
}

/// Where nothing holds from `from` up to `at`, the first index is `at` if
/// something holds there, and there is none if `at` is the end.
pub proof fn lemma_first_from(holds: spec_fn(int) -> bool, from: int, at: int, end: int)
    requires
        from <= at <= end,
        forall|k: int| from <= k < at ==> !#[trigger] holds(k),
    ensures
        at < end && holds(at) ==> first_from(holds, from, end) == Some(at),
        at == end ==> first_from(holds, from, end) is None,
    decreases at - from,
{
    if from < at {
        lemma_first_from(holds, from + 1, at, end);
    }
}

/// Whether the part at an index is not sound.
pub open spec fn unsound_part(
    parts: Seq<FileChunkPart>,
    chunks: Map<FGuid, FileChunkView>,
) -> spec_fn(int) -> bool {
    |j: int| !part_ok(parts[j], chunks)
}

/// What is wrong with a part that is not sound.
pub open spec fn part_fault(part: FileChunkPart, chunks: Map<FGuid, FileChunkView>) -> Seq<char> {
    if chunks.contains_key(part.guid) {
        "negative range in chunk "@ + part.guid.text()
    } else {
        "unknown chunk "@ + part.guid.text()
    }
}

/// What is wrong with a file: what is wrong with the first of its parts
/// that is not sound; or, where all are sound, that its size does not fit
/// the machine's word; or nothing.
pub open spec fn file_fault(parts: Seq<FileChunkPart>, chunks: Map<FGuid, FileChunkView>) -> Option<
    Seq<char>,
> {
    match first_from(unsound_part(parts, chunks), 0, parts.len() as int) {
        Some(j) => Some(part_fault(parts[j], chunks)),
        None => if total_size(parts) > usize::MAX {
            Some("too large for this machine"@)
        } else {
            None
        },
    }
}

/// A file is sound where nothing is wrong with it.
pub proof fn lemma_file_fault(parts: Seq<FileChunkPart>, chunks: Map<FGuid, FileChunkView>)
    ensures
        file_ok(parts, chunks) <==> file_fault(parts, chunks) is None,
{
    let holds = unsound_part(parts, chunks);
    let end = parts.len() as int;
    if forall|j: int| 0 <= j < end ==> part_ok(#[trigger] parts[j], chunks) {
        assert forall|k: int| 0 <= k < end implies !#[trigger] holds(k) by {
            assert(part_ok(parts[k], chunks));
        }
        lemma_first_from(holds, 0, end, end);
    } else {
        let j = choose|j: int| 0 <= j < end && !part_ok(#[trigger] parts[j], chunks);
        assert(holds(j));
        lemma_first_found(holds, 0, end);
    }
}

/// Where something holds below `end`, there is a first index, and it holds
/// there.
pub proof fn lemma_first_found(holds: spec_fn(int) -> bool, from: int, end: int)
    ensures
        first_from(holds, from, end) matches Some(at) ==> from <= at < end && holds(at),
        (exists|k: int| from <= k < end && #[trigger] holds(k)) ==> first_from(holds, from, end) is Some,
    decreases end - from,
{
    if from < end {
        lemma_first_found(holds, from + 1, end);
    }
}

/// The words for what is wrong with a part.
fn part_fault_text(part: &FileChunkPart, chunks: &ChunkIndex) -> (fault: String)
    ensures
        fault@ == part_fault(*part, chunks@),
{
    let mut fault = if chunks.contains(&part.guid) {
        "negative range in chunk ".to_owned()
    } else {
        "unknown chunk ".to_owned()
    };
    let guid = part.guid.to_string();
    fault.append(guid.as_str());
    fault
}

/// What is wrong with a file with the given parts, if anything.
pub fn find_file_fault(parts: &Vec<FileChunkPart>, chunks: &ChunkIndex) -> (fault: Option<String>)
    ensures
        fault.deep_view() == file_fault(parts@, chunks@),
        fault is None <==> file_ok(parts@, chunks@),
{
    proof {
        lemma_file_fault(parts@, chunks@);
    }
    let ghost holds = unsound_part(parts@, chunks@);
    let mut j: usize = 0;
    while j < parts.len()
        invariant
            j <= parts.len(),
            holds == unsound_part(parts@, chunks@),
            forall|k: int| 0 <= k < j ==> !#[trigger] holds(k),
        decreases parts.len() - j,
    {
        let part = parts[j];
        if part.offset < 0 || part.size < 0 || !chunks.contains(&part.guid) {
            proof {
                lemma_first_from(holds, 0, j as int, parts@.len() as int);
            }
            return Some(part_fault_text(&part, chunks));
        }
        j += 1;
    }
    proof {
        lemma_first_from(holds, 0, j as int, parts@.len() as int);
    }
    if checked_total_size(parts).is_none() {
        Some("too large for this machine".to_owned())
    } else {
        None
    }
}

/// One piece of work of an assembly: `size` bytes from `offset` of the chunk
/// at `uri` go to `position` of the file.
pub struct ChunkDownload {
    pub uri: String,
    pub offset: usize,
    pub size: usize,
    pub file_name: String,
    pub position: usize,
}

/// What a `ChunkDownload` holds, with each text as its characters.
pub ghost struct ChunkDownloadView {
    pub uri: Seq<char>,
    pub offset: nat,
    pub size: nat,
    pub file_name: Seq<char>,
    pub position: nat,
}

impl View for ChunkDownload {
    type V = ChunkDownloadView;

    open spec fn view(&self) -> ChunkDownloadView {
        ChunkDownloadView {
            uri: self.uri@,
            offset: self.offset as nat,
            size: self.size as nat,
            file_name: self.file_name@,
            position: self.position as nat,
        }
    }
}

/// The work that a part asks for, given its chunk and its place in the file.
pub open spec fn download_view(part: FileChunkPart, chunk: FileChunkView, position: nat) -> ChunkDownloadView {
    ChunkDownloadView {
        uri: chunk.uri,
        offset: part.offset as nat,
        size: part.size as nat,
        file_name: chunk.file_name,
        position,
    }
}

impl ChunkDownload {
    /// The work that a part asks for. A part whose chunk is unknown, or whose
    /// offset or size is negative, is corrupt.
    pub fn new(part: &FileChunkPart, context: &ManifestContext, position: usize) -> (r: Result<
        Self,
        ParserError,
    >)
        ensures
            match r {
                Ok(download) => part_ok(*part, context.chunks@) && download@ == download_view(
                    *part,
                    context.chunks@[part.guid],
                    position as nat,
                ),
                Err(e) => !part_ok(*part, context.chunks@) && e@ == (Failure {
                    kind: ErrorKind::CorruptManifest,
                    message: part_fault(*part, context.chunks@),
                }),
            },
    {
        let chunks = &context.chunks;
        match chunks.get(&part.guid) {
            Some(chunk) => {
                if part.offset < 0 || part.size < 0 {
                    let fault = part_fault_text(part, chunks);
                    return Err(ParserError::new(ErrorKind::CorruptManifest, fault.as_str()));
                }
                Ok(
                    ChunkDownload {
                        uri: chunk.uri.clone(),
                        offset: part.offset as usize,
                        size: part.size as usize,
                        file_name: chunk.file_name.clone(),
                        position,
                    },
                )
            },
            None => {
                let fault = part_fault_text(part, chunks);
                Err(ParserError::new(ErrorKind::CorruptManifest, fault.as_str()))
            },
        }
    }
}

/// The work of a list, each piece as what it holds.
pub open spec fn plan_view(plan: Seq<ChunkDownload>) -> Seq<ChunkDownloadView> {
    Seq::new(plan.len(), |i: int| plan[i]@)
}

/// The work list of a file: one piece for each part, in the order of the
/// parts, each placed behind the bytes of the parts before it.
pub open spec fn plan_of(parts: Seq<FileChunkPart>, chunks: Map<FGuid, FileChunkView>) -> Seq<
    ChunkDownloadView,
> {
    Seq::new(
        parts.len(),
        |i: int| download_view(parts[i], chunks[parts[i].guid], total_size(parts.subrange(0, i))),
    )
}

impl FileManifest {
    /// The work list of the file. A file that is not sound has none; the
    /// error says what is wrong with it.
    pub fn plan(&self, context: &ManifestContext) -> (r: Result<Vec<ChunkDownload>, ParserError>)
        ensures
            match file_fault(self.chunk_parts@, context.chunks@) {
                None => r is Ok && plan_view(r->Ok_0@) == plan_of(
                    self.chunk_parts@,
                    context.chunks@,
                ),
                Some(fault) => r is Err && r->Err_0@ == file_failure(self.name@, fault),
            },
            r is Ok <==> file_ok(self.chunk_parts@, context.chunks@),
    {
        let ghost parts = self.chunk_parts@;
        match find_file_fault(&self.chunk_parts, &context.chunks) {
            Some(fault) => {
                return Err(ParserError::in_file(self.name.as_str(), fault.as_str()));
            },
            None => {},
        }
        let mut downloads: Vec<ChunkDownload> = Vec::new();
        let mut position: usize = 0;
        let mut i: usize = 0;
        assert(parts.subrange(0, 0) =~= Seq::<FileChunkPart>::empty());
        while i < self.chunk_parts.len()
            invariant
                i <= parts.len(),
                parts == self.chunk_parts@,
                file_ok(parts, context.chunks@),
                position == total_size(parts.subrange(0, i as int)),
                downloads@.len() == i,
                forall|k: int|
                    0 <= k < i ==> (#[trigger] downloads@[k])@ == download_view(
                        parts[k],
                        context.chunks@[parts[k].guid],
                        total_size(parts.subrange(0, k)),
                    ),
            decreases parts.len() - i,
        {
            proof {
                assert(part_ok(parts[i as int], context.chunks@));
                assert(parts.subrange(0, i + 1).drop_last() =~= parts.subrange(0, i as int));
                lemma_total_size_grows(parts, i + 1);
            }
            let part = &self.chunk_parts[i];
            let chunk = context.chunks.get(&part.guid).unwrap();
            let download = ChunkDownload {
                uri: chunk.uri.clone(),
                offset: part.offset as usize,
                size: part.size as usize,
                file_name: chunk.file_name.clone(),
                position,
            };
            position = position + download.size;
            downloads.push(download);
            i += 1;
        }
        proof {
            assert(plan_view(downloads@) =~= plan_of(parts, context.chunks@));
        }
        Ok(downloads)
    }
}

} // verus!
