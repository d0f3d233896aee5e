//! The manifest: the outer frame, the payload, and what the decoder makes of
//! the payload's sections.

use crate::chunk::{
    chunk_view, file_fault, file_ok, file_view, find_file_fault, first_from, lemma_file_fault,
    lemma_first_found, lemma_first_from, total_size, ChunkIndex, FileChunk, FileChunkPart,
    FileChunkView, FileManifest, FileManifestView, ManifestContext,
};
pub use crate::guid::{ChunkSha, FGuid};
pub use crate::info::ManifestInfo;
use crate::inflate::{inflate_zlib, zlib_inflated, MAX_INFLATED};
use crate::reader::{i32_le_at, lemma_repeat_len, spec_repeat, spec_skip, u32_le_at, ByteReader};
use crate::sections::{
    read_chunk_section, read_custom_section, read_file_section, read_meta_section, spec_chunk_section,
    spec_count, spec_custom_section, spec_file_section, spec_file_table, spec_meta_section,
    BuildMeta, BuildMetaView, ChunkTable, ChunkTableView, FileTable, FileTableView,
};
use crate::text::{hex_bytes, hex_u64, hex_upper};
use crate::{file_failure, located, within, ErrorKind, Failure, ParserError, Place};
use vstd::hash_map::StringHashMap;
use vstd::prelude::*;
use vstd::slice::{slice_subrange, slice_to_vec};
use vstd::string::*;

verus! {

/// The first four bytes of every binary manifest.
pub const MANIFEST_HEADER_MAGIC: u32 = 0x44BEC00C;

/// The storage flag of a zlib-compressed payload.
pub const STORAGE_FLAG_COMPRESSED: u8 = 0x01;

/// The storage flag of an encrypted payload.
pub const STORAGE_FLAG_ENCRYPTED: u8 = 0x02;

/// A base address that ends in a slash: the text itself where it does, the
/// text and a slash where it does not.
pub open spec fn with_slash(s: Seq<char>) -> Seq<char> {
    if s.len() > 0 && s.last() == '/' {
        s
    } else {
        s.push('/')
    }
}

/// The base address with a slash at its end.
pub fn ensure_trailing_slash(s: &str) -> (r: String)
    ensures
        r@ == with_slash(s@),
{
    let n: usize = s.unicode_len();
    let mut r = s.to_owned();
    if n == 0 || s.get_char(n - 1) != '/' {
        r.push('/');
    }
    r
}

/// What the decoder needs besides the bytes.
#[derive(Debug)]
pub struct ManifestOptions {
    pub cache_directory: Option<String>,
    pub chunk_base_uri: String,
}

impl ManifestOptions {
    /// The options with the given base address, to which a closing slash is
    /// added where it has none.
    pub fn new(chunk_base_uri: &str, cache_directory: Option<String>) -> (options: Self)
        ensures
            options.chunk_base_uri@ == with_slash(chunk_base_uri@),
            options.cache_directory == cache_directory,
    {
        Self { cache_directory, chunk_base_uri: ensure_trailing_slash(chunk_base_uri) }
    }
}

/// A decoded manifest.
pub struct Manifest {
    pub app_id: i32,
    pub app_name: String,
    pub build_version: String,
    pub launch_exe: String,
    pub launch_command: String,
    pub prereq_ids: Vec<String>,
    pub prereq_name: String,
    pub prereq_path: String,
    pub prereq_args: String,
    pub build_id: String,
    pub file_manifests: Vec<FileManifest>,
    pub custom_fields: StringHashMap<String>,
    pub context: ManifestContext,
}

/// What a manifest holds: the build's fields, the chunks by identifier, the
/// files in their order, the custom fields by name, and the cache directory.
pub ghost struct ManifestView {
    pub meta: BuildMetaView,
    pub chunks: Map<FGuid, FileChunkView>,
    pub files: Seq<FileManifestView>,
    pub custom_fields: Map<Seq<char>, Seq<char>>,
    pub cache_dir: Option<Seq<char>>,
}

/// The files of a list, each as what it holds.
pub open spec fn files_view(files: Seq<FileManifest>) -> Seq<FileManifestView> {
    Seq::new(files.len(), |i: int| files[i]@)
}

/// The custom fields of a map, each value as its characters.
pub open spec fn fields_view(fields: Map<Seq<char>, String>) -> Map<Seq<char>, Seq<char>> {
    Map::new(|k: Seq<char>| fields.contains_key(k), |k: Seq<char>| fields[k]@)
}

impl View for Manifest {
    type V = ManifestView;

    open spec fn view(&self) -> ManifestView {
        ManifestView {
            meta: BuildMetaView {
                app_id: self.app_id,
                app_name: self.app_name@,
                build_version: self.build_version@,
                launch_exe: self.launch_exe@,
                launch_command: self.launch_command@,
                prereq_ids: self.prereq_ids.deep_view(),
                prereq_name: self.prereq_name@,
                prereq_path: self.prereq_path@,
                prereq_args: self.prereq_args@,
                build_id: self.build_id@,
            },
            chunks: self.context.chunks@,
            files: files_view(self.file_manifests@),
            custom_fields: fields_view(self.custom_fields@),
            cache_dir: self.context.cache_dir.deep_view(),
        }
    }
}

/// The descriptor of the chunk in row `i` of the table.
pub open spec fn chunk_of_row(table: ChunkTableView, i: int, base: Seq<char>) -> FileChunkView {
    chunk_view(
        table.guids[i],
        table.sizes[i],
        hex_upper(table.hashes[i] as nat, 16),
        hex_bytes(table.shas[i]),
        table.data_groups[i],
        base,
    )
}

/// The chunks of the first `n` rows by identifier. Where two rows have the
/// same identifier, the later row stands.
pub open spec fn chunk_map(table: ChunkTableView, base: Seq<char>, n: nat) -> Map<
    FGuid,
    FileChunkView,
>
    decreases n,
{
    if n == 0 {
        Map::empty()
    } else {
        chunk_map(table, base, (n - 1) as nat).insert(
            table.guids[n - 1],
            chunk_of_row(table, n - 1, base),
        )
    }
}

/// The first `n` custom fields by name. Where two have the same name, the
/// later one stands.
pub open spec fn field_map(keys: Seq<Seq<char>>, values: Seq<Seq<char>>, n: nat) -> Map<
    Seq<char>,
    Seq<char>,
>
    decreases n,
{
    if n == 0 {
        Map::empty()
    } else {
        field_map(keys, values, (n - 1) as nat).insert(keys[n - 1], values[n - 1])
    }
}

/// The file in row `i` of the table.
pub open spec fn file_of_row(table: FileTableView, i: int) -> FileManifestView {
    file_view(
        table.names[i],
        hex_bytes(table.hashes[i]),
        table.install_tags[i],
        table.chunk_parts[i],
    )
}

/// The files of a table, in the order of its rows.
pub open spec fn files_of(table: FileTableView) -> Seq<FileManifestView> {
    Seq::new(table.names.len(), |i: int| file_of_row(table, i))
}

/// Whether every file of a table is sound.
pub open spec fn files_ok(table: FileTableView, chunks: Map<FGuid, FileChunkView>) -> bool {
    forall|i: int|
        0 <= i < table.chunk_parts.len() ==> file_ok(#[trigger] table.chunk_parts[i], chunks)
}

/// Whether the file in a row of the table is not sound.
pub open spec fn unsound_file(table: FileTableView, chunks: Map<FGuid, FileChunkView>) -> spec_fn(
    int,
) -> bool {
    |i: int| file_fault(table.chunk_parts[i], chunks) is Some
}

/// What is said of the first file of a table that is not sound: the file
/// table, the file's path and what is wrong with the file. Nothing where
/// every file is sound.
pub open spec fn files_failure(table: FileTableView, chunks: Map<FGuid, FileChunkView>) -> Option<
    Failure,
> {
    match first_from(unsound_file(table, chunks), 0, table.chunk_parts.len() as int) {
        Some(i) => Some(
            within(
                Place::FileTable,
                file_failure(table.names[i], file_fault(table.chunk_parts[i], chunks)->Some_0),
            ),
        ),
        None => None,
    }
}

/// Every file is sound where nothing is said of any.
pub proof fn lemma_files_failure(table: FileTableView, chunks: Map<FGuid, FileChunkView>)
    ensures
        files_ok(table, chunks) <==> files_failure(table, chunks) is None,
{
    let holds = unsound_file(table, chunks);
    let end = table.chunk_parts.len() as int;
    assert forall|i: int| 0 <= i < end implies (holds(i) <==> !file_ok(
        #[trigger] table.chunk_parts[i],
        chunks,
    )) by {
        lemma_file_fault(table.chunk_parts[i], chunks);
    }
    lemma_first_found(holds, 0, end);
    if files_ok(table, chunks) {
        lemma_first_from(holds, 0, end, end);
    } else {
        let i = choose|i: int|
            0 <= i < table.chunk_parts.len() && !file_ok(#[trigger] table.chunk_parts[i], chunks);
        assert(holds(i));
    }
}

/// What the four sections of a payload hold.
pub struct Sections {
    pub meta: BuildMeta,
    pub chunks: ChunkTable,
    pub files: FileTable,
    pub keys: Vec<String>,
    pub values: Vec<String>,
}

/// What `Sections` hold, with each text as its characters.
pub ghost struct SectionsView {
    pub meta: BuildMetaView,
    pub chunks: ChunkTableView,
    pub files: FileTableView,
    pub keys: Seq<Seq<char>>,
    pub values: Seq<Seq<char>>,
}

impl DeepView for Sections {
    type V = SectionsView;

    open spec fn deep_view(&self) -> SectionsView {
        SectionsView {
            meta: self.meta.deep_view(),
            chunks: self.chunks.deep_view(),
            files: self.files.deep_view(),
            keys: self.keys.deep_view(),
            values: self.values.deep_view(),
        }
    }
}

/// The four sections of a payload in their order, the first at the start of
/// the payload and each of the others where the one before declared its
/// end. An error names the section in which it was met.
#[verifier::opaque]
pub open spec fn spec_sections(data: Seq<u8>) -> Result<SectionsView, Failure> {
    match spec_meta_section(data, 0) {
    Err(k) => Err(located(k, Place::BuildMeta)),
    Ok((meta, p1)) => match spec_chunk_section(data, p1) {
    Err(k) => Err(located(k, Place::ChunkTable)),
    Ok((chunks, p2)) => match spec_file_section(data, p2) {
    Err(k) => Err(located(k, Place::FileTable)),
    Ok((files, p3)) => match spec_custom_section(data, p3) {
    Err(k) => Err(located(k, Place::CustomFields)),
    Ok(((keys, values), _)) => Ok(SectionsView { meta, chunks, files, keys, values }),
    }}}}
}

/// The manifest that the inner payload holds: its sections, the chunks
/// joined into descriptors under the base address, and the files held
/// against them. A file that is not sound is an error of the file table,
/// which names the first such file.
#[verifier::opaque]
pub open spec fn spec_payload(data: Seq<u8>, base: Seq<char>, cache_dir: Option<Seq<char>>) -> Result<
    ManifestView,
    Failure,
> {
    match spec_sections(data) {
        Err(f) => Err(f),
        Ok(sections) => {
            let chunks = chunk_map(sections.chunks, with_slash(base), sections.chunks.guids.len());
            match files_failure(sections.files, chunks) {
                Some(f) => Err(f),
                None => Ok(
                    ManifestView {
                        meta: sections.meta,
                        chunks,
                        files: files_of(sections.files),
                        custom_fields: field_map(
                            sections.keys,
                            sections.values,
                            sections.keys.len(),
                        ),
                        cache_dir,
                    },
                ),
            }
        },
    }
}

/// What the outer frame yields: the stored payload, and whether it is
/// compressed. The frame starts with the magic number; the size of the
/// header stands at byte 4, the size of the stored payload at byte 12, the
/// storage flags at byte 36, and the last of the header's fields ends at
/// byte 41. The payload starts where the header is said to end. Of the
/// storage flags the bit for encryption is looked at first; after it, only
/// the values for a plain and for a compressed payload are known.
#[verifier::opaque]
pub open spec fn spec_frame(data: Seq<u8>) -> Result<(Seq<u8>, bool), Failure> {
    if data.len() < 4 {
        Err(located(ErrorKind::CorruptManifest, Place::Container))
    } else if u32_le_at(data, 0) != MANIFEST_HEADER_MAGIC {
        Err(located(ErrorKind::UnsupportedContainer, Place::Container))
    } else if data.len() < 41 {
        Err(located(ErrorKind::CorruptManifest, Place::Container))
    } else {
        let header_size = i32_le_at(data, 4);
        let stored_size = i32_le_at(data, 12);
        let flags = data[36];
        if flags & STORAGE_FLAG_ENCRYPTED != 0 {
            Err(located(ErrorKind::UnsupportedEncryption, Place::Container))
        } else if flags != 0 && flags != STORAGE_FLAG_COMPRESSED {
            Err(located(ErrorKind::UnknownStorage, Place::Container))
        } else if header_size < 0 || stored_size < 0 || header_size + stored_size > data.len() {
            Err(located(ErrorKind::CorruptManifest, Place::Container))
        } else {
            Ok(
                (
                    data.subrange(header_size as int, header_size + stored_size),
                    flags == STORAGE_FLAG_COMPRESSED,
                ),
            )
        }
    }
}

/// The manifest that the bytes of a manifest file hold: the frame, the
/// payload unpacked where the frame says that it is compressed, and the
/// sections of the payload.
pub open spec fn spec_manifest(data: Seq<u8>, base: Seq<char>, cache_dir: Option<Seq<char>>) -> Result<
    ManifestView,
    Failure,
> {
    match spec_frame(data) {
        Err(f) => Err(f),
        Ok((stored, compressed)) => if compressed {
            match zlib_inflated(stored, MAX_INFLATED) {
                None => Err(located(ErrorKind::CorruptManifest, Place::Payload)),
                Some(payload) => spec_payload(payload, base, cache_dir),
            }
        } else {
            spec_payload(stored, base, cache_dir)
        },
    }
}

/// Whether a manifest keeps its word: every chunk is filed under its own
/// identifier; every part of every file names a chunk of the manifest and
/// has neither a negative offset nor a negative size; and the size of every
/// file is the sum of its parts' sizes.
pub open spec fn sound(m: ManifestView) -> bool {
    &&& forall|g: FGuid| #[trigger] m.chunks.contains_key(g) ==> m.chunks[g].guid == g
    &&& forall|i: int|
        0 <= i < m.files.len() ==> {
            &&& file_ok((#[trigger] m.files[i]).chunk_parts, m.chunks)
            &&& m.files[i].size == total_size(m.files[i].chunk_parts)
        }
}

/// The chunks of a table are filed under their own identifiers.
pub proof fn lemma_chunk_map_keys(table: ChunkTableView, base: Seq<char>, n: nat)
    ensures
        forall|g: FGuid| #[trigger]
            chunk_map(table, base, n).contains_key(g) ==> chunk_map(table, base, n)[g].guid == g,
    decreases n,
{
    if n > 0 {
        lemma_chunk_map_keys(table, base, (n - 1) as nat);
        let before = chunk_map(table, base, (n - 1) as nat);
        let after = chunk_map(table, base, n);
        assert(chunk_of_row(table, n - 1, base).guid == table.guids[n - 1]);
        assert forall|g: FGuid| #[trigger] after.contains_key(g) implies after[g].guid == g by {
            if g != table.guids[n - 1] {
                assert(before.contains_key(g));
            }
        }
    }
}

/// Every column of a file table that the format yields has one entry for
/// each file.
pub proof fn lemma_file_table_columns(data: Seq<u8>, pos: int)
    ensures
        spec_file_table(data, pos) matches Ok((table, _)) ==> {
            &&& table.hashes.len() == table.names.len()
            &&& table.install_tags.len() == table.names.len()
            &&& table.chunk_parts.len() == table.names.len()
        },
{
    if let Ok((n, p0)) = spec_count(data, pos) {
        lemma_repeat_len::<String>(data, p0, n);
        if let Ok((_, p1)) = spec_repeat::<String>(data, p0, n) {
            if let Ok((_, p2)) = spec_repeat::<String>(data, p1, n) {
                lemma_repeat_len::<ChunkSha>(data, p2, n);
                if let Ok((_, p3)) = spec_repeat::<ChunkSha>(data, p2, n) {
                    if let Ok((_, p4)) = spec_skip(data, p3, n as int) {
                        lemma_repeat_len::<Vec<String>>(data, p4, n);
                        if let Ok((_, p5)) = spec_repeat::<Vec<String>>(data, p4, n) {
                            lemma_repeat_len::<Vec<FileChunkPart>>(data, p5, n);
                        }
                    }
                }
            }
        }
    }
}

/// A payload that decodes yields a manifest that keeps its word. A payload
/// whose sections decode, and in which a file names an unknown chunk or a
/// negative range, or is too large, does not decode: it is corrupt.
pub proof fn lemma_decoded_payload_is_sound(
    data: Seq<u8>,
    base: Seq<char>,
    cache_dir: Option<Seq<char>>,
)
    ensures
        spec_payload(data, base, cache_dir) matches Ok(m) ==> sound(m),
        spec_sections(data) matches Ok(sections) ==> !files_ok(
            sections.files,
            chunk_map(sections.chunks, with_slash(base), sections.chunks.guids.len()),
        ) ==> (spec_payload(data, base, cache_dir) matches Err(f) && f.kind
            == ErrorKind::CorruptManifest),
{
    reveal(spec_payload);
    reveal(spec_sections);
    if let Ok(sections) = spec_sections(data) {
        lemma_chunk_map_keys(sections.chunks, with_slash(base), sections.chunks.guids.len());
        lemma_files_failure(
            sections.files,
            chunk_map(sections.chunks, with_slash(base), sections.chunks.guids.len()),
        );
        if let Ok((_, p1)) = spec_meta_section(data, 0) {
            if let Ok((_, p2)) = spec_chunk_section(data, p1) {
                lemma_file_table_columns(data, p2 + 5);
            }
        }
    }
}

/// A manifest file that decodes yields a manifest that keeps its word.
pub proof fn lemma_decoded_manifest_is_sound(
    data: Seq<u8>,
    base: Seq<char>,
    cache_dir: Option<Seq<char>>,
)
    ensures
        spec_manifest(data, base, cache_dir) matches Ok(m) ==> sound(m),
{
    if let Ok((stored, compressed)) = spec_frame(data) {
        if compressed {
            if let Some(payload) = zlib_inflated(stored, MAX_INFLATED) {
                lemma_decoded_payload_is_sound(payload, base, cache_dir);
            }
        } else {
            lemma_decoded_payload_is_sound(stored, base, cache_dir);
        }
    }
}

/// Decoding the same bytes under the same options twice gives the same
/// outcome: two manifests that hold the same, or two errors that say the
/// same.
pub proof fn lemma_decoding_twice_agrees(
    data: Seq<u8>,
    base: Seq<char>,
    cache_dir: Option<Seq<char>>,
    first: Result<Manifest, ParserError>,
    second: Result<Manifest, ParserError>,
)
    requires
        decoded(first, spec_manifest(data, base, cache_dir)),
        decoded(second, spec_manifest(data, base, cache_dir)),
    ensures
        first is Ok <==> second is Ok,
        first is Ok ==> first->Ok_0@ == second->Ok_0@,
        first is Err ==> first->Err_0@ == second->Err_0@,
{
}

/// The second section starts where the first section says that it ends:
/// at the size that the first four bytes of the payload declare, however few
/// of those bytes the fields of the first section took.
pub proof fn lemma_second_section_starts_where_declared(data: Seq<u8>)
    ensures
        spec_meta_section(data, 0) matches Ok((_, next)) ==> next == i32_le_at(data, 0),
        spec_sections(data) matches Ok(sections) ==> spec_chunk_section(
            data,
            i32_le_at(data, 0) as int,
        ) matches Ok((table, _)) && table == sections.chunks,
{
    reveal(spec_sections);
}

/// Whether a result of the decoder is the one that the format asks for.
pub open spec fn decoded(r: Result<Manifest, ParserError>, expected: Result<ManifestView, Failure>) -> bool {
    match expected {
        Ok(m) => r is Ok && r->Ok_0@ == m,
        Err(f) => r is Err && r->Err_0@ == f,
    }
}

/// Joins the columns of a chunk table into descriptors under a base address.
fn build_chunk_index(table: &ChunkTable, base: &str) -> (index: ChunkIndex)
    requires
        table.aligned(),
    ensures
        index@ == chunk_map(table.deep_view(), base@, table.guids@.len()),
{
    let mut index = ChunkIndex::new();
    let mut i: usize = 0;
    while i < table.guids.len()
        invariant
            i <= table.guids@.len(),
            table.aligned(),
            index@ == chunk_map(table.deep_view(), base@, i as nat),
        decreases table.guids@.len() - i,
    {
        let hash = hex_u64(table.hashes[i]);
        let sha = table.shas[i].to_string();
        let chunk = FileChunk::new(
            table.guids[i],
            table.sizes[i],
            hash.as_str(),
            sha.as_str(),
            table.data_groups[i],
            base,
        );
        assert(chunk@ == chunk_of_row(table.deep_view(), i as int, base@));
        index.insert(chunk);
        i += 1;
    }
    index
}

/// Moves the item at `i` out of a vector and leaves `filler` in its place.
fn take_at<T>(items: &mut Vec<T>, i: usize, filler: T) -> (item: T)
    requires
        i < old(items)@.len(),
    ensures
        item == old(items)@[i as int],
        final(items)@ == old(items)@.update(i as int, filler),
{
    let mut slot = filler;
    core::mem::swap(&mut items[i], &mut slot);
    slot
}

/// Joins the columns of a file table into files, where every file is sound.
fn build_files(table: FileTable, chunks: &ChunkIndex) -> (r: Result<Vec<FileManifest>, ParserError>)
    requires
        table.aligned(),
    ensures
        match files_failure(table.deep_view(), chunks@) {
            None => r is Ok && files_view(r->Ok_0@) == files_of(table.deep_view()),
            Some(f) => r is Err && r->Err_0@ == f,
        },
{
    let ghost whole = table.deep_view();
    let ghost holds = unsound_file(whole, chunks@);
    let FileTable { mut names, hashes, mut install_tags, mut chunk_parts } = table;
    let count: usize = names.len();
    let mut files: Vec<FileManifest> = Vec::new();
    let mut i: usize = 0;
    while i < count
        invariant
            i <= count,
            whole == table.deep_view(),
            holds == unsound_file(whole, chunks@),
            count == names@.len(),
            hashes@.len() == count,
            install_tags@.len() == count,
            chunk_parts@.len() == count,
            whole.names.len() == count,
            whole.hashes == hashes.deep_view(),
            whole.install_tags.len() == count,
            whole.chunk_parts.len() == count,
            forall|k: int| i <= k < count ==> (#[trigger] names@[k])@ == whole.names[k],
            forall|k: int|
                i <= k < count ==> (#[trigger] install_tags@[k]).deep_view()
                    == whole.install_tags[k],
            forall|k: int| i <= k < count ==> (#[trigger] chunk_parts@[k])@ == whole.chunk_parts[k],
            forall|k: int| 0 <= k < i ==> !#[trigger] holds(k),
            files@.len() == i,
            forall|k: int| 0 <= k < i ==> (#[trigger] files@[k])@ == file_of_row(whole, k),
        decreases count - i,
    {
        let parts: Vec<FileChunkPart> = take_at(&mut chunk_parts, i, Vec::new());
        assert(parts@ == whole.chunk_parts[i as int]);
        let name = take_at(&mut names, i, String::new());
        match find_file_fault(&parts, chunks) {
            Some(fault) => {
                proof {
                    assert(holds(i as int));
                    lemma_first_from(holds, 0, i as int, count as int);
                }
                return Err(
                    ParserError::in_file(name.as_str(), fault.as_str()).within(Place::FileTable),
                );
            },
            None => {},
        }
        let tags: Vec<String> = take_at(&mut install_tags, i, Vec::new());
        let hash = hashes[i].to_string();
        let file = FileManifest::new(name, hash, tags, parts);
        files.push(file);
        i += 1;
    }
    proof {
        lemma_first_from(holds, 0, count as int, count as int);
        assert(files_view(files@) =~= files_of(whole));
    }
    Ok(files)
}

/// Files the custom fields under their names.
fn build_field_map(keys: &Vec<String>, values: &Vec<String>) -> (fields: StringHashMap<String>)
    requires
        keys@.len() == values@.len(),
    ensures
        fields_view(fields@) == field_map(keys.deep_view(), values.deep_view(), keys@.len()),
{
    let mut fields: StringHashMap<String> = StringHashMap::new();
    let mut i: usize = 0;
    assert(fields_view(fields@) =~= Map::<Seq<char>, Seq<char>>::empty());
    while i < keys.len()
        invariant
            i <= keys@.len(),
            keys@.len() == values@.len(),
            fields_view(fields@) == field_map(keys.deep_view(), values.deep_view(), i as nat),
        decreases keys@.len() - i,
    {
        let ghost before = fields@;
        let key = keys[i].clone();
        let value = values[i].clone();
        fields.insert(key, value);
        assert(fields_view(fields@) =~= fields_view(before).insert(key@, value@));
        i += 1;
    }
    fields
}

/// Reads the four sections of a payload.
fn read_sections(payload: Vec<u8>) -> (r: Result<Sections, ParserError>)
    ensures
        match spec_sections(payload@) {
            Ok(sections) => r is Ok && r->Ok_0.deep_view() == sections,
            Err(f) => r is Err && r->Err_0@ == f,
        },
        r matches Ok(sections) ==> sections.chunks.aligned() && sections.files.aligned()
            && sections.keys@.len() == sections.values@.len(),
{
    reveal(spec_sections);
    let mut reader = ByteReader::new(payload);
    let meta = match read_meta_section(&mut reader) {
        Ok(meta) => meta,
        Err(e) => {
            return Err(e.within(Place::BuildMeta));
        },
    };
    let chunks = match read_chunk_section(&mut reader) {
        Ok(table) => table,
        Err(e) => {
            return Err(e.within(Place::ChunkTable));
        },
    };
    let files = match read_file_section(&mut reader) {
        Ok(table) => table,
        Err(e) => {
            return Err(e.within(Place::FileTable));
        },
    };
    let (keys, values) = match read_custom_section(&mut reader) {
        Ok(fields) => fields,
        Err(e) => {
            return Err(e.within(Place::CustomFields));
        },
    };
    Ok(Sections { meta, chunks, files, keys, values })
}

/// Reads the outer frame: where the stored payload starts, how long it is,
/// and whether it is compressed.
fn read_frame(reader: &mut ByteReader) -> (r: Result<(usize, usize, bool), ParserError>)
    requires
        old(reader).pos == 0,
    ensures
        final(reader).data == old(reader).data,
        match spec_frame(old(reader).data@) {
            Ok((stored, compressed)) => r is Ok && r->Ok_0.2 == compressed && r->Ok_0.0
                + r->Ok_0.1 <= old(reader).data@.len() && stored == old(reader).data@.subrange(
                r->Ok_0.0 as int,
                r->Ok_0.0 + r->Ok_0.1,
            ),
            Err(f) => r is Err && r->Err_0@ == f,
        },
{
    reveal(spec_frame);
    let magic: u32 = match reader.read_u32_le() {
        Ok(v) => v,
        Err(e) => {
            return Err(e.within(Place::Container));
        },
    };
    if magic != MANIFEST_HEADER_MAGIC {
        return Err(ParserError::located_at(ErrorKind::UnsupportedContainer, Place::Container));
    }
    let header_size: i32 = match reader.read_i32_le() {
        Ok(v) => v,
        Err(e) => {
            return Err(e.within(Place::Container));
        },
    };
    let _uncompressed_size: i32 = match reader.read_i32_le() {
        Ok(v) => v,
        Err(e) => {
            return Err(e.within(Place::Container));
        },
    };
    let stored_size: i32 = match reader.read_i32_le() {
        Ok(v) => v,
        Err(e) => {
            return Err(e.within(Place::Container));
        },
    };
    match reader.skip(20) {
        Ok(_) => {},
        Err(e) => {
            return Err(e.within(Place::Container));
        },
    }
    let flags: u8 = match reader.read_u8() {
        Ok(v) => v,
        Err(e) => {
            return Err(e.within(Place::Container));
        },
    };
    let _version: i32 = match reader.read_i32_le() {
        Ok(v) => v,
        Err(e) => {
            return Err(e.within(Place::Container));
        },
    };
    if flags & STORAGE_FLAG_ENCRYPTED != 0 {
        return Err(ParserError::located_at(ErrorKind::UnsupportedEncryption, Place::Container));
    }
    if flags != 0 && flags != STORAGE_FLAG_COMPRESSED {
        return Err(ParserError::located_at(ErrorKind::UnknownStorage, Place::Container));
    }
    if header_size < 0 || stored_size < 0 || header_size as u64 + stored_size as u64
        > reader.data.len() as u64 {
        return Err(ParserError::located_at(ErrorKind::CorruptManifest, Place::Container));
    }
    Ok((header_size as usize, stored_size as usize, flags == STORAGE_FLAG_COMPRESSED))
}

impl Manifest {
    /// Decodes a manifest file: the frame, the payload, and its sections.
    pub fn new(data: Vec<u8>, options: ManifestOptions) -> (r: Result<Manifest, ParserError>)
        ensures
            decoded(
                r,
                spec_manifest(data@, options.chunk_base_uri@, options.cache_directory.deep_view()),
            ),
            r matches Ok(manifest) ==> sound(manifest@),
    {
        let mut reader = ByteReader::new(data);
        let (start, len, compressed) = read_frame(&mut reader)?;
        let total: usize = reader.data.len();
        assert(start + len <= total);
        let stored: &[u8] = slice_subrange(reader.data.as_slice(), start, start + len);
        let payload: Vec<u8> = if compressed {
            match inflate_zlib(stored, MAX_INFLATED) {
                Ok(bytes) => bytes,
                Err(_) => {
                    return Err(
                        ParserError::located_at(ErrorKind::CorruptManifest, Place::Payload),
                    );
                },
            }
        } else {
            slice_to_vec(stored)
        };
        Manifest::from_payload(payload, options)
    }

    /// The chunk with the given identifier, if the manifest has one.
    pub fn chunk(&self, guid: &FGuid) -> (found: Option<&FileChunk>)
        ensures
            match found {
                Some(chunk) => self@.chunks.contains_key(*guid) && chunk@ == self@.chunks[*guid],
                None => !self@.chunks.contains_key(*guid),
            },
    {
        self.context.chunks.get(guid)
    }

    /// The value of the custom field with the given name, if the manifest
    /// has one.
    pub fn custom_field(&self, name: &str) -> (found: Option<&String>)
        ensures
            match found {
                Some(value) => self@.custom_fields.contains_key(name@) && value@
                    == self@.custom_fields[name@],
                None => !self@.custom_fields.contains_key(name@),
            },
    {
        self.custom_fields.get(name)
    }

    /// Decodes the inner payload of a manifest: its four sections.
    pub fn from_payload(payload: Vec<u8>, options: ManifestOptions) -> (r: Result<
        Manifest,
        ParserError,
    >)
        ensures
            decoded(
                r,
                spec_payload(
                    payload@,
                    options.chunk_base_uri@,
                    options.cache_directory.deep_view(),
                ),
            ),
            r matches Ok(manifest) ==> sound(manifest@),
    {
        proof {
            reveal(spec_payload);
            lemma_decoded_payload_is_sound(
                payload@,
                options.chunk_base_uri@,
                options.cache_directory.deep_view(),
            );
        }
        let sections = read_sections(payload)?;
        let base = ensure_trailing_slash(options.chunk_base_uri.as_str());
        let chunks = build_chunk_index(&sections.chunks, base.as_str());
        let custom_fields = build_field_map(&sections.keys, &sections.values);
        let meta = sections.meta;
        let file_manifests = build_files(sections.files, &chunks)?;
        Ok(
            Manifest {
                app_id: meta.app_id,
                app_name: meta.app_name,
                build_version: meta.build_version,
                launch_exe: meta.launch_exe,
                launch_command: meta.launch_command,
                prereq_ids: meta.prereq_ids,
                prereq_name: meta.prereq_name,
                prereq_path: meta.prereq_path,
                prereq_args: meta.prereq_args,
                build_id: meta.build_id,
                file_manifests,
                custom_fields,
                context: ManifestContext::new(chunks, options.cache_directory),
            },
        )
    }
}

} // verus!
