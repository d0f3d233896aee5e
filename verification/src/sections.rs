//! The four sections of a manifest's payload: what each holds, and how it
//! is read.

use crate::chunk::FileChunkPart;
use crate::guid::{ChunkSha, FGuid};
use crate::reader::{
    read_tarray, read_sized_tarray, spec_tarray, spec_fstring, spec_i32_le, spec_repeat, spec_skip,
    spec_u32_be, spec_u8, yields, ByteReader, Parsed,
};
use crate::{kind_text, ErrorKind, Failure, ParserError};
use vstd::prelude::*;

verus! {

/// The first section version that carries a build id.
pub const META_VERSION_BUILD_ID: u8 = 1;

/// The head of a section: its size in bytes, head included, and its version.
pub open spec fn spec_section_header(data: Seq<u8>, pos: int) -> Parsed<(i32, u8)> {
    match spec_i32_le(data, pos) {
        Err(k) => Err(k),
        Ok((size, p)) => match spec_u8(data, p) {
            Err(k) => Err(k),
            Ok((version, q)) => Ok(((size, version), q)),
        },
    }
}

/// Where the section after a section starts: at the declared size behind
/// the section's start, however many bytes the section's fields took.
pub open spec fn spec_section_end(data: Seq<u8>, start: int, size: i32) -> Parsed<()> {
    if size >= 0 && start + size <= data.len() {
        Ok(((), start + size))
    } else {
        Err(ErrorKind::CorruptManifest)
    }
}

/// The fields of the first section.
pub struct BuildMeta {
    pub app_id: i32,
    pub app_name: String,
    pub build_version: String,
    pub launch_exe: String,
    pub launch_command: String,
    pub prereq_ids: Vec<String>,
    pub prereq_name: String,
    pub prereq_path: String,
    pub prereq_args: String,
    pub build_id: String,
}

/// What a `BuildMeta` holds, with each text as its characters.
pub ghost struct BuildMetaView {
    pub app_id: i32,
    pub app_name: Seq<char>,
    pub build_version: Seq<char>,
    pub launch_exe: Seq<char>,
    pub launch_command: Seq<char>,
    pub prereq_ids: Seq<Seq<char>>,
    pub prereq_name: Seq<char>,
    pub prereq_path: Seq<char>,
    pub prereq_args: Seq<char>,
    pub build_id: Seq<char>,
}

impl DeepView for BuildMeta {
    type V = BuildMetaView;

    open spec fn deep_view(&self) -> BuildMetaView {
        BuildMetaView {
            app_id: self.app_id,
            app_name: self.app_name@,
            build_version: self.build_version@,
            launch_exe: self.launch_exe@,
            launch_command: self.launch_command@,
            prereq_ids: self.prereq_ids.deep_view(),
            prereq_name: self.prereq_name@,
            prereq_path: self.prereq_path@,
            prereq_args: self.prereq_args@,
            build_id: self.build_id@,
        }
    }
}

/// The build id, which only later versions of the section carry.
pub open spec fn spec_build_id(data: Seq<u8>, pos: int, version: u8) -> Parsed<Seq<char>> {
    if version >= META_VERSION_BUILD_ID {
        spec_fstring(data, pos)
    } else {
        Ok((Seq::empty(), pos))
    }
}

/// The fields of the first section, in the order of the bytes: feature level
/// (big-endian) and the file-data flag, both passed over; the application's
/// id; its name, build version, executable and command line; the
/// prerequisites; the build id.
pub open spec fn spec_build_meta(data: Seq<u8>, pos: int, version: u8) -> Parsed<BuildMetaView> {
    match spec_u32_be(data, pos) {
    Err(k) => Err(k),
    Ok((_, p0)) => match spec_u8(data, p0) {
    Err(k) => Err(k),
    Ok((_, p1)) => match spec_i32_le(data, p1) {
    Err(k) => Err(k),
    Ok((app_id, p2)) => match spec_fstring(data, p2) {
    Err(k) => Err(k),
    Ok((app_name, p3)) => match spec_fstring(data, p3) {
    Err(k) => Err(k),
    Ok((build_version, p4)) => match spec_fstring(data, p4) {
    Err(k) => Err(k),
    Ok((launch_exe, p5)) => match spec_fstring(data, p5) {
    Err(k) => Err(k),
    Ok((launch_command, p6)) => match spec_tarray::<String>(data, p6) {
    Err(k) => Err(k),
    Ok((prereq_ids, p7)) => match spec_fstring(data, p7) {
    Err(k) => Err(k),
    Ok((prereq_name, p8)) => match spec_fstring(data, p8) {
    Err(k) => Err(k),
    Ok((prereq_path, p9)) => match spec_fstring(data, p9) {
    Err(k) => Err(k),
    Ok((prereq_args, p10)) => match spec_build_id(data, p10, version) {
    Err(k) => Err(k),
    Ok((build_id, p11)) => Ok(
        (
            BuildMetaView {
                app_id,
                app_name,
                build_version,
                launch_exe,
                launch_command,
                prereq_ids,
                prereq_name,
                prereq_path,
                prereq_args,
                build_id,
            },
            p11,
        ),
    ),
    }}}}}}}}}}}}
}

/// Reads the fields of the first section.
fn read_build_meta(reader: &mut ByteReader, version: u8) -> (r: Result<BuildMeta, ParserError>)
    ensures
        yields(
            *old(reader),
            *final(reader),
            r,
            spec_build_meta(old(reader).data@, old(reader).pos as int, version),
        ),
{
    let _feature_level: u32 = reader.read_u32_be()?;
    let _is_file_data: u8 = reader.read_u8()?;
    let app_id: i32 = reader.read_i32_le()?;
    let app_name = reader.read_fstring()?;
    let build_version = reader.read_fstring()?;
    let launch_exe = reader.read_fstring()?;
    let launch_command = reader.read_fstring()?;
    let prereq_ids: Vec<String> = read_tarray::<String>(reader)?;
    let prereq_name = reader.read_fstring()?;
    let prereq_path = reader.read_fstring()?;
    let prereq_args = reader.read_fstring()?;
    let build_id = if version >= META_VERSION_BUILD_ID {
        reader.read_fstring()?
    } else {
        String::new()
    };
    Ok(
        BuildMeta {
            app_id,
            app_name,
            build_version,
            launch_exe,
            launch_command,
            prereq_ids,
            prereq_name,
            prereq_path,
            prereq_args,
            build_id,
        },
    )
}

/// The columns of the second section, one entry of each for every chunk.
pub struct ChunkTable {
    pub guids: Vec<FGuid>,
    pub hashes: Vec<u64>,
    pub shas: Vec<ChunkSha>,
    pub data_groups: Vec<u8>,
    pub sizes: Vec<u64>,
}

/// What a `ChunkTable` holds, with each digest as its bytes.
pub ghost struct ChunkTableView {
    pub guids: Seq<FGuid>,
    pub hashes: Seq<u64>,
    pub shas: Seq<Seq<u8>>,
    pub data_groups: Seq<u8>,
    pub sizes: Seq<u64>,
}

impl DeepView for ChunkTable {
    type V = ChunkTableView;

    open spec fn deep_view(&self) -> ChunkTableView {
        ChunkTableView {
            guids: self.guids.deep_view(),
            hashes: self.hashes.deep_view(),
            shas: self.shas.deep_view(),
            data_groups: self.data_groups.deep_view(),
            sizes: self.sizes.deep_view(),
        }
    }
}

impl ChunkTable {
    /// Whether every column has one entry for each chunk.
    pub open spec fn aligned(&self) -> bool {
        &&& self.hashes@.len() == self.guids@.len()
        &&& self.shas@.len() == self.guids@.len()
        &&& self.data_groups@.len() == self.guids@.len()
        &&& self.sizes@.len() == self.guids@.len()
    }
}

/// The number of entries that a table declares. A negative number is corrupt.
pub open spec fn spec_count(data: Seq<u8>, pos: int) -> Parsed<nat> {
    match spec_i32_le(data, pos) {
        Err(k) => Err(k),
        Ok((n, p)) => if n < 0 {
            Err(ErrorKind::CorruptManifest)
        } else {
            Ok((n as nat, p))
        },
    }
}

/// The second section: a count, then column by column the identifiers, the
/// rolling hashes, the digests, the data groups, four bytes for each chunk
/// that are passed over, and the sizes.
pub open spec fn spec_chunk_table(data: Seq<u8>, pos: int) -> Parsed<ChunkTableView> {
    match spec_count(data, pos) {
    Err(k) => Err(k),
    Ok((n, p0)) => match spec_repeat::<FGuid>(data, p0, n) {
    Err(k) => Err(k),
    Ok((guids, p1)) => match spec_repeat::<u64>(data, p1, n) {
    Err(k) => Err(k),
    Ok((hashes, p2)) => match spec_repeat::<ChunkSha>(data, p2, n) {
    Err(k) => Err(k),
    Ok((shas, p3)) => match spec_repeat::<u8>(data, p3, n) {
    Err(k) => Err(k),
    Ok((data_groups, p4)) => match spec_skip(data, p4, 4 * (n as int)) {
    Err(k) => Err(k),
    Ok((_, p5)) => match spec_repeat::<u64>(data, p5, n) {
    Err(k) => Err(k),
    Ok((sizes, p6)) => Ok((ChunkTableView { guids, hashes, shas, data_groups, sizes }, p6)),
    }}}}}}}
}

/// Reads the number of entries of a table.
fn read_count(reader: &mut ByteReader) -> (r: Result<usize, ParserError>)
    ensures
        final(reader).data == old(reader).data,
        match spec_count(old(reader).data@, old(reader).pos as int) {
            Ok((n, p)) => r == Ok::<usize, ParserError>(n as usize) && n <= i32::MAX && final(
                reader).pos == p,
            Err(k) => r is Err && r->Err_0@ == (Failure { kind: k, message: kind_text(k) }),
        },
{
    let count: i32 = reader.read_i32_le()?;
    if count < 0 {
        return Err(ParserError::of_kind(ErrorKind::CorruptManifest));
    }
    Ok(count as usize)
}

/// Reads the columns of the second section.
fn read_chunk_table(reader: &mut ByteReader) -> (r: Result<ChunkTable, ParserError>)
    ensures
        yields(
            *old(reader),
            *final(reader),
            r,
            spec_chunk_table(old(reader).data@, old(reader).pos as int),
        ),
        r matches Ok(table) ==> table.aligned(),
{
    let count: usize = read_count(reader)?;
    let guids: Vec<FGuid> = read_sized_tarray::<FGuid>(reader, count)?;
    let hashes: Vec<u64> = read_sized_tarray::<u64>(reader, count)?;
    let shas: Vec<ChunkSha> = read_sized_tarray::<ChunkSha>(reader, count)?;
    let data_groups: Vec<u8> = read_sized_tarray::<u8>(reader, count)?;
    reader.skip(4 * (count as u64))?;
    let sizes: Vec<u64> = read_sized_tarray::<u64>(reader, count)?;
    Ok(ChunkTable { guids, hashes, shas, data_groups, sizes })
}

/// The columns of the third section, one entry of each for every file.
pub struct FileTable {
    pub names: Vec<String>,
    pub hashes: Vec<ChunkSha>,
    pub install_tags: Vec<Vec<String>>,
    pub chunk_parts: Vec<Vec<FileChunkPart>>,
}

/// What a `FileTable` holds, with each text as its characters.
pub ghost struct FileTableView {
    pub names: Seq<Seq<char>>,
    pub hashes: Seq<Seq<u8>>,
    pub install_tags: Seq<Seq<Seq<char>>>,
    pub chunk_parts: Seq<Seq<FileChunkPart>>,
}

impl DeepView for FileTable {
    type V = FileTableView;

    open spec fn deep_view(&self) -> FileTableView {
        FileTableView {
            names: self.names.deep_view(),
            hashes: self.hashes.deep_view(),
            install_tags: self.install_tags.deep_view(),
            chunk_parts: self.chunk_parts.deep_view(),
        }
    }
}

impl FileTable {
    /// Whether every column has one entry for each file.
    pub open spec fn aligned(&self) -> bool {
        &&& self.hashes@.len() == self.names@.len()
        &&& self.install_tags@.len() == self.names@.len()
        &&& self.chunk_parts@.len() == self.names@.len()
    }
}

/// The third section: a count, then column by column the paths, the targets
/// of symbolic links (read and dropped), the digests, one byte for each file
/// that is passed over, the lists of tags, and the lists of parts.
pub open spec fn spec_file_table(data: Seq<u8>, pos: int) -> Parsed<FileTableView> {
    match spec_count(data, pos) {
    Err(k) => Err(k),
    Ok((n, p0)) => match spec_repeat::<String>(data, p0, n) {
    Err(k) => Err(k),
    Ok((names, p1)) => match spec_repeat::<String>(data, p1, n) {
    Err(k) => Err(k),
    Ok((_, p2)) => match spec_repeat::<ChunkSha>(data, p2, n) {
    Err(k) => Err(k),
    Ok((hashes, p3)) => match spec_skip(data, p3, n as int) {
    Err(k) => Err(k),
    Ok((_, p4)) => match spec_repeat::<Vec<String>>(data, p4, n) {
    Err(k) => Err(k),
    Ok((install_tags, p5)) => match spec_repeat::<Vec<FileChunkPart>>(data, p5, n) {
    Err(k) => Err(k),
    Ok((chunk_parts, p6)) => Ok(
        (FileTableView { names, hashes, install_tags, chunk_parts }, p6),
    ),
    }}}}}}}
}

/// Reads the columns of the third section.
fn read_file_table(reader: &mut ByteReader) -> (r: Result<FileTable, ParserError>)
    ensures
        yields(
            *old(reader),
            *final(reader),
            r,
            spec_file_table(old(reader).data@, old(reader).pos as int),
        ),
        r matches Ok(table) ==> table.aligned(),
{
    let count: usize = read_count(reader)?;
    let names: Vec<String> = read_sized_tarray::<String>(reader, count)?;
    let _symlink_targets: Vec<String> = read_sized_tarray::<String>(reader, count)?;
    let hashes: Vec<ChunkSha> = read_sized_tarray::<ChunkSha>(reader, count)?;
    reader.skip(count as u64)?;
    let install_tags: Vec<Vec<String>> = read_sized_tarray::<Vec<String>>(reader, count)?;
    let chunk_parts: Vec<Vec<FileChunkPart>> = read_sized_tarray::<Vec<FileChunkPart>>(
        reader,
        count,
    )?;
    Ok(FileTable { names, hashes, install_tags, chunk_parts })
}

/// The fourth section: a count, then the names and the values, each as a
/// counted list that must have as many entries as the count says. Where the
/// count is zero nothing more is read. A section of version zero holds no
/// fields.
pub open spec fn spec_custom_fields(data: Seq<u8>, pos: int, version: u8) -> Parsed<
    (Seq<Seq<char>>, Seq<Seq<char>>),
> {
    if version == 0 {
        Ok(((Seq::empty(), Seq::empty()), pos))
    } else {
        match spec_count(data, pos) {
        Err(k) => Err(k),
        Ok((n, p0)) => if n == 0 {
            Ok(((Seq::empty(), Seq::empty()), p0))
        } else {
            match spec_tarray::<String>(data, p0) {
            Err(k) => Err(k),
            Ok((keys, p1)) => match spec_tarray::<String>(data, p1) {
            Err(k) => Err(k),
            Ok((values, p2)) => if keys.len() == n && values.len() == n {
                Ok(((keys, values), p2))
            } else {
                Err(ErrorKind::CorruptManifest)
            },
            }}
        },
        }
    }
}

/// Reads the names and the values of the fourth section.
fn read_custom_fields(reader: &mut ByteReader, version: u8) -> (r: Result<
    (Vec<String>, Vec<String>),
    ParserError,
>)
    ensures
        yields(
            *old(reader),
            *final(reader),
            r,
            spec_custom_fields(old(reader).data@, old(reader).pos as int, version),
        ),
        r matches Ok(fields) ==> fields.0@.len() == fields.1@.len(),
{
    let count: usize = if version == 0 {
        0
    } else {
        read_count(reader)?
    };
    if count == 0 {
        let keys: Vec<String> = Vec::new();
        let values: Vec<String> = Vec::new();
        assert(keys.deep_view() =~= Seq::<Seq<char>>::empty());
        assert(values.deep_view() =~= Seq::<Seq<char>>::empty());
        return Ok((keys, values));
    }
    let keys: Vec<String> = read_tarray::<String>(reader)?;
    let values: Vec<String> = read_tarray::<String>(reader)?;
    if keys.len() != count || values.len() != count {
        return Err(ParserError::of_kind(ErrorKind::CorruptManifest));
    }
    Ok((keys, values))
}

/// Reads the head of a section.
fn read_section_header(reader: &mut ByteReader) -> (r: Result<(i32, u8), ParserError>)
    ensures
        yields(
            *old(reader),
            *final(reader),
            r,
            spec_section_header(old(reader).data@, old(reader).pos as int),
        ),
        r is Ok ==> old(reader).pos <= old(reader).data@.len(),
{
    let size: i32 = reader.read_i32_le()?;
    let version: u8 = reader.read_u8()?;
    Ok((size, version))
}

/// Moves to where the next section starts.
fn end_section(reader: &mut ByteReader, start: usize, size: i32) -> (r: Result<(), ParserError>)
    requires
        start <= old(reader).data@.len(),
    ensures
        final(reader).data == old(reader).data,
        match spec_section_end(old(reader).data@, start as int, size) {
            Ok((_, p)) => r is Ok && final(reader).pos == p,
            Err(k) => r is Err && r->Err_0@ == (Failure { kind: k, message: kind_text(k) }),
        },
{
    if size < 0 || size as usize > reader.data.len() - start {
        return Err(ParserError::of_kind(ErrorKind::CorruptManifest));
    }
    reader.seek(start + size as usize);
    Ok(())
}

/// The first section as a whole: head, fields, and the move to its end.
pub open spec fn spec_meta_section(data: Seq<u8>, start: int) -> Parsed<BuildMetaView> {
    match spec_section_header(data, start) {
        Err(k) => Err(k),
        Ok(((size, version), p)) => match spec_build_meta(data, p, version) {
            Err(k) => Err(k),
            Ok((meta, _)) => match spec_section_end(data, start, size) {
                Err(k) => Err(k),
                Ok((_, next)) => Ok((meta, next)),
            },
        },
    }
}

/// The second section as a whole.
pub open spec fn spec_chunk_section(data: Seq<u8>, start: int) -> Parsed<ChunkTableView> {
    match spec_section_header(data, start) {
        Err(k) => Err(k),
        Ok(((size, _), p)) => match spec_chunk_table(data, p) {
            Err(k) => Err(k),
            Ok((table, _)) => match spec_section_end(data, start, size) {
                Err(k) => Err(k),
                Ok((_, next)) => Ok((table, next)),
            },
        },
    }
}

/// The third section as a whole.
pub open spec fn spec_file_section(data: Seq<u8>, start: int) -> Parsed<FileTableView> {
    match spec_section_header(data, start) {
        Err(k) => Err(k),
        Ok(((size, _), p)) => match spec_file_table(data, p) {
            Err(k) => Err(k),
            Ok((table, _)) => match spec_section_end(data, start, size) {
                Err(k) => Err(k),
                Ok((_, next)) => Ok((table, next)),
            },
        },
    }
}

/// The fourth section as a whole. Nothing is read behind it, so its size
/// is not looked at.
pub open spec fn spec_custom_section(data: Seq<u8>, start: int) -> Parsed<
    (Seq<Seq<char>>, Seq<Seq<char>>),
> {
    match spec_section_header(data, start) {
        Err(k) => Err(k),
        Ok(((_, version), p)) => spec_custom_fields(data, p, version),
    }
}

pub(crate) fn read_meta_section(reader: &mut ByteReader) -> (r: Result<BuildMeta, ParserError>)
    ensures
        yields(
            *old(reader),
            *final(reader),
            r,
            spec_meta_section(old(reader).data@, old(reader).pos as int),
        ),
{
    let start: usize = reader.position();
    let (size, version) = read_section_header(reader)?;
    let meta = read_build_meta(reader, version)?;
    end_section(reader, start, size)?;
    Ok(meta)
}

pub(crate) fn read_chunk_section(reader: &mut ByteReader) -> (r: Result<ChunkTable, ParserError>)
    ensures
        yields(
            *old(reader),
            *final(reader),
            r,
            spec_chunk_section(old(reader).data@, old(reader).pos as int),
        ),
        r matches Ok(table) ==> table.aligned(),
{
    let start: usize = reader.position();
    let (size, _version) = read_section_header(reader)?;
    let table = read_chunk_table(reader)?;
    end_section(reader, start, size)?;
    Ok(table)
}

pub(crate) fn read_file_section(reader: &mut ByteReader) -> (r: Result<FileTable, ParserError>)
    ensures
        yields(
            *old(reader),
            *final(reader),
            r,
            spec_file_section(old(reader).data@, old(reader).pos as int),
        ),
        r matches Ok(table) ==> table.aligned(),
{
    let start: usize = reader.position();
    let (size, _version) = read_section_header(reader)?;
    let table = read_file_table(reader)?;
    end_section(reader, start, size)?;
    Ok(table)
}

pub(crate) fn read_custom_section(reader: &mut ByteReader) -> (r: Result<
    (Vec<String>, Vec<String>),
    ParserError,
>)
    ensures
        yields(
            *old(reader),
            *final(reader),
            r,
            spec_custom_section(old(reader).data@, old(reader).pos as int),
        ),
        r matches Ok(fields) ==> fields.0@.len() == fields.1@.len(),
{
    let (_size, version) = read_section_header(reader)?;
    read_custom_fields(reader, version)
}

} // verus!
