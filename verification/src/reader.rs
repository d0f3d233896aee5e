//! A cursor over an owned byte buffer, with the primitive decoders of the
//! manifest format. All multi-byte integers are little-endian unless the
//! name says otherwise.

use crate::text::{latin1, string_from_latin1};
use crate::{kind_text, ErrorKind, Failure, ParserError};
use bytes::Buf;
use vstd::prelude::*;
use vstd::slice::slice_subrange;

verus! {

/// What a decoder yields, as the contracts state it: the value and the
/// position behind it, or the kind of the failure.
pub type Parsed<T> = Result<(T, int), ErrorKind>;

/// The unsigned 32-bit value of the four bytes at `pos`, lowest byte first.
pub open spec fn u32_le_at(data: Seq<u8>, pos: int) -> u32 {
    (data[pos] as int + 0x100 * (data[pos + 1] as int) + 0x1_0000 * (data[pos + 2] as int)
        + 0x100_0000 * (data[pos + 3] as int)) as u32
}

/// The unsigned 32-bit value of the four bytes at `pos`, highest byte first.
pub open spec fn u32_be_at(data: Seq<u8>, pos: int) -> u32 {
    (data[pos + 3] as int + 0x100 * (data[pos + 2] as int) + 0x1_0000 * (data[pos + 1] as int)
        + 0x100_0000 * (data[pos] as int)) as u32
}

/// The unsigned 64-bit value of the eight bytes at `pos`, lowest byte first.
pub open spec fn u64_le_at(data: Seq<u8>, pos: int) -> u64 {
    (u32_le_at(data, pos) as int + 0x1_0000_0000 * (u32_le_at(data, pos + 4) as int)) as u64
}

/// The two's-complement 32-bit value of the four bytes at `pos`.
pub open spec fn i32_le_at(data: Seq<u8>, pos: int) -> i32 {
    let u = u32_le_at(data, pos) as int;
    if u >= 0x8000_0000 {
        (u - 0x1_0000_0000) as i32
    } else {
        u as i32
    }
}

/// The two's-complement 64-bit value of the eight bytes at `pos`.
pub open spec fn i64_le_at(data: Seq<u8>, pos: int) -> i64 {
    let u = u64_le_at(data, pos) as int;
    if u >= 0x8000_0000_0000_0000 {
        (u - 0x1_0000_0000_0000_0000) as i64
    } else {
        u as i64
    }
}

/// `bytes::Buf::get_u32_le` on a byte slice: the first four bytes as an
/// unsigned integer, lowest byte first. The call panics on a shorter slice,
/// which `requires` leaves out.
#[verifier::external_body]
fn get_u32_le(window: &[u8]) -> (v: u32)
    requires
        window@.len() >= 4,
    ensures
        v == u32_le_at(window@, 0),
{
    let mut buf = window;
    buf.get_u32_le()
}

/// `bytes::Buf::get_u32` on a byte slice: the first four bytes as an unsigned
/// integer, highest byte first. The call panics on a shorter slice.
#[verifier::external_body]
fn get_u32_be(window: &[u8]) -> (v: u32)
    requires
        window@.len() >= 4,
    ensures
        v == u32_be_at(window@, 0),
{
    let mut buf = window;
    buf.get_u32()
}

/// `bytes::Buf::get_i32_le` on a byte slice: the first four bytes as a
/// two's-complement integer, lowest byte first. The call panics on a shorter
/// slice.
#[verifier::external_body]
fn get_i32_le(window: &[u8]) -> (v: i32)
    requires
        window@.len() >= 4,
    ensures
        v == i32_le_at(window@, 0),
{
    let mut buf = window;
    buf.get_i32_le()
}

/// `bytes::Buf::get_u64_le` on a byte slice: the first eight bytes as an
/// unsigned integer, lowest byte first. The call panics on a shorter slice.
#[verifier::external_body]
fn get_u64_le(window: &[u8]) -> (v: u64)
    requires
        window@.len() >= 8,
    ensures
        v == u64_le_at(window@, 0),
{
    let mut buf = window;
    buf.get_u64_le()
}

/// `bytes::Buf::get_i64_le` on a byte slice: the first eight bytes as a
/// two's-complement integer, lowest byte first. The call panics on a shorter
/// slice.
#[verifier::external_body]
fn get_i64_le(window: &[u8]) -> (v: i64)
    requires
        window@.len() >= 8,
    ensures
        v == i64_le_at(window@, 0),
{
    let mut buf = window;
    buf.get_i64_le()
}

/// Whether `n` bytes lie at `pos`.
pub open spec fn has_bytes(data: Seq<u8>, pos: int, n: int) -> bool {
    0 <= pos && 0 <= n && pos + n <= data.len()
}

/// One byte.
pub open spec fn spec_u8(data: Seq<u8>, pos: int) -> Parsed<u8> {
    if has_bytes(data, pos, 1) {
        Ok((data[pos], pos + 1))
    } else {
        Err(ErrorKind::CorruptManifest)
    }
}

/// An unsigned 32-bit integer, little-endian.
pub open spec fn spec_u32_le(data: Seq<u8>, pos: int) -> Parsed<u32> {
    if has_bytes(data, pos, 4) {
        Ok((u32_le_at(data, pos), pos + 4))
    } else {
        Err(ErrorKind::CorruptManifest)
    }
}

/// An unsigned 32-bit integer, big-endian.
pub open spec fn spec_u32_be(data: Seq<u8>, pos: int) -> Parsed<u32> {
    if has_bytes(data, pos, 4) {
        Ok((u32_be_at(data, pos), pos + 4))
    } else {
        Err(ErrorKind::CorruptManifest)
    }
}

/// A signed 32-bit integer, little-endian.
pub open spec fn spec_i32_le(data: Seq<u8>, pos: int) -> Parsed<i32> {
    if has_bytes(data, pos, 4) {
        Ok((i32_le_at(data, pos), pos + 4))
    } else {
        Err(ErrorKind::CorruptManifest)
    }
}

/// An unsigned 64-bit integer, little-endian.
pub open spec fn spec_u64_le(data: Seq<u8>, pos: int) -> Parsed<u64> {
    if has_bytes(data, pos, 8) {
        Ok((u64_le_at(data, pos), pos + 8))
    } else {
        Err(ErrorKind::CorruptManifest)
    }
}

/// A signed 64-bit integer, little-endian.
pub open spec fn spec_i64_le(data: Seq<u8>, pos: int) -> Parsed<i64> {
    if has_bytes(data, pos, 8) {
        Ok((i64_le_at(data, pos), pos + 8))
    } else {
        Err(ErrorKind::CorruptManifest)
    }
}

/// `n` raw bytes.
pub open spec fn spec_bytes(data: Seq<u8>, pos: int, n: int) -> Parsed<Seq<u8>> {
    if has_bytes(data, pos, n) {
        Ok((data.subrange(pos, pos + n), pos + n))
    } else {
        Err(ErrorKind::CorruptManifest)
    }
}

/// `n` bytes that are passed over.
pub open spec fn spec_skip(data: Seq<u8>, pos: int, n: int) -> Parsed<()> {
    if has_bytes(data, pos, n) {
        Ok(((), pos + n))
    } else {
        Err(ErrorKind::CorruptManifest)
    }
}

/// A length-prefixed string. The length counts the closing NUL, which is
/// dropped; each byte stands for the character of the same number. A
/// negative length announces UTF-16, which is refused.
pub open spec fn spec_fstring(data: Seq<u8>, pos: int) -> Parsed<Seq<char>> {
    match spec_i32_le(data, pos) {
        Err(k) => Err(k),
        Ok((n, p)) => {
            if n == 0 {
                Ok((Seq::empty(), p))
            } else if n == i32::MIN {
                Err(ErrorKind::CorruptManifest)
            } else if n < 0 {
                Err(ErrorKind::UnsupportedEncoding)
            } else if !has_bytes(data, p, n as int) {
                Err(ErrorKind::CorruptManifest)
            } else {
                Ok((latin1(data.subrange(p, p + n - 1)), p + n))
            }
        },
    }
}

/// A type with a wire form: what the format yields at a position, and the
/// read that yields it.
pub trait Decode: Sized + DeepView {
    /// The value that the bytes at `pos` stand for, and where it ends.
    spec fn parse(data: Seq<u8>, pos: int) -> Parsed<Self::V>;

    fn decode(reader: &mut ByteReader) -> (r: Result<Self, ParserError>)
        ensures
            reads(*old(reader), *final(reader), r, Self::parse(old(reader).data@, old(reader).pos as int)),
    ;
}

/// `n` items in a row, each starting where the one before ended.
pub open spec fn spec_repeat<T: Decode>(data: Seq<u8>, pos: int, n: nat) -> Parsed<Seq<T::V>>
    decreases n,
{
    if n == 0 {
        Ok((Seq::empty(), pos))
    } else {
        match spec_repeat::<T>(data, pos, (n - 1) as nat) {
            Err(k) => Err(k),
            Ok((items, p)) => match T::parse(data, p) {
                Err(k) => Err(k),
                Ok((x, q)) => Ok((items.push(x), q)),
            },
        }
    }
}

/// A count and then that many items. A negative count is corrupt.
pub open spec fn spec_tarray<T: Decode>(data: Seq<u8>, pos: int) -> Parsed<Seq<T::V>> {
    match spec_i32_le(data, pos) {
        Err(k) => Err(k),
        Ok((n, p)) => {
            if n < 0 {
                Err(ErrorKind::CorruptManifest)
            } else {
                spec_repeat::<T>(data, p, n as nat)
            }
        },
    }
}

/// A run of `n` items that succeeds yields `n` values.
pub proof fn lemma_repeat_len<T: Decode>(data: Seq<u8>, pos: int, n: nat)
    ensures
        spec_repeat::<T>(data, pos, n) matches Ok((items, _)) ==> items.len() == n,
    decreases n,
{
    if n > 0 {
        lemma_repeat_len::<T>(data, pos, (n - 1) as nat);
    }
}

/// Once a run of items has failed, every longer run fails in the same way.
pub proof fn lemma_repeat_error_stays<T: Decode>(data: Seq<u8>, pos: int, m: nat, n: nat)
    requires
        m <= n,
        spec_repeat::<T>(data, pos, m) is Err,
    ensures
        spec_repeat::<T>(data, pos, n) == spec_repeat::<T>(data, pos, m),
    decreases n,
{
    if m < n {
        lemma_repeat_error_stays::<T>(data, pos, m, (n - 1) as nat);
    }
}

/// A cursor over an owned byte buffer. The position may stand anywhere; a
/// read that would pass the end of the buffer fails and leaves it in place.
pub struct ByteReader {
    pub data: Vec<u8>,
    pub pos: usize,
}

/// What a read promises: the buffer is untouched; where the format yields a
/// value the read returns it and stands behind it; where the format fails the
/// read fails with that kind, says so in the kind's own words, and has not
/// moved.
pub open spec fn reads<T: DeepView>(
    before: ByteReader,
    after: ByteReader,
    result: Result<T, ParserError>,
    expected: Parsed<T::V>,
) -> bool {
    &&& after.data == before.data
    &&& match expected {
        Ok((v, p)) => result is Ok && result->Ok_0.deep_view() == v && after.pos == p,
        Err(k) => result is Err && result->Err_0@ == (Failure { kind: k, message: kind_text(k) })
            && after.pos == before.pos,
    }
}

/// What a read of several fields promises: as `reads`, but where the format
/// fails the cursor is left where the failure was met.
pub open spec fn yields<T: DeepView>(
    before: ByteReader,
    after: ByteReader,
    result: Result<T, ParserError>,
    expected: Parsed<T::V>,
) -> bool {
    &&& after.data == before.data
    &&& match expected {
        Ok((v, p)) => result is Ok && result->Ok_0.deep_view() == v && after.pos == p,
        Err(k) => result is Err && result->Err_0@ == (Failure { kind: k, message: kind_text(k) }),
    }
}

impl ByteReader {
    /// A cursor at the start of the given bytes.
    pub fn new(data: Vec<u8>) -> (r: Self)
        ensures
            r.data == data,
            r.pos == 0,
    {
        ByteReader { data, pos: 0 }
    }

    /// Where the cursor stands.
    pub fn position(&self) -> (p: usize)
        ensures
            p == self.pos,
    {
        self.pos
    }

    /// How many bytes lie between the cursor and the end of the buffer.
    pub fn remaining(&self) -> (n: usize)
        ensures
            n == if self.pos <= self.data@.len() { self.data@.len() - self.pos } else { 0 },
    {
        if self.pos <= self.data.len() {
            self.data.len() - self.pos
        } else {
            0
        }
    }

    /// Whether `n` bytes lie at the cursor.
    pub fn has(&self, n: usize) -> (b: bool)
        ensures
            b == has_bytes(self.data@, self.pos as int, n as int),
            b ==> self.pos + n <= usize::MAX,
    {
        let len: usize = self.data.len();
        self.pos <= len && n <= len - self.pos
    }

    /// Moves the cursor to an absolute position, which may lie behind the end.
    pub fn seek(&mut self, pos: usize)
        ensures
            final(self).data == old(self).data,
            final(self).pos == pos,
    {
        self.pos = pos;
    }

    /// Moves the cursor forward over `n` bytes that must be there.
    pub fn skip(&mut self, n: u64) -> (r: Result<(), ParserError>)
        ensures
            reads(
                *old(self),
                *final(self),
                r,
                spec_skip(old(self).data@, old(self).pos as int, n as int),
            ),
    {
        let left: usize = self.remaining();
        if self.pos <= self.data.len() && n <= left as u64 {
            assert(self.pos + n <= self.data@.len());
            self.pos = self.pos + n as usize;
            Ok(())
        } else {
            Err(ParserError::of_kind(ErrorKind::CorruptManifest))
        }
    }

    /// Reads one byte.
    pub fn read_u8(&mut self) -> (r: Result<u8, ParserError>)
        ensures
            reads(*old(self), *final(self), r, spec_u8(old(self).data@, old(self).pos as int)),
    {
        if !self.has(1) {
            return Err(ParserError::of_kind(ErrorKind::CorruptManifest));
        }
        let v: u8 = self.data[self.pos];
        self.pos = self.pos + 1;
        Ok(v)
    }

    /// Reads an unsigned 32-bit integer, little-endian.
    pub fn read_u32_le(&mut self) -> (r: Result<u32, ParserError>)
        ensures
            reads(*old(self), *final(self), r, spec_u32_le(old(self).data@, old(self).pos as int)),
    {
        if !self.has(4) {
            return Err(ParserError::of_kind(ErrorKind::CorruptManifest));
        }
        let v: u32 = get_u32_le(slice_subrange(self.data.as_slice(), self.pos, self.pos + 4));
        self.pos = self.pos + 4;
        Ok(v)
    }

    /// Reads an unsigned 32-bit integer, big-endian.
    pub fn read_u32_be(&mut self) -> (r: Result<u32, ParserError>)
        ensures
            reads(*old(self), *final(self), r, spec_u32_be(old(self).data@, old(self).pos as int)),
    {
        if !self.has(4) {
            return Err(ParserError::of_kind(ErrorKind::CorruptManifest));
        }
        let v: u32 = get_u32_be(slice_subrange(self.data.as_slice(), self.pos, self.pos + 4));
        self.pos = self.pos + 4;
        Ok(v)
    }

    /// Reads a signed 32-bit integer, little-endian.
    pub fn read_i32_le(&mut self) -> (r: Result<i32, ParserError>)
        ensures
            reads(*old(self), *final(self), r, spec_i32_le(old(self).data@, old(self).pos as int)),
    {
        if !self.has(4) {
            return Err(ParserError::of_kind(ErrorKind::CorruptManifest));
        }
        let v: i32 = get_i32_le(slice_subrange(self.data.as_slice(), self.pos, self.pos + 4));
        self.pos = self.pos + 4;
        Ok(v)
    }

    /// Reads an unsigned 64-bit integer, little-endian.
    pub fn read_u64_le(&mut self) -> (r: Result<u64, ParserError>)
        ensures
            reads(*old(self), *final(self), r, spec_u64_le(old(self).data@, old(self).pos as int)),
    {
        if !self.has(8) {
            return Err(ParserError::of_kind(ErrorKind::CorruptManifest));
        }
        let v: u64 = get_u64_le(slice_subrange(self.data.as_slice(), self.pos, self.pos + 8));
        self.pos = self.pos + 8;
        Ok(v)
    }

    /// Reads a signed 64-bit integer, little-endian.
    pub fn read_i64_le(&mut self) -> (r: Result<i64, ParserError>)
        ensures
            reads(*old(self), *final(self), r, spec_i64_le(old(self).data@, old(self).pos as int)),
    {
        if !self.has(8) {
            return Err(ParserError::of_kind(ErrorKind::CorruptManifest));
        }
        let v: i64 = get_i64_le(slice_subrange(self.data.as_slice(), self.pos, self.pos + 8));
        self.pos = self.pos + 8;
        Ok(v)
    }

    /// Reads a length-prefixed string.
    pub fn read_fstring(&mut self) -> (r: Result<String, ParserError>)
        ensures
            reads(*old(self), *final(self), r, spec_fstring(old(self).data@, old(self).pos as int)),
    {
        let start: usize = self.pos;
        let length: i32 = self.read_i32_le()?;
        if length == 0 {
            return Ok(String::new());
        }
        if length < 0 {
            self.pos = start;
            if length == i32::MIN {
                return Err(ParserError::of_kind(ErrorKind::CorruptManifest));
            }
            return Err(ParserError::of_kind(ErrorKind::UnsupportedEncoding));
        }
        if !self.has(length as usize) {
            self.pos = start;
            return Err(ParserError::of_kind(ErrorKind::CorruptManifest));
        }
        let end: usize = self.pos + length as usize;
        let s = string_from_latin1(slice_subrange(self.data.as_slice(), self.pos, end - 1));
        self.pos = end;
        Ok(s)
    }
}

impl Decode for u8 {
    open spec fn parse(data: Seq<u8>, pos: int) -> Parsed<u8> {
        spec_u8(data, pos)
    }

    fn decode(reader: &mut ByteReader) -> (r: Result<Self, ParserError>) {
        reader.read_u8()
    }
}

impl Decode for u64 {
    open spec fn parse(data: Seq<u8>, pos: int) -> Parsed<u64> {
        spec_u64_le(data, pos)
    }

    fn decode(reader: &mut ByteReader) -> (r: Result<Self, ParserError>) {
        reader.read_u64_le()
    }
}

impl Decode for String {
    open spec fn parse(data: Seq<u8>, pos: int) -> Parsed<Seq<char>> {
        spec_fstring(data, pos)
    }

    fn decode(reader: &mut ByteReader) -> (r: Result<Self, ParserError>) {
        reader.read_fstring()
    }
}

impl<T: Decode> Decode for Vec<T> {
    open spec fn parse(data: Seq<u8>, pos: int) -> Parsed<Seq<T::V>> {
        spec_tarray::<T>(data, pos)
    }

    fn decode(reader: &mut ByteReader) -> (r: Result<Self, ParserError>) {
        read_tarray::<T>(reader)
    }
}

/// Reads `n` items in a row.
pub fn read_sized_tarray<T: Decode>(reader: &mut ByteReader, n: usize) -> (r: Result<
    Vec<T>,
    ParserError,
>)
    ensures
        reads(
            *old(reader),
            *final(reader),
            r,
            spec_repeat::<T>(old(reader).data@, old(reader).pos as int, n as nat),
        ),
        r matches Ok(items) ==> items@.len() == n,
{
    let start: usize = reader.pos;
    let mut items: Vec<T> = Vec::new();
    let mut i: usize = 0;
    assert(items.deep_view() =~= Seq::<T::V>::empty());
    while i < n
        invariant
            i <= n,
            items@.len() == i,
            reader.data == old(reader).data,
            start == old(reader).pos,
            spec_repeat::<T>(reader.data@, start as int, i as nat) == Ok::<
                (Seq<T::V>, int),
                ErrorKind,
            >((items.deep_view(), reader.pos as int)),
        decreases n - i,
    {
        let ghost before = items.deep_view();
        match T::decode(reader) {
            Ok(x) => {
                items.push(x);
                assert(items.deep_view() =~= before.push(x.deep_view()));
            },
            Err(e) => {
                proof {
                    lemma_repeat_error_stays::<T>(
                        reader.data@,
                        start as int,
                        (i + 1) as nat,
                        n as nat,
                    );
                }
                reader.pos = start;
                return Err(e);
            },
        }
        i += 1;
    }
    Ok(items)
}

/// Reads a count and then that many items.
pub fn read_tarray<T: Decode>(reader: &mut ByteReader) -> (r: Result<Vec<T>, ParserError>)
    ensures
        reads(
            *old(reader),
            *final(reader),
            r,
            spec_tarray::<T>(old(reader).data@, old(reader).pos as int),
        ),
{
    let start: usize = reader.pos;
    let count: i32 = reader.read_i32_le()?;
    if count < 0 {
        reader.pos = start;
        return Err(ParserError::of_kind(ErrorKind::CorruptManifest));
    }
    match read_sized_tarray::<T>(reader, count as usize) {
        Ok(items) => Ok(items),
        Err(e) => {
            reader.pos = start;
            Err(e)
        },
    }
}

} // verus!
