//! Identifiers and digests: how they are read and how they are written.

use crate::reader::{has_bytes, reads, u32_le_at, ByteReader, Decode, Parsed};
use crate::text::{
    encode_upper, hex_bytes, hex_upper, hex_value_of, is_upper_hex, lemma_hex_bytes_shape,
    lemma_hex_upper_shape, lemma_parse_hex_of_hex_upper, parse_hex, pow16, push_hex,
};
use crate::{ErrorKind, ParserError};
use vstd::prelude::*;
use vstd::string::*;

verus! {

/// A 128-bit identifier in four 32-bit lanes.
#[derive(Debug, Clone, Copy, PartialEq, Eq, Hash, Structural)]
pub struct FGuid {
    pub a: u32,
    pub b: u32,
    pub c: u32,
    pub d: u32,
}

impl DeepView for FGuid {
    type V = FGuid;

    open spec fn deep_view(&self) -> FGuid {
        *self
    }
}

/// The identifier that the sixteen bytes at `pos` hold: four lanes, each
/// little-endian.
pub open spec fn guid_at(data: Seq<u8>, pos: int) -> FGuid {
    FGuid {
        a: u32_le_at(data, pos),
        b: u32_le_at(data, pos + 4),
        c: u32_le_at(data, pos + 8),
        d: u32_le_at(data, pos + 12),
    }
}

/// An identifier: sixteen bytes.
pub open spec fn spec_guid(data: Seq<u8>, pos: int) -> Parsed<FGuid> {
    if has_bytes(data, pos, 16) {
        Ok((guid_at(data, pos), pos + 16))
    } else {
        Err(ErrorKind::CorruptManifest)
    }
}

/// The identifier that thirty-two upper-case hexadecimal digits write, eight
/// for each lane; nothing for any other text.
pub open spec fn parse_guid(s: Seq<char>) -> Option<FGuid> {
    if s.len() != 32 {
        None
    } else {
        match (
            parse_hex(s.subrange(0, 8)),
            parse_hex(s.subrange(8, 16)),
            parse_hex(s.subrange(16, 24)),
            parse_hex(s.subrange(24, 32)),
        ) {
            (Some(a), Some(b), Some(c), Some(d)) => Some(
                FGuid { a: a as u32, b: b as u32, c: c as u32, d: d as u32 },
            ),
            _ => None,
        }
    }
}

/// Eight digits hold every 32-bit number.
pub proof fn lemma_pow16_eight()
    ensures
        pow16(8) == 0x1_0000_0000,
{
    reveal_with_fuel(pow16, 9);
}

/// A text of digits writes a number below sixteen to the power of its
/// length.
pub proof fn lemma_parse_hex_bound(s: Seq<char>)
    ensures
        parse_hex(s) matches Some(v) ==> v < pow16(s.len()),
    decreases s.len(),
{
    if s.len() > 0 {
        lemma_parse_hex_bound(s.drop_last());
    }
}

impl FGuid {
    /// The identifier as one number, the lane `a` highest.
    pub open spec fn key(self) -> u128 {
        (self.a as int * 0x1_0000_0000_0000_0000_0000_0000 + self.b as int * 0x1_0000_0000_0000_0000
            + self.c as int * 0x1_0000_0000 + self.d as int) as u128
    }

    /// The canonical text: each lane as eight upper-case hexadecimal digits.
    pub open spec fn text(self) -> Seq<char> {
        hex_upper(self.a as nat, 8) + hex_upper(self.b as nat, 8) + hex_upper(self.c as nat, 8)
            + hex_upper(self.d as nat, 8)
    }

    /// Reads an identifier: four little-endian 32-bit lanes.
    pub fn new(reader: &mut ByteReader) -> (r: Result<Self, ParserError>)
        ensures
            reads(*old(reader), *final(reader), r, spec_guid(old(reader).data@, old(reader).pos as int)),
    {
        if !reader.has(16) {
            return Err(ParserError::of_kind(ErrorKind::CorruptManifest));
        }
        let a: u32 = reader.read_u32_le()?;
        let b: u32 = reader.read_u32_le()?;
        let c: u32 = reader.read_u32_le()?;
        let d: u32 = reader.read_u32_le()?;
        Ok(FGuid { a, b, c, d })
    }

    /// The identifier as one number.
    pub fn to_key(&self) -> (k: u128)
        ensures
            k == self.key(),
    {
        self.a as u128 * 0x1_0000_0000_0000_0000_0000_0000 + self.b as u128
            * 0x1_0000_0000_0000_0000 + self.c as u128 * 0x1_0000_0000 + self.d as u128
    }

    /// The canonical text of the identifier.
    pub fn to_string(&self) -> (s: String)
        ensures
            s@ == self.text(),
            s@.len() == 32,
            forall|i: int| 0 <= i < 32 ==> is_upper_hex(#[trigger] s@[i]),
    {
        let mut s = String::new();
        push_hex(&mut s, self.a as u64, 8);
        push_hex(&mut s, self.b as u64, 8);
        push_hex(&mut s, self.c as u64, 8);
        push_hex(&mut s, self.d as u64, 8);
        proof {
            lemma_hex_upper_shape(self.a as nat, 8);
            lemma_hex_upper_shape(self.b as nat, 8);
            lemma_hex_upper_shape(self.c as nat, 8);
            lemma_hex_upper_shape(self.d as nat, 8);
            assert(s@ =~= self.text());
        }
        s
    }

    /// Reads an identifier back from its canonical text.
    pub fn parse(s: &str) -> (r: Option<Self>)
        ensures
            r == parse_guid(s@),
    {
        if s.unicode_len() != 32 {
            return None;
        }
        let a: u32 = parse_lane(s, 0)?;
        let b: u32 = parse_lane(s, 8)?;
        let c: u32 = parse_lane(s, 16)?;
        let d: u32 = parse_lane(s, 24)?;
        Some(FGuid { a, b, c, d })
    }
}

/// Reads the eight hexadecimal digits that start at `from`.
fn parse_lane(s: &str, from: usize) -> (r: Option<u32>)
    requires
        from <= 24,
        from + 8 <= s@.len(),
    ensures
        match r {
            Some(v) => parse_hex(s@.subrange(from as int, from + 8)) == Some(v as nat),
            None => parse_hex(s@.subrange(from as int, from + 8)) is None,
        },
{
    let mut acc: u64 = 0;
    let mut i: usize = 0;
    assert(s@.subrange(from as int, from as int) =~= Seq::<char>::empty());
    while i < 8
        invariant
            i <= 8,
            from <= 24,
            from + 8 <= s@.len(),
            parse_hex(s@.subrange(from as int, from + i)) == Some(acc as nat),
            acc < 0x1_0000_0000,
        decreases 8 - i,
    {
        let ghost prefix = s@.subrange(from as int, from + i);
        let ghost longer = s@.subrange(from as int, from + i + 1);
        proof {
            assert(longer.drop_last() =~= prefix);
            lemma_parse_hex_bound(prefix);
            lemma_parse_hex_bound(longer);
            lemma_pow16_monotone((i + 1) as nat, 8);
            lemma_pow16_eight();
        }
        match hex_value_of(s.get_char(from + i)) {
            Some(d) => {
                acc = acc * 16 + d as u64;
            },
            None => {
                proof {
                    lemma_parse_hex_none_stays(s@.subrange(from as int, from + 8), i + 1);
                    assert(s@.subrange(from as int, from + 8).subrange(0, i + 1) =~= longer);
                }
                return None;
            },
        }
        i += 1;
    }
    Some(acc as u32)
}

/// The powers of sixteen grow.
pub proof fn lemma_pow16_monotone(a: nat, b: nat)
    requires
        a <= b,
    ensures
        pow16(a) <= pow16(b),
    decreases b,
{
    if a < b {
        lemma_pow16_monotone(a, (b - 1) as nat);
    }
}

/// Where the first `n` characters are not all digits, the whole text is not.
pub proof fn lemma_parse_hex_none_stays(s: Seq<char>, n: int)
    requires
        0 <= n <= s.len(),
        parse_hex(s.subrange(0, n)) is None,
    ensures
        parse_hex(s) is None,
    decreases s.len(),
{
    if n < s.len() {
        assert(s.drop_last().subrange(0, n) =~= s.subrange(0, n));
        lemma_parse_hex_none_stays(s.drop_last(), n);
    } else {
        assert(s.subrange(0, n) =~= s);
    }
}

/// The text of an identifier reads back as the identifier.
pub proof fn lemma_guid_text_round_trip(g: FGuid)
    ensures
        parse_guid(g.text()) == Some(g),
{
    let t = g.text();
    lemma_hex_upper_shape(g.a as nat, 8);
    lemma_hex_upper_shape(g.b as nat, 8);
    lemma_hex_upper_shape(g.c as nat, 8);
    lemma_hex_upper_shape(g.d as nat, 8);
    lemma_pow16_eight();
    assert(t.subrange(0, 8) =~= hex_upper(g.a as nat, 8));
    assert(t.subrange(8, 16) =~= hex_upper(g.b as nat, 8));
    assert(t.subrange(16, 24) =~= hex_upper(g.c as nat, 8));
    assert(t.subrange(24, 32) =~= hex_upper(g.d as nat, 8));
    lemma_parse_hex_of_hex_upper(g.a as nat, 8);
    lemma_parse_hex_of_hex_upper(g.b as nat, 8);
    lemma_parse_hex_of_hex_upper(g.c as nat, 8);
    lemma_parse_hex_of_hex_upper(g.d as nat, 8);
}

/// The identifier with a given number.
pub open spec fn guid_of_key(key: u128) -> FGuid {
    let rest_c = key as int / 0x1_0000_0000;
    let rest_b = rest_c / 0x1_0000_0000;
    let rest_a = rest_b / 0x1_0000_0000;
    FGuid {
        a: rest_a as u32,
        b: (rest_b % 0x1_0000_0000) as u32,
        c: (rest_c % 0x1_0000_0000) as u32,
        d: (key as int % 0x1_0000_0000) as u32,
    }
}

/// Every number is the number of the identifier that it gives.
pub proof fn lemma_guid_of_key(key: u128)
    ensures
        guid_of_key(key).key() == key,
{
    let lane = 0x1_0000_0000int;
    let rest_c = key as int / lane;
    let rest_b = rest_c / lane;
    let rest_a = rest_b / lane;
    assert(key as int == lane * rest_c + key as int % lane);
    assert(rest_c == lane * rest_b + rest_c % lane);
    assert(rest_b == lane * rest_a + rest_b % lane);
    assert(0 <= rest_c < 0x1_0000_0000_0000_0000_0000_0000);
    assert(0 <= rest_b < 0x1_0000_0000_0000_0000);
    assert(0 <= rest_a < lane);
    let g = guid_of_key(key);
    assert(g.a as int == rest_a);
    assert(g.b as int == rest_b % lane);
    assert(g.c as int == rest_c % lane);
    assert(g.d as int == key as int % lane);
    assert(g.a as int * 0x1_0000_0000_0000_0000_0000_0000 + g.b as int * 0x1_0000_0000_0000_0000
        + g.c as int * lane + g.d as int == key as int) by {
        assert(lane * (lane * (lane * rest_a + rest_b % lane) + rest_c % lane) + key as int % lane
            == rest_a * 0x1_0000_0000_0000_0000_0000_0000 + (rest_b % lane)
            * 0x1_0000_0000_0000_0000 + (rest_c % lane) * lane + key as int % lane);
    }
}

/// Two identifiers with the same number are the same identifier.
pub proof fn lemma_key_injective(g: FGuid, h: FGuid)
    requires
        g.key() == h.key(),
    ensures
        g == h,
{
    let lane = 0x1_0000_0000int;
    let low = (g.a - h.a) * 0x1_0000_0000_0000_0000 + (g.b - h.b) * 0x1_0000_0000 + (g.c - h.c);
    assert(g.d - h.d == -lane * low);
    assert(low == 0) by {
        if low > 0 {
            assert(lane * low >= lane);
        } else if low < 0 {
            assert(lane * low <= -lane);
        }
    }
    let mid = (g.a - h.a) * 0x1_0000_0000 + (g.b - h.b);
    assert(g.c - h.c == -lane * mid);
    assert(mid == 0) by {
        if mid > 0 {
            assert(lane * mid >= lane);
        } else if mid < 0 {
            assert(lane * mid <= -lane);
        }
    }
    let high = g.a - h.a;
    assert(g.b - h.b == -lane * high);
    assert(high == 0) by {
        if high > 0 {
            assert(lane * high >= lane);
        } else if high < 0 {
            assert(lane * high <= -lane);
        }
    }
}

impl Decode for FGuid {
    open spec fn parse(data: Seq<u8>, pos: int) -> Parsed<FGuid> {
        spec_guid(data, pos)
    }

    fn decode(reader: &mut ByteReader) -> (r: Result<Self, ParserError>) {
        FGuid::new(reader)
    }
}

/// A SHA-1 digest: twenty raw bytes.
#[derive(Debug)]
pub struct ChunkSha {
    pub data: [u8; 20],
}

impl DeepView for ChunkSha {
    type V = Seq<u8>;

    open spec fn deep_view(&self) -> Seq<u8> {
        self.data@
    }
}

/// A digest: twenty bytes.
pub open spec fn spec_sha(data: Seq<u8>, pos: int) -> Parsed<Seq<u8>> {
    if has_bytes(data, pos, 20) {
        Ok((data.subrange(pos, pos + 20), pos + 20))
    } else {
        Err(ErrorKind::CorruptManifest)
    }
}

impl ChunkSha {
    /// Reads a digest: twenty raw bytes.
    pub fn new(reader: &mut ByteReader) -> (r: Result<Self, ParserError>)
        ensures
            reads(*old(reader), *final(reader), r, spec_sha(old(reader).data@, old(reader).pos as int)),
    {
        if !reader.has(20) {
            return Err(ParserError::of_kind(ErrorKind::CorruptManifest));
        }
        let mut data: [u8; 20] = [0u8; 20];
        let start: usize = reader.pos;
        let mut i: usize = 0;
        while i < 20
            invariant
                i <= 20,
                start + 20 <= reader.data@.len(),
                start + 20 <= usize::MAX,
                forall|j: int| 0 <= j < i ==> data@[j] == reader.data@[start + j],
            decreases 20 - i,
        {
            data[i] = reader.data[start + i];
            i += 1;
        }
        reader.pos = start + 20;
        assert(data@ =~= reader.data@.subrange(start as int, start + 20));
        Ok(ChunkSha { data })
    }

    /// The canonical text: forty upper-case hexadecimal digits.
    pub fn to_string(&self) -> (s: String)
        ensures
            s@ == hex_bytes(self.data@),
            s@.len() == 40,
            forall|i: int| 0 <= i < 40 ==> is_upper_hex(#[trigger] s@[i]),
    {
        proof {
            lemma_hex_bytes_shape(self.data@);
        }
        encode_upper(self.data.as_slice())
    }
}

impl Decode for ChunkSha {
    open spec fn parse(data: Seq<u8>, pos: int) -> Parsed<Seq<u8>> {
        spec_sha(data, pos)
    }

    fn decode(reader: &mut ByteReader) -> (r: Result<Self, ParserError>) {
        ChunkSha::new(reader)
    }
}

} // verus!
