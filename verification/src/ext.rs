//! An extension point for readers of little-endian integers.

use crate::reader::{reads, spec_i32_le, ByteReader};
use crate::ParserError;
use vstd::prelude::*;

verus! {

/// A reader that can read a little-endian 32-bit integer.
pub trait ReaderExt {
    fn read_i32_le(&mut self) -> Result<i32, ParserError>;
}

impl ReaderExt for ByteReader {
    fn read_i32_le(&mut self) -> (r: Result<i32, ParserError>)
        ensures
            reads(*old(self), *final(self), r, spec_i32_le(old(self).data@, old(self).pos as int)),
    {
        ByteReader::read_i32_le(self)
    }
}

} // verus!
