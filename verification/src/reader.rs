//! The byte source: an in-memory, randomly addressable view of the archive's
//! bytes. Every decoding step is a pure function of this sequence, so a file
//! or a mapped region is handed over as one block of bytes.
use vstd::prelude::*;
use crate::endian::{le_u16_at, le_u32_at, le_u64_at, spec_u16_at, spec_u32_at, spec_u64_at};
use crate::error::OgawaError;

verus! {

/// A seekable byte source held in memory. Reads are by absolute position;
/// requests past the end fail with `IoError`.
pub struct ByteReader {
    data: Vec<u8>,
}

impl View for ByteReader {
    type V = Seq<u8>;

    closed spec fn view(&self) -> Seq<u8> {
        self.data@
    }
}

impl ByteReader {
    /// Wraps a block of bytes as a byte source.
    pub fn new(data: Vec<u8>) -> (r: ByteReader)
        ensures
            r@ == data@,
    {
        ByteReader { data }
    }

    /// Total size of the byte source.
    pub fn size(&self) -> (r: u64)
        ensures
            r == self@.len(),
    {
        self.data.len() as u64
    }

    /// Total size of the byte source, as a vector length.
    pub fn size_usize(&self) -> (r: usize)
        ensures
            r == self@.len(),
    {
        self.data.len()
    }

    /// Reads exactly `n` bytes starting at absolute position `pos`.
    pub fn read_exact_at(&self, pos: u64, n: u64) -> (r: Result<Vec<u8>, OgawaError>)
        ensures
            r is Ok <==> pos + n <= self@.len(),
            r is Ok ==> r->Ok_0@ == self@.subrange(pos as int, pos as int + n as int),
            r is Err ==> r->Err_0 == OgawaError::IoError,
    {
        let size = self.data.len() as u64;
        if pos > size || n > size - pos {
            return Err(OgawaError::IoError);
        }
        let len_us: usize = self.data.len();
        let mut out: Vec<u8> = Vec::new();
        let mut i: u64 = 0;
        while i < n
            invariant
                i <= n,
                pos + n <= self@.len(),
                self@.len() == len_us,
                out@ == self@.subrange(pos as int, pos as int + i as int),
            decreases n - i,
        {
            let idx: usize = (pos + i) as usize;
            out.push(self.data[idx]);
            i = i + 1;
            proof {
                assert(out@ =~= self@.subrange(pos as int, pos as int + i as int));
            }
        }
        Ok(out)
    }

    /// Reads the byte at absolute position `pos`.
    pub fn read_u8_at(&self, pos: u64) -> (r: Result<u8, OgawaError>)
        ensures
            r is Ok <==> pos + 1 <= self@.len(),
            r is Ok ==> r->Ok_0 == self@[pos as int],
            r is Err ==> r->Err_0 == OgawaError::IoError,
    {
        if pos >= self.data.len() as u64 {
            return Err(OgawaError::IoError);
        }
        Ok(self.data[pos as usize])
    }

    /// Reads the little-endian u16 at absolute position `pos`.
    pub fn read_u16_at(&self, pos: u64) -> (r: Result<u16, OgawaError>)
        ensures
            r is Ok <==> pos + 2 <= self@.len(),
            r is Ok ==> r->Ok_0 == spec_u16_at(self@, pos as int),
            r is Err ==> r->Err_0 == OgawaError::IoError,
    {
        let size = self.data.len() as u64;
        if pos > size || 2 > size - pos {
            return Err(OgawaError::IoError);
        }
        Ok(le_u16_at(&self.data, pos as usize))
    }

    /// Reads the little-endian u32 at absolute position `pos`.
    pub fn read_u32_at(&self, pos: u64) -> (r: Result<u32, OgawaError>)
        ensures
            r is Ok <==> pos + 4 <= self@.len(),
            r is Ok ==> r->Ok_0 == spec_u32_at(self@, pos as int),
            r is Err ==> r->Err_0 == OgawaError::IoError,
    {
        let size = self.data.len() as u64;
        if pos > size || 4 > size - pos {
            return Err(OgawaError::IoError);
        }
        Ok(le_u32_at(&self.data, pos as usize))
    }

    /// Reads the little-endian u64 at absolute position `pos`.
    pub fn read_u64_at(&self, pos: u64) -> (r: Result<u64, OgawaError>)
        ensures
            r is Ok <==> pos + 8 <= self@.len(),
            r is Ok ==> r->Ok_0 == spec_u64_at(self@, pos as int),
            r is Err ==> r->Err_0 == OgawaError::IoError,
    {
        let size = self.data.len() as u64;
        if pos > size || 8 > size - pos {
            return Err(OgawaError::IoError);
        }
        Ok(le_u64_at(&self.data, pos as usize))
    }
}

} // verus!
