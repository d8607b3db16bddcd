//! The typed-array decoder: reads a data chunk's payload as a homogeneous
//! array of one elementary type. The payload carries a 16-byte prefix (the
//! u64 length at the chunk head plus an inner 8-byte header); numeric
//! elements follow little-endian, and string payloads hold null-separated
//! UTF-8 strings.
use vstd::prelude::*;
use vstd::arithmetic::div_mod::{lemma_fundamental_div_mod, lemma_mod_multiples_basic};
use vstd::utf8::{decode_utf8, valid_utf8};
use crate::chunks::DataChunk;
use crate::endian::{
    i16_from_bits, i32_from_bits, i64_from_bits, i8_from_bits, spec_i16_v, spec_i32_v, spec_i64_v,
    spec_i8_v, spec_u16_at, spec_u32_at, spec_u64_at,
};
use crate::error::{OgawaError, ParsingError};
use crate::pod::{DataType, PodArray, PodType};
use crate::reader::ByteReader;
use crate::text::{spec_nul_split, split_nul_strings};

verus! {

/// The number of stored scalars in a payload of `size` bytes whose scalars
/// are `w` bytes wide.
pub open spec fn spec_count(size: u64, w: u64) -> int {
    if size == 0 {
        0
    } else {
        (size - 16) / (w as int)
    }
}

/// The null-separated segments of a string payload.
pub open spec fn spec_string_segs(bytes: Seq<u8>, position: u64, size: u64) -> Seq<Seq<u8>> {
    spec_nul_split(bytes.subrange(position + 24, position + 8 + size))
}

/// Why decoding a typed array from the chunk at `position` with payload
/// length `size` fails on these bytes — or `None` when it succeeds.
pub open spec fn spec_pod_array_err(
    bytes: Seq<u8>,
    position: u64,
    size: u64,
    dt: DataType,
) -> Option<OgawaError> {
    let p = dt.pod_type;
    if p == PodType::Boolean || p == PodType::WString || p == PodType::Unknown {
        Some(OgawaError::ParsingError(ParsingError::UnsupportedAlembicFile))
    } else if size < 16 && size != 0 {
        Some(OgawaError::ParsingError(ParsingError::InvalidAlembicFile))
    } else if size == 0 {
        None
    } else if p == PodType::String {
        if 16 + size > bytes.len() {
            Some(OgawaError::ParsingError(ParsingError::InvalidAlembicFile))
        } else if position + 24 + (size - 16) > bytes.len() {
            Some(OgawaError::IoError)
        } else if exists|i: int|
            0 <= i < spec_string_segs(bytes, position, size).len() && !valid_utf8(
                spec_string_segs(bytes, position, size)[i],
            ) {
            Some(OgawaError::ParsingError(ParsingError::FromUtf8Error))
        } else {
            None
        }
    } else {
        if (size - 16) % (p.spec_byte_size() * dt.extent) != 0 {
            Some(OgawaError::ParsingError(ParsingError::InvalidAlembicFile))
        } else if position + 24 + (size - 16) > bytes.len() {
            Some(OgawaError::IoError)
        } else {
            None
        }
    }
}

/// What a successfully decoded typed array holds: the variant matching the
/// elementary type, filled with the little-endian scalars (bit patterns, for
/// the floating-point types) or the decoded strings of the payload.
pub open spec fn spec_pod_array_value(
    bytes: Seq<u8>,
    position: u64,
    size: u64,
    dt: DataType,
    arr: PodArray,
) -> bool {
    let start = position as int + 24;
    let p = dt.pod_type;
    let c = spec_count(size, p.spec_byte_size());
    match p {
        PodType::U8 => arr matches PodArray::U8(v) && v@.len() == c && (forall|i: int|
            0 <= i < c ==> v@[i] == bytes[start + i]),
        PodType::I8 => arr matches PodArray::I8(v) && v@.len() == c && (forall|i: int|
            0 <= i < c ==> v@[i] as int == spec_i8_v(bytes[start + i])),
        PodType::U16 => arr matches PodArray::U16(v) && v@.len() == c && (forall|i: int|
            0 <= i < c ==> v@[i] == spec_u16_at(bytes, start + 2 * i)),
        PodType::I16 => arr matches PodArray::I16(v) && v@.len() == c && (forall|i: int|
            0 <= i < c ==> v@[i] as int == spec_i16_v(spec_u16_at(bytes, start + 2 * i))),
        PodType::U32 => arr matches PodArray::U32(v) && v@.len() == c && (forall|i: int|
            0 <= i < c ==> v@[i] == spec_u32_at(bytes, start + 4 * i)),
        PodType::I32 => arr matches PodArray::I32(v) && v@.len() == c && (forall|i: int|
            0 <= i < c ==> v@[i] as int == spec_i32_v(spec_u32_at(bytes, start + 4 * i))),
        PodType::U64 => arr matches PodArray::U64(v) && v@.len() == c && (forall|i: int|
            0 <= i < c ==> v@[i] == spec_u64_at(bytes, start + 8 * i)),
        PodType::I64 => arr matches PodArray::I64(v) && v@.len() == c && (forall|i: int|
            0 <= i < c ==> v@[i] as int == spec_i64_v(spec_u64_at(bytes, start + 8 * i))),
        PodType::F16 => arr matches PodArray::F16(v) && v@.len() == c && (forall|i: int|
            0 <= i < c ==> v@[i] == spec_u16_at(bytes, start + 2 * i)),
        PodType::F32 => arr matches PodArray::F32(v) && v@.len() == c && (forall|i: int|
            0 <= i < c ==> v@[i] == spec_u32_at(bytes, start + 4 * i)),
        PodType::F64 => arr matches PodArray::F64(v) && v@.len() == c && (forall|i: int|
            0 <= i < c ==> v@[i] == spec_u64_at(bytes, start + 8 * i)),
        PodType::String => arr matches PodArray::String(v) && (if size == 0 {
            v@.len() == 0
        } else {
            let segs = spec_string_segs(bytes, position, size);
            v@.len() == segs.len() && (forall|i: int|
                0 <= i < segs.len() ==> v@[i]@ == decode_utf8(segs[i]))
        }),
        _ => false,
    }
}

/// A length that divides evenly into strided elements also divides evenly
/// into scalars: this grounds the array-size divisibility rule.
pub proof fn lemma_stride_mod(a: int, w: int, e: int)
    requires
        a >= 0,
        w >= 1,
        e >= 1,
        a % (w * e) == 0,
    ensures
        a % w == 0,
        w * (a / w) == a,
{
    assert(w * e >= 1) by (nonlinear_arith)
        requires
            w >= 1,
            e >= 1,
    ;
    let q = a / (w * e);
    lemma_fundamental_div_mod(a, w * e);
    assert(a == (w * e) * q);
    assert((w * e) * q == (e * q) * w) by (nonlinear_arith);
    lemma_mod_multiples_basic(e * q, w);
    lemma_fundamental_div_mod(a, w);
}

/// The array-size divisibility law: every numeric typed-array payload that
/// decodes successfully has an element region that divides evenly into whole
/// logical elements of `sizeof(pod) * extent` bytes.
pub proof fn lemma_array_size_divisible(bytes: Seq<u8>, position: u64, size: u64, dt: DataType)
    requires
        dt.wf(),
        dt.pod_type.spec_byte_size() != 0,
        spec_pod_array_err(bytes, position, size, dt) is None,
        size != 0,
    ensures
        size >= 16,
        (size - 16) as int % (dt.pod_type.spec_byte_size() * dt.extent) as int == 0,
{
}

fn read_u16s(reader: &ByteReader, start: u64, count: u64) -> (r: Vec<u16>)
    requires
        start + 2 * count <= reader@.len(),
    ensures
        r@ == Seq::new(count as nat, |i: int| spec_u16_at(reader@, start + 2 * i)),
{
    let _sz = reader.size();
    let mut out: Vec<u16> = Vec::new();
    let mut i: u64 = 0;
    while i < count
        invariant
            i <= count,
            start + 2 * count <= reader@.len(),
            reader@.len() <= u64::MAX,
            out@ == Seq::new(i as nat, |j: int| spec_u16_at(reader@, start + 2 * j)),
        decreases count - i,
    {
        let v = match reader.read_u16_at(start + 2 * i) {
            Ok(v) => v,
            Err(_) => {
                proof {
                    assert(false);
                }
                0
            },
        };
        out.push(v);
        i = i + 1;
        proof {
            assert(out@ =~= Seq::new(i as nat, |j: int| spec_u16_at(reader@, start + 2 * j)));
        }
    }
    out
}

fn read_u32s(reader: &ByteReader, start: u64, count: u64) -> (r: Vec<u32>)
    requires
        start + 4 * count <= reader@.len(),
    ensures
        r@ == Seq::new(count as nat, |i: int| spec_u32_at(reader@, start + 4 * i)),
{
    let _sz = reader.size();
    let mut out: Vec<u32> = Vec::new();
    let mut i: u64 = 0;
    while i < count
        invariant
            i <= count,
            start + 4 * count <= reader@.len(),
            reader@.len() <= u64::MAX,
            out@ == Seq::new(i as nat, |j: int| spec_u32_at(reader@, start + 4 * j)),
        decreases count - i,
    {
        let v = match reader.read_u32_at(start + 4 * i) {
            Ok(v) => v,
            Err(_) => {
                proof {
                    assert(false);
                }
                0
            },
        };
        out.push(v);
        i = i + 1;
        proof {
            assert(out@ =~= Seq::new(i as nat, |j: int| spec_u32_at(reader@, start + 4 * j)));
        }
    }
    out
}

fn read_u64s(reader: &ByteReader, start: u64, count: u64) -> (r: Vec<u64>)
    requires
        start + 8 * count <= reader@.len(),
    ensures
        r@ == Seq::new(count as nat, |i: int| spec_u64_at(reader@, start + 8 * i)),
{
    let _sz = reader.size();
    let mut out: Vec<u64> = Vec::new();
    let mut i: u64 = 0;
    while i < count
        invariant
            i <= count,
            start + 8 * count <= reader@.len(),
            reader@.len() <= u64::MAX,
            out@ == Seq::new(i as nat, |j: int| spec_u64_at(reader@, start + 8 * j)),
        decreases count - i,
    {
        let v = match reader.read_u64_at(start + 8 * i) {
            Ok(v) => v,
            Err(_) => {
                proof {
                    assert(false);
                }
                0
            },
        };
        out.push(v);
        i = i + 1;
        proof {
            assert(out@ =~= Seq::new(i as nat, |j: int| spec_u64_at(reader@, start + 8 * j)));
        }
    }
    out
}

fn map_i8(v: Vec<u8>) -> (r: Vec<i8>)
    ensures
        r@.len() == v@.len(),
        forall|i: int| 0 <= i < v@.len() ==> r@[i] as int == spec_i8_v(v@[i]),
{
    let mut out: Vec<i8> = Vec::new();
    let mut i: usize = 0;
    let n = v.len();
    while i < n
        invariant
            i <= n,
            n == v@.len(),
            out@.len() == i,
            forall|j: int| 0 <= j < i ==> out@[j] as int == spec_i8_v(v@[j]),
        decreases n - i,
    {
        out.push(i8_from_bits(v[i]));
        i = i + 1;
    }
    out
}

fn map_i16(v: Vec<u16>) -> (r: Vec<i16>)
    ensures
        r@.len() == v@.len(),
        forall|i: int| 0 <= i < v@.len() ==> r@[i] as int == spec_i16_v(v@[i]),
{
    let mut out: Vec<i16> = Vec::new();
    let mut i: usize = 0;
    let n = v.len();
    while i < n
        invariant
            i <= n,
            n == v@.len(),
            out@.len() == i,
            forall|j: int| 0 <= j < i ==> out@[j] as int == spec_i16_v(v@[j]),
        decreases n - i,
    {
        out.push(i16_from_bits(v[i]));
        i = i + 1;
    }
    out
}

fn map_i32(v: Vec<u32>) -> (r: Vec<i32>)
    ensures
        r@.len() == v@.len(),
        forall|i: int| 0 <= i < v@.len() ==> r@[i] as int == spec_i32_v(v@[i]),
{
    let mut out: Vec<i32> = Vec::new();
    let mut i: usize = 0;
    let n = v.len();
    while i < n
        invariant
            i <= n,
            n == v@.len(),
            out@.len() == i,
            forall|j: int| 0 <= j < i ==> out@[j] as int == spec_i32_v(v@[j]),
        decreases n - i,
    {
        out.push(i32_from_bits(v[i]));
        i = i + 1;
    }
    out
}

fn map_i64(v: Vec<u64>) -> (r: Vec<i64>)
    ensures
        r@.len() == v@.len(),
        forall|i: int| 0 <= i < v@.len() ==> r@[i] as int == spec_i64_v(v@[i]),
{
    let mut out: Vec<i64> = Vec::new();
    let mut i: usize = 0;
    let n = v.len();
    while i < n
        invariant
            i <= n,
            n == v@.len(),
            out@.len() == i,
            forall|j: int| 0 <= j < i ==> out@[j] as int == spec_i64_v(v@[j]),
        decreases n - i,
    {
        out.push(i64_from_bits(v[i]));
        i = i + 1;
    }
    out
}

impl DataChunk {
    /// Decodes this chunk's payload as a homogeneous typed array of
    /// `data_type`. A payload shorter than its 16-byte prefix is malformed;
    /// a numeric payload whose element bytes do not divide evenly into
    /// whole logical elements (scalar width times extent) is malformed; the
    /// boolean, wide-string and unknown element types are unsupported; an
    /// empty chunk decodes to an empty array.
    pub fn read_pod_array(&self, data_type: &DataType, reader: &ByteReader) -> (r: Result<
        PodArray,
        OgawaError,
    >)
        requires
            data_type.wf(),
        ensures
            r is Ok <==> spec_pod_array_err(reader@, self.position, self.size, *data_type)
                is None,
            r is Err ==> spec_pod_array_err(reader@, self.position, self.size, *data_type)
                == Some(r->Err_0),
            r is Ok ==> spec_pod_array_value(
                reader@,
                self.position,
                self.size,
                *data_type,
                r->Ok_0,
            ),
    {
        let p = data_type.pod_type;
        match p {
            PodType::Boolean | PodType::WString | PodType::Unknown => {
                return Err(OgawaError::ParsingError(ParsingError::UnsupportedAlembicFile));
            },
            _ => {},
        }
        if self.size < 16 && self.size != 0 {
            return Err(OgawaError::ParsingError(ParsingError::InvalidAlembicFile));
        }
        if self.size == 0 {
            let empty: PodArray = match p {
                PodType::U8 => PodArray::U8(Vec::new()),
                PodType::I8 => PodArray::I8(Vec::new()),
                PodType::U16 => PodArray::U16(Vec::new()),
                PodType::I16 => PodArray::I16(Vec::new()),
                PodType::U32 => PodArray::U32(Vec::new()),
                PodType::I32 => PodArray::I32(Vec::new()),
                PodType::U64 => PodArray::U64(Vec::new()),
                PodType::I64 => PodArray::I64(Vec::new()),
                PodType::F16 => PodArray::F16(Vec::new()),
                PodType::F32 => PodArray::F32(Vec::new()),
                PodType::F64 => PodArray::F64(Vec::new()),
                _ => PodArray::String(Vec::new()),
            };
            return Ok(empty);
        }
        if matches!(p, PodType::String) {
            let char_count = self.size - 16;
            let buf = match self.read(16, char_count, reader) {
                Ok(b) => b,
                Err(e) => {
                    return Err(e);
                },
            };
            proof {
                assert(buf@ == reader@.subrange(
                    self.position + 24,
                    self.position + 8 + self.size,
                ));
            }
            proof {
                assert(spec_string_segs(reader@, self.position, self.size) == spec_nul_split(
                    buf@,
                ));
            }
            return match split_nul_strings(&buf) {
                Ok(strings) => {
                    proof {
                        let segs = spec_string_segs(reader@, self.position, self.size);
                        assert(!(exists|i: int|
                            0 <= i < segs.len() && !valid_utf8(segs[i])));
                    }
                    Ok(PodArray::String(strings))
                },
                Err(e) => {
                    proof {
                        let segs = spec_string_segs(reader@, self.position, self.size);
                        assert(exists|i: int| 0 <= i < segs.len() && !valid_utf8(segs[i]));
                    }
                    Err(e)
                },
            };
        }
        // numeric scalars
        let w = p.byte_size();
        let stride = w * (data_type.extent as u64);
        let a = self.size - 16;
        if a % stride != 0 {
            return Err(OgawaError::ParsingError(ParsingError::InvalidAlembicFile));
        }
        proof {
            lemma_stride_mod(a as int, w as int, data_type.extent as int);
        }
        let end: u128 = self.position as u128 + 24 + a as u128;
        if end > reader.size() as u128 {
            return Err(OgawaError::IoError);
        }
        let count = a / w;
        let start = self.position + 24;
        match p {
            PodType::U8 => {
                let v = match reader.read_exact_at(start, count) {
                    Ok(v) => v,
                    Err(_) => {
                        proof {
                            assert(false);
                        }
                        Vec::new()
                    },
                };
                proof {
                    assert(v@ =~= Seq::new(count as nat, |i: int| reader@[start + i]));
                }
                Ok(PodArray::U8(v))
            },
            PodType::I8 => {
                let v = match reader.read_exact_at(start, count) {
                    Ok(v) => v,
                    Err(_) => {
                        proof {
                            assert(false);
                        }
                        Vec::new()
                    },
                };
                proof {
                    assert(forall|i: int| 0 <= i < count ==> v@[i] == reader@[start + i]);
                }
                Ok(PodArray::I8(map_i8(v)))
            },
            PodType::U16 => Ok(PodArray::U16(read_u16s(reader, start, count))),
            PodType::I16 => Ok(PodArray::I16(map_i16(read_u16s(reader, start, count)))),
            PodType::U32 => Ok(PodArray::U32(read_u32s(reader, start, count))),
            PodType::I32 => Ok(PodArray::I32(map_i32(read_u32s(reader, start, count)))),
            PodType::U64 => Ok(PodArray::U64(read_u64s(reader, start, count))),
            PodType::I64 => Ok(PodArray::I64(map_i64(read_u64s(reader, start, count)))),
            PodType::F16 => Ok(PodArray::F16(read_u16s(reader, start, count))),
            PodType::F32 => Ok(PodArray::F32(read_u32s(reader, start, count))),
            PodType::F64 => Ok(PodArray::F64(read_u64s(reader, start, count))),
            _ => {
                proof {
                    assert(false);
                }
                Err(OgawaError::InternalError(crate::error::InternalError::Unreachable))
            },
        }
    }
}

} // verus!
