//! The closed set of elementary (plain-old-data) element types a typed
//! property can carry, and the tagged typed vectors decoded from array
//! payloads. Floating-point elements are carried as their little-endian bit
//! patterns, so every variant holds plain integer or string data.
use vstd::prelude::*;
use crate::error::{InternalError, OgawaError, ParsingError};

verus! {

/// The elementary element types, identified on disk by a numeric tag:
/// Boolean(0), U8(1), I8(2), U16(3), I16(4), U32(5), I32(6), U64(7), I64(8),
/// F16(9), F32(10), F64(11), String(12), WString(13), Unknown(127).
#[derive(Debug, Clone, Copy, PartialEq, Eq, Structural)]
pub enum PodType {
    Boolean,
    U8,
    I8,
    U16,
    I16,
    U32,
    I32,
    U64,
    I64,
    F16,
    F32,
    F64,
    String,
    WString,
    Unknown,
}

impl PodType {
    /// The numeric tag this type carries on disk.
    pub open spec fn spec_tag(self) -> u32 {
        match self {
            PodType::Boolean => 0,
            PodType::U8 => 1,
            PodType::I8 => 2,
            PodType::U16 => 3,
            PodType::I16 => 4,
            PodType::U32 => 5,
            PodType::I32 => 6,
            PodType::U64 => 7,
            PodType::I64 => 8,
            PodType::F16 => 9,
            PodType::F32 => 10,
            PodType::F64 => 11,
            PodType::String => 12,
            PodType::WString => 13,
            PodType::Unknown => 127,
        }
    }

    pub fn tag(&self) -> (r: u32)
        ensures
            r == self.spec_tag(),
    {
        match self {
            PodType::Boolean => 0,
            PodType::U8 => 1,
            PodType::I8 => 2,
            PodType::U16 => 3,
            PodType::I16 => 4,
            PodType::U32 => 5,
            PodType::I32 => 6,
            PodType::U64 => 7,
            PodType::I64 => 8,
            PodType::F16 => 9,
            PodType::F32 => 10,
            PodType::F64 => 11,
            PodType::String => 12,
            PodType::WString => 13,
            PodType::Unknown => 127,
        }
    }

    /// The on-disk byte width of one scalar of a numeric type; zero for the
    /// non-numeric types (strings, booleans, unknown).
    pub open spec fn spec_byte_size(self) -> u64 {
        match self {
            PodType::U8 => 1,
            PodType::I8 => 1,
            PodType::U16 => 2,
            PodType::I16 => 2,
            PodType::U32 => 4,
            PodType::I32 => 4,
            PodType::U64 => 8,
            PodType::I64 => 8,
            PodType::F16 => 2,
            PodType::F32 => 4,
            PodType::F64 => 8,
            _ => 0,
        }
    }

    pub fn byte_size(&self) -> (r: u64)
        ensures
            r == self.spec_byte_size(),
    {
        match self {
            PodType::U8 => 1,
            PodType::I8 => 1,
            PodType::U16 => 2,
            PodType::I16 => 2,
            PodType::U32 => 4,
            PodType::I32 => 4,
            PodType::U64 => 8,
            PodType::I64 => 8,
            PodType::F16 => 2,
            PodType::F32 => 4,
            PodType::F64 => 8,
            _ => 0,
        }
    }

    /// Decodes a numeric tag. Every u32 yields either the member of the
    /// closed set carrying that tag, or the unsupported-archive error: the
    /// tags 0 through 13 and 127 are the whole set.
    pub fn try_from_u32(v: u32) -> (r: Result<PodType, OgawaError>)
        ensures
            r is Ok <==> (v <= 13 || v == 127),
            r is Ok ==> r->Ok_0.spec_tag() == v,
            r is Err ==> r->Err_0 == OgawaError::ParsingError(ParsingError::UnsupportedAlembicFile),
    {
        match v {
            0 => Ok(PodType::Boolean),
            1 => Ok(PodType::U8),
            2 => Ok(PodType::I8),
            3 => Ok(PodType::U16),
            4 => Ok(PodType::I16),
            5 => Ok(PodType::U32),
            6 => Ok(PodType::I32),
            7 => Ok(PodType::U64),
            8 => Ok(PodType::I64),
            9 => Ok(PodType::F16),
            10 => Ok(PodType::F32),
            11 => Ok(PodType::F64),
            12 => Ok(PodType::String),
            13 => Ok(PodType::WString),
            127 => Ok(PodType::Unknown),
            _ => Err(OgawaError::ParsingError(ParsingError::UnsupportedAlembicFile)),
        }
    }
}

/// The element type of a typed property: an elementary type and the tuple
/// width (`extent`) of one logical element.
#[derive(Debug, Clone, Copy, PartialEq, Eq, Structural)]
pub struct DataType {
    pub pod_type: PodType,
    pub extent: u8,
}

impl DataType {
    /// Every typed property carries an extent of at least 1.
    pub open spec fn wf(self) -> bool {
        self.extent >= 1
    }
}

/// A decoded homogeneous array, tagged by element type. The `F16`, `F32` and
/// `F64` variants hold the little-endian bit patterns of the stored
/// floating-point words.
#[derive(Debug, Clone, PartialEq, Eq)]
pub enum PodArray {
    Boolean(Vec<bool>),
    U8(Vec<u8>),
    I8(Vec<i8>),
    U16(Vec<u16>),
    I16(Vec<i16>),
    U32(Vec<u32>),
    I32(Vec<i32>),
    U64(Vec<u64>),
    I64(Vec<i64>),
    F16(Vec<u16>),
    F32(Vec<u32>),
    F64(Vec<u64>),
    String(Vec<String>),
    WString(Vec<String>),
}

/// Regroups a flat vector into consecutive pairs; fails unless the length
/// divides evenly.
pub fn chunk_vector_by_2<T: Copy>(vector: Vec<T>) -> (r: Result<Vec<[T; 2]>, InternalError>)
    ensures
        r is Ok <==> vector@.len() % 2 == 0,
        r is Err ==> r->Err_0 == InternalError::InvalidChunkBy,
        r is Ok ==> {
            &&& r->Ok_0@.len() * 2 == vector@.len()
            &&& forall|i: int, j: int|
                0 <= i < r->Ok_0@.len() && 0 <= j < 2 ==> r->Ok_0@[i]@[j] == vector@[2 * i + j]
        },
{
    if vector.len() % 2 != 0 {
        return Err(InternalError::InvalidChunkBy);
    }
    let n = vector.len() / 2;
    let mut out: Vec<[T; 2]> = Vec::new();
    let mut i: usize = 0;
    while i < n
        invariant
            i <= n,
            n * 2 == vector@.len(),
            vector@.len() <= usize::MAX,
            out@.len() == i,
            forall|k: int, j: int| 0 <= k < i && 0 <= j < 2 ==> out@[k]@[j] == vector@[2 * k + j],
        decreases n - i,
    {
        let chunk: [T; 2] = [vector[2 * i], vector[2 * i + 1]];
        out.push(chunk);
        i = i + 1;
    }
    Ok(out)
}

/// Regroups a flat vector into consecutive triples; fails unless the length
/// divides evenly.
pub fn chunk_vector_by_3<T: Copy>(vector: Vec<T>) -> (r: Result<Vec<[T; 3]>, InternalError>)
    ensures
        r is Ok <==> vector@.len() % 3 == 0,
        r is Err ==> r->Err_0 == InternalError::InvalidChunkBy,
        r is Ok ==> {
            &&& r->Ok_0@.len() * 3 == vector@.len()
            &&& forall|i: int, j: int|
                0 <= i < r->Ok_0@.len() && 0 <= j < 3 ==> r->Ok_0@[i]@[j] == vector@[3 * i + j]
        },
{
    if vector.len() % 3 != 0 {
        return Err(InternalError::InvalidChunkBy);
    }
    let n = vector.len() / 3;
    let mut out: Vec<[T; 3]> = Vec::new();
    let mut i: usize = 0;
    while i < n
        invariant
            i <= n,
            n * 3 == vector@.len(),
            vector@.len() <= usize::MAX,
            out@.len() == i,
            forall|k: int, j: int| 0 <= k < i && 0 <= j < 3 ==> out@[k]@[j] == vector@[3 * k + j],
        decreases n - i,
    {
        let chunk: [T; 3] = [vector[3 * i], vector[3 * i + 1], vector[3 * i + 2]];
        out.push(chunk);
        i = i + 1;
    }
    Ok(out)
}

/// Regroups a flat vector into consecutive quadruples; fails unless the
/// length divides evenly.
pub fn chunk_vector_by_4<T: Copy>(vector: Vec<T>) -> (r: Result<Vec<[T; 4]>, InternalError>)
    ensures
        r is Ok <==> vector@.len() % 4 == 0,
        r is Err ==> r->Err_0 == InternalError::InvalidChunkBy,
        r is Ok ==> {
            &&& r->Ok_0@.len() * 4 == vector@.len()
            &&& forall|i: int, j: int|
                0 <= i < r->Ok_0@.len() && 0 <= j < 4 ==> r->Ok_0@[i]@[j] == vector@[4 * i + j]
        },
{
    if vector.len() % 4 != 0 {
        return Err(InternalError::InvalidChunkBy);
    }
    let n = vector.len() / 4;
    let mut out: Vec<[T; 4]> = Vec::new();
    let mut i: usize = 0;
    while i < n
        invariant
            i <= n,
            n * 4 == vector@.len(),
            vector@.len() <= usize::MAX,
            out@.len() == i,
            forall|k: int, j: int| 0 <= k < i && 0 <= j < 4 ==> out@[k]@[j] == vector@[4 * k + j],
        decreases n - i,
    {
        let chunk: [T; 4] = [vector[4 * i], vector[4 * i + 1], vector[4 * i + 2], vector[4 * i
            + 3]];
        out.push(chunk);
        i = i + 1;
    }
    Ok(out)
}

} // verus!
