//! Typed sample extraction: loading an array or scalar property's sample
//! and narrowing it to the element type the schema declares, regrouping
//! flat scalars into fixed-width tuples where the extent calls for it.
use vstd::prelude::*;
use vstd::arithmetic::div_mod::{
    lemma_div_multiples_vanish, lemma_fundamental_div_mod, lemma_mod_multiples_basic,
};
use crate::chunks::GroupChunk;
use crate::endian::{spec_i32_v, spec_u32_at};
use crate::error::{InternalError, OgawaError};
use crate::pod::{chunk_vector_by_2, chunk_vector_by_3, DataType, PodArray, PodType};
use crate::property::{spec_load_sample_err, spec_sample_chunk, PropertyHeader};
use crate::reader::ByteReader;
use crate::typed_array::spec_count;

verus! {

/// A payload that divides evenly into whole logical elements divides evenly
/// into tuples of its extent.
proof fn lemma_count_div(a: int, w: int, e: int)
    requires
        a >= 0,
        w >= 1,
        e >= 1,
        a % (w * e) == 0,
    ensures
        (a / w) % e == 0,
{
    assert(w * e >= 1) by (nonlinear_arith)
        requires
            w >= 1,
            e >= 1,
    ;
    let q = a / (w * e);
    lemma_fundamental_div_mod(a, w * e);
    assert(a == (w * e) * q);
    assert((w * e) * q == w * (e * q)) by (nonlinear_arith);
    lemma_div_multiples_vanish(e * q, w);
    assert(a / w == e * q);
    assert(e * q == q * e) by (nonlinear_arith);
    lemma_mod_multiples_basic(q, e);
}

/// The sample chunk's position for a property's logical sample.
pub open spec fn spec_sample_at(
    g: GroupChunk,
    h: PropertyHeader,
    bytes: Seq<u8>,
    index: u32,
) -> Result<(u64, u64), OgawaError> {
    spec_sample_chunk(
        g,
        bytes,
        PropertyHeader::spec_map_index(h.first_changed_index, h.last_changed_index, index) as int,
    )
}

/// Loads a sample of an `(F32, 3)` array property as packed triples of
/// `f32` bit patterns.
pub(crate) fn load_f32x3_sample(
    g: &GroupChunk,
    h: &PropertyHeader,
    index: u32,
    reader: &ByteReader,
) -> (r: Result<Vec<[u32; 3]>, OgawaError>)
    requires
        g.wf(),
        h.wf(),
        h.data_type == (DataType { pod_type: PodType::F32, extent: 3 }),
    ensures
        r is Ok <==> spec_load_sample_err(*g, *h, reader@, index) is None,
        r is Err ==> spec_load_sample_err(*g, *h, reader@, index) == Some(r->Err_0),
        r is Ok ==> match spec_sample_at(*g, *h, reader@, index) {
            Ok((p, s)) => r->Ok_0@.len() * 3 == spec_count(s, 4) && forall|i: int, j: int|
                0 <= i < r->Ok_0@.len() && 0 <= j < 3 ==> r->Ok_0@[i]@[j] == spec_u32_at(
                    reader@,
                    p + 24 + 4 * (3 * i + j),
                ),
            Err(_) => false,
        },
{
    let arr = match crate::property::load_sample_impl(g, h, index, reader) {
        Ok(a) => a,
        Err(e) => {
            return Err(e);
        },
    };
    let v = match arr {
        PodArray::F32(v) => v,
        _ => {
            proof {
                assert(false);
            }
            return Err(OgawaError::InternalError(InternalError::Unreachable));
        },
    };
    proof {
        match spec_sample_at(*g, *h, reader@, index) {
            Ok((p, s)) => {
                if s != 0 {
                    lemma_count_div(s - 16, 4, 3);
                }
            },
            Err(_) => {
                assert(false);
            },
        }
    }
    match chunk_vector_by_3(v) {
        Ok(out) => Ok(out),
        Err(_) => {
            proof {
                assert(false);
            }
            Err(OgawaError::InternalError(InternalError::Unreachable))
        },
    }
}

/// Loads a sample of an `(F32, 2)` array property as packed pairs of `f32`
/// bit patterns.
pub(crate) fn load_f32x2_sample(
    g: &GroupChunk,
    h: &PropertyHeader,
    index: u32,
    reader: &ByteReader,
) -> (r: Result<Vec<[u32; 2]>, OgawaError>)
    requires
        g.wf(),
        h.wf(),
        h.data_type == (DataType { pod_type: PodType::F32, extent: 2 }),
    ensures
        r is Ok <==> spec_load_sample_err(*g, *h, reader@, index) is None,
        r is Err ==> spec_load_sample_err(*g, *h, reader@, index) == Some(r->Err_0),
        r is Ok ==> match spec_sample_at(*g, *h, reader@, index) {
            Ok((p, s)) => r->Ok_0@.len() * 2 == spec_count(s, 4) && forall|i: int, j: int|
                0 <= i < r->Ok_0@.len() && 0 <= j < 2 ==> r->Ok_0@[i]@[j] == spec_u32_at(
                    reader@,
                    p + 24 + 4 * (2 * i + j),
                ),
            Err(_) => false,
        },
{
    let arr = match crate::property::load_sample_impl(g, h, index, reader) {
        Ok(a) => a,
        Err(e) => {
            return Err(e);
        },
    };
    let v = match arr {
        PodArray::F32(v) => v,
        _ => {
            proof {
                assert(false);
            }
            return Err(OgawaError::InternalError(InternalError::Unreachable));
        },
    };
    proof {
        match spec_sample_at(*g, *h, reader@, index) {
            Ok((p, s)) => {
                if s != 0 {
                    lemma_count_div(s - 16, 4, 2);
                }
            },
            Err(_) => {
                assert(false);
            },
        }
    }
    match chunk_vector_by_2(v) {
        Ok(out) => Ok(out),
        Err(_) => {
            proof {
                assert(false);
            }
            Err(OgawaError::InternalError(InternalError::Unreachable))
        },
    }
}

/// Loads a sample of an `(F32, 1)` array property as `f32` bit patterns.
pub(crate) fn load_f32_sample(
    g: &GroupChunk,
    h: &PropertyHeader,
    index: u32,
    reader: &ByteReader,
) -> (r: Result<Vec<u32>, OgawaError>)
    requires
        g.wf(),
        h.wf(),
        h.data_type == (DataType { pod_type: PodType::F32, extent: 1 }),
    ensures
        r is Ok <==> spec_load_sample_err(*g, *h, reader@, index) is None,
        r is Err ==> spec_load_sample_err(*g, *h, reader@, index) == Some(r->Err_0),
        r is Ok ==> match spec_sample_at(*g, *h, reader@, index) {
            Ok((p, s)) => r->Ok_0@.len() == spec_count(s, 4) && forall|i: int|
                0 <= i < r->Ok_0@.len() ==> r->Ok_0@[i] == spec_u32_at(reader@, p + 24 + 4 * i),
            Err(_) => false,
        },
{
    let arr = match crate::property::load_sample_impl(g, h, index, reader) {
        Ok(a) => a,
        Err(e) => {
            return Err(e);
        },
    };
    match arr {
        PodArray::F32(v) => Ok(v),
        _ => {
            proof {
                assert(false);
            }
            Err(OgawaError::InternalError(InternalError::Unreachable))
        },
    }
}

/// Loads a sample of an `(I32, 1)` array property.
pub(crate) fn load_i32_sample(
    g: &GroupChunk,
    h: &PropertyHeader,
    index: u32,
    reader: &ByteReader,
) -> (r: Result<Vec<i32>, OgawaError>)
    requires
        g.wf(),
        h.wf(),
        h.data_type == (DataType { pod_type: PodType::I32, extent: 1 }),
    ensures
        r is Ok <==> spec_load_sample_err(*g, *h, reader@, index) is None,
        r is Err ==> spec_load_sample_err(*g, *h, reader@, index) == Some(r->Err_0),
        r is Ok ==> match spec_sample_at(*g, *h, reader@, index) {
            Ok((p, s)) => r->Ok_0@.len() == spec_count(s, 4) && forall|i: int|
                0 <= i < r->Ok_0@.len() ==> r->Ok_0@[i] as int == spec_i32_v(
                    spec_u32_at(reader@, p + 24 + 4 * i),
                ),
            Err(_) => false,
        },
{
    let arr = match crate::property::load_sample_impl(g, h, index, reader) {
        Ok(a) => a,
        Err(e) => {
            return Err(e);
        },
    };
    match arr {
        PodArray::I32(v) => Ok(v),
        _ => {
            proof {
                assert(false);
            }
            Err(OgawaError::InternalError(InternalError::Unreachable))
        },
    }
}

/// Loads a sample of a `(U8, 1)` array property.
pub(crate) fn load_u8_sample(
    g: &GroupChunk,
    h: &PropertyHeader,
    index: u32,
    reader: &ByteReader,
) -> (r: Result<Vec<u8>, OgawaError>)
    requires
        g.wf(),
        h.wf(),
        h.data_type == (DataType { pod_type: PodType::U8, extent: 1 }),
    ensures
        r is Ok <==> spec_load_sample_err(*g, *h, reader@, index) is None,
        r is Err ==> spec_load_sample_err(*g, *h, reader@, index) == Some(r->Err_0),
        r is Ok ==> match spec_sample_at(*g, *h, reader@, index) {
            Ok((p, s)) => r->Ok_0@.len() == spec_count(s, 1) && forall|i: int|
                0 <= i < r->Ok_0@.len() ==> r->Ok_0@[i] == reader@[p + 24 + i],
            Err(_) => false,
        },
{
    let arr = match crate::property::load_sample_impl(g, h, index, reader) {
        Ok(a) => a,
        Err(e) => {
            return Err(e);
        },
    };
    match arr {
        PodArray::U8(v) => Ok(v),
        _ => {
            proof {
                assert(false);
            }
            Err(OgawaError::InternalError(InternalError::Unreachable))
        },
    }
}

} // verus!
