//! Compound properties: the property-header block decoder and the reader
//! that enumerates and loads a compound's sub-properties.
use vstd::prelude::*;
use vstd::utf8::{decode_utf8, valid_utf8};
use crate::chunks::{
    is_data, spec_address_from_child, spec_data_load_ok, spec_group_fields, spec_group_load_ok,
    spec_is_data, spec_is_group, ChildSlot, DataChunk, GroupChunk,
};
use crate::endian::{le_u32_at, spec_u16_at, spec_u32_at, spec_u64_at};
use crate::error::{InternalError, OgawaError, ParsingError, UserError};
use crate::metadata::{spec_table_models, MetaData};
use crate::pod::{DataType, PodType};
use crate::property::{
    ArrayPropertyReader, HeaderModel, PropertyHeader, PropertyType, ScalarPropertyReader,
};
use crate::reader::ByteReader;
use crate::text::{copy_range, string_from_utf8};
use crate::time_sampling::TimeSampling;

verus! {

/// The byte width selected by a header's size hint: u8, u16 or u32.
pub open spec fn spec_hint_size(hint: u32) -> int {
    if hint == 0 {
        1
    } else if hint == 1 {
        2
    } else {
        4
    }
}

/// The hint-width unsigned value at `pos`, widened to u32.
pub open spec fn spec_u_hint(b: Seq<u8>, pos: int, hint: u32) -> u32 {
    if hint == 0 {
        b[pos] as u32
    } else if hint == 1 {
        spec_u16_at(b, pos) as u32
    } else {
        spec_u32_at(b, pos)
    }
}

/// The elementary type carrying a numeric tag.
pub open spec fn spec_pod_from_tag(v: u32) -> PodType {
    if v == 0 {
        PodType::Boolean
    } else if v == 1 {
        PodType::U8
    } else if v == 2 {
        PodType::I8
    } else if v == 3 {
        PodType::U16
    } else if v == 4 {
        PodType::I16
    } else if v == 5 {
        PodType::U32
    } else if v == 6 {
        PodType::I32
    } else if v == 7 {
        PodType::U64
    } else if v == 8 {
        PodType::I64
    } else if v == 9 {
        PodType::F16
    } else if v == 10 {
        PodType::F32
    } else if v == 11 {
        PodType::F64
    } else if v == 12 {
        PodType::String
    } else if v == 13 {
        PodType::WString
    } else {
        PodType::Unknown
    }
}

/// A type's tag decodes back to the type.
pub proof fn lemma_pod_tag_inverse(p: PodType)
    ensures
        spec_pod_from_tag(p.spec_tag()) == p,
{
    match p {
        PodType::Boolean => {},
        PodType::U8 => {},
        PodType::I8 => {},
        PodType::U16 => {},
        PodType::I16 => {},
        PodType::U32 => {},
        PodType::I32 => {},
        PodType::U64 => {},
        PodType::I64 => {},
        PodType::F16 => {},
        PodType::F32 => {},
        PodType::F64 => {},
        PodType::String => {},
        PodType::WString => {},
        PodType::Unknown => {},
    }
}

/// Parses the name and metadata that close a property header, completing the
/// model whose earlier fields are given. At `p`: a hint-width name size and
/// the UTF-8 name; then, when the info word's metadata index is 0xff, a
/// hint-width metadata size and the inline serialised metadata (absent when
/// the block ends right after the size); otherwise the metadata index refers
/// into the archive's table.
pub open spec fn spec_name_meta(
    b: Seq<u8>,
    p: int,
    hint: u32,
    info: u32,
    imeta: Seq<Map<Seq<char>, Seq<char>>>,
) -> Result<((Seq<char>, Map<Seq<char>, Seq<char>>), int), OgawaError> {
    let hs = spec_hint_size(hint);
    if p + hs > b.len() {
        Err(OgawaError::IoError)
    } else {
        let name_size = spec_u_hint(b, p, hint) as int;
        let p2 = p + hs;
        if p2 + name_size > b.len() {
            Err(OgawaError::IoError)
        } else if !valid_utf8(b.subrange(p2, p2 + name_size)) {
            Err(OgawaError::ParsingError(ParsingError::FromUtf8Error))
        } else {
            let name = decode_utf8(b.subrange(p2, p2 + name_size));
            let p3 = p2 + name_size;
            let mindex = (info >> 20) & 0xff;
            if mindex == 0xff {
                if p3 + hs > b.len() {
                    Err(OgawaError::IoError)
                } else {
                    let msize = spec_u_hint(b, p3, hint) as int;
                    let p4 = p3 + hs;
                    if p4 == b.len() {
                        Ok(((name, Map::<Seq<char>, Seq<char>>::empty()), p4))
                    } else if p4 + msize > b.len() {
                        Err(OgawaError::IoError)
                    } else if !valid_utf8(b.subrange(p4, p4 + msize)) {
                        Err(OgawaError::ParsingError(ParsingError::FromUtf8Error))
                    } else {
                        Ok(
                            (
                                (
                                    name,
                                    crate::metadata::spec_meta_of_bytes(b.subrange(p4, p4 + msize)),
                                ),
                                p4 + msize,
                            ),
                        )
                    }
                }
            } else if mindex < imeta.len() {
                Ok(((name, imeta[mindex as int]), p3))
            } else {
                Err(OgawaError::ParsingError(ParsingError::InvalidAlembicFile))
            }
        }
    }
}

/// Parses a non-compound header's leading fields after the info word: the
/// hint-width next-sample index; the changed range (explicit when bit 9 is
/// set, all-constant when bit 11 is set, else the full range); and the
/// optional hint-width time-sampling index, which must refer into the
/// archive's table. The changed range must be the all-constant marker or
/// satisfy `first <= last < next`. Yields
/// `((data type, homogeneous, next, first, last, tsi), position past them)`.
pub open spec fn spec_header_front(b: Seq<u8>, pos: int, hint: u32, info: u32, n_ts: int) -> Result<
    ((DataType, bool, u32, u32, u32, u32), int),
    OgawaError,
> {
    let hs = spec_hint_size(hint);
    let pod_bits = (info >> 4) & 0xf;
    if pod_bits > 13 {
        Err(OgawaError::ParsingError(ParsingError::UnsupportedAlembicFile))
    } else {
        let extent = ((info >> 12) & 0xff) as u8;
        if extent == 0 {
            Err(OgawaError::ParsingError(ParsingError::InvalidAlembicFile))
        } else {
            let dt = DataType { pod_type: spec_pod_from_tag(pod_bits), extent };
            let homog = info & 0x400 != 0;
            if pos + hs > b.len() {
                Err(OgawaError::IoError)
            } else {
                let next = spec_u_hint(b, pos, hint);
                let p1 = pos + hs;
                let ranged = if info & 0x200 != 0 {
                    if p1 + 2 * hs > b.len() {
                        Err::<((u32, u32), int), OgawaError>(OgawaError::IoError)
                    } else {
                        Ok(((spec_u_hint(b, p1, hint), spec_u_hint(b, p1 + hs, hint)), p1 + 2 * hs))
                    }
                } else if info & 0x800 != 0 {
                    Ok(((0u32, 0u32), p1))
                } else {
                    Ok(
                        ((0u32, if next == 0 {
                            0u32
                        } else {
                            (next - 1) as u32
                        }), p1),
                    )
                };
                match ranged {
                    Err(e) => Err(e),
                    Ok(((first, last), p2)) => {
                        if !((first == 0 && last == 0) || (first <= last && last < next)) {
                            Err(OgawaError::ParsingError(ParsingError::InvalidAlembicFile))
                        } else if info & 0x100 != 0 {
                            if p2 + hs > b.len() {
                                Err(OgawaError::IoError)
                            } else {
                                let tsi = spec_u_hint(b, p2, hint);
                                if tsi >= n_ts {
                                    Err(OgawaError::ParsingError(ParsingError::InvalidAlembicFile))
                                } else {
                                    Ok(((dt, homog, next, first, last, tsi), p2 + hs))
                                }
                            }
                        } else {
                            if n_ts <= 0 {
                                Err(OgawaError::ParsingError(ParsingError::InvalidAlembicFile))
                            } else {
                                Ok(((dt, homog, next, first, last, 0u32), p2))
                            }
                        }
                    },
                }
            }
        }
    }
}

/// Parses one property header at `pos`: the u32 info word, then for a
/// non-compound property the leading sample fields, then name and metadata.
/// Yields the header's model and the position just past it.
pub open spec fn spec_header_step(
    b: Seq<u8>,
    pos: int,
    imeta: Seq<Map<Seq<char>, Seq<char>>>,
    n_ts: int,
) -> Result<(HeaderModel, int), OgawaError> {
    if pos + 4 > b.len() {
        Err(OgawaError::IoError)
    } else {
        let info = spec_u32_at(b, pos);
        let ptype_bits = info & 3;
        let sl = info & 1 != 0;
        let ptype = if ptype_bits == 0 {
            PropertyType::Compound
        } else if ptype_bits == 1 {
            PropertyType::Scalar
        } else {
            PropertyType::Array
        };
        let hint = (info >> 2) & 3;
        if hint == 3 {
            Err(OgawaError::InternalError(InternalError::Unreachable))
        } else if ptype == PropertyType::Compound {
            match spec_name_meta(b, pos + 4, hint, info, imeta) {
                Ok(((name, meta), end)) => Ok(
                    (
                        (
                            (name, ptype, meta),
                            (DataType { pod_type: PodType::Unknown, extent: 0 }, sl, false),
                            (0u32, 0u32, 0u32, 0u32),
                        ),
                        end,
                    ),
                ),
                Err(e) => Err(e),
            }
        } else {
            match spec_header_front(b, pos + 4, hint, info, n_ts) {
                Err(e) => Err(e),
                Ok(((dt, homog, next, first, last, tsi), p)) => match spec_name_meta(
                    b,
                    p,
                    hint,
                    info,
                    imeta,
                ) {
                    Ok(((name, meta), end)) => Ok(
                        (((name, ptype, meta), (dt, sl, homog), (next, first, last, tsi)), end),
                    ),
                    Err(e) => Err(e),
                },
            }
        }
    }
}

/// Parses a non-compound header's leading fields after the info word.
#[verifier::rlimit(100)]
#[verifier::spinoff_prover]
fn read_header_front(buf: &Vec<u8>, pos: usize, hint: u32, info: u32, n_ts: usize) -> (r: Result<
    ((DataType, bool, u32, u32, u32, u32), usize),
    OgawaError,
>)
    requires
        hint <= 2,
        pos <= buf@.len(),
    ensures
        match spec_header_front(buf@, pos as int, hint, info, n_ts as int) {
            Ok((fields, p)) => r is Ok && r->Ok_0.0 == fields && r->Ok_0.1 == p && pos
                <= r->Ok_0.1 <= buf@.len(),
            Err(e) => r is Err && r->Err_0 == e,
        },
{
    let n = buf.len();
    let hs: usize = if hint == 0 {
        1
    } else if hint == 1 {
        2
    } else {
        4
    };
    let pod_bits = (info >> 4) & 0xf;
    if pod_bits > 13 {
        return Err(OgawaError::ParsingError(ParsingError::UnsupportedAlembicFile));
    }
    let pod_type = match PodType::try_from_u32(pod_bits) {
        Ok(t) => t,
        Err(_) => {
            proof {
                assert(false);
            }
            PodType::Unknown
        },
    };
    proof {
        lemma_pod_tag_inverse(pod_type);
    }
    let extent = ((info >> 12) & 0xff) as u8;
    if extent == 0 {
        return Err(OgawaError::ParsingError(ParsingError::InvalidAlembicFile));
    }
    let dt = DataType { pod_type, extent };
    let homog = info & 0x400 != 0;
    let next = match read_u_hint(buf, pos, hint) {
        Ok(v) => v,
        Err(e) => {
            return Err(e);
        },
    };
    let p1 = pos + hs;
    let mut first: u32 = 0;
    let mut last: u32 = 0;
    let mut p2 = p1;
    if info & 0x200 != 0 {
        if n - p1 < hs || n - (p1 + hs) < hs {
            return Err(OgawaError::IoError);
        }
        first = match read_u_hint(buf, p1, hint) {
            Ok(v) => v,
            Err(_) => {
                proof {
                    assert(false);
                }
                0
            },
        };
        last = match read_u_hint(buf, p1 + hs, hint) {
            Ok(v) => v,
            Err(_) => {
                proof {
                    assert(false);
                }
                0
            },
        };
        p2 = p1 + 2 * hs;
    } else if info & 0x800 != 0 {
        first = 0;
        last = 0;
    } else {
        first = 0;
        last = if next == 0 {
            0
        } else {
            next - 1
        };
    }
    if !((first == 0 && last == 0) || (first <= last && last < next)) {
        return Err(OgawaError::ParsingError(ParsingError::InvalidAlembicFile));
    }
    if info & 0x100 != 0 {
        let tsi = match read_u_hint(buf, p2, hint) {
            Ok(v) => v,
            Err(e) => {
                return Err(e);
            },
        };
        if tsi as usize >= n_ts {
            return Err(OgawaError::ParsingError(ParsingError::InvalidAlembicFile));
        }
        Ok(((dt, homog, next, first, last, tsi), p2 + hs))
    } else {
        if n_ts == 0 {
            return Err(OgawaError::ParsingError(ParsingError::InvalidAlembicFile));
        }
        Ok(((dt, homog, next, first, last, 0), p2))
    }
}

/// Parses one property header at `pos` of the block buffer.
fn read_one_property_header(
    buf: &Vec<u8>,
    pos: usize,
    imeta: &Vec<MetaData>,
    n_ts: usize,
) -> (r: Result<(PropertyHeader, usize), OgawaError>)
    requires
        pos <= buf@.len(),
        forall|i: int| 0 <= i < imeta@.len() ==> (#[trigger] imeta@[i]).wf(),
    ensures
        match spec_header_step(buf@, pos as int, spec_table_models(imeta@), n_ts as int) {
            Ok((m, np)) => r is Ok && r->Ok_0.0.model() == m && r->Ok_0.1 == np && pos
                < r->Ok_0.1 <= buf@.len() && r->Ok_0.0.wf() && (r->Ok_0.0.property_type
                is Compound || r->Ok_0.0.data_type.wf()),
            Err(e) => r is Err && r->Err_0 == e,
        },
{
    let n = buf.len();
    if pos > n || n - pos < 4 {
        return Err(OgawaError::IoError);
    }
    let info = le_u32_at(buf, pos);
    let ptype_bits = info & 3;
    let is_scalar_like = info & 1 != 0;
    let property_type = if ptype_bits == 0 {
        PropertyType::Compound
    } else if ptype_bits == 1 {
        PropertyType::Scalar
    } else {
        PropertyType::Array
    };
    let hint = (info >> 2) & 3;
    proof {
        assert((info >> 2) & 3 <= 3) by (bit_vector);
    }
    if hint == 3 {
        return Err(OgawaError::InternalError(InternalError::Unreachable));
    }
    let (fields, p) = if matches!(property_type, PropertyType::Compound) {
        ((DataType { pod_type: PodType::Unknown, extent: 0 }, false, 0u32, 0u32, 0u32, 0u32), pos
            + 4)
    } else {
        match read_header_front(buf, pos + 4, hint, info, n_ts) {
            Ok(t) => t,
            Err(e) => {
                return Err(e);
            },
        }
    };
    let (name, meta_data, end) = match read_name_meta(buf, p, hint, info, imeta) {
        Ok(t) => t,
        Err(e) => {
            return Err(e);
        },
    };
    let (data_type, is_homogenous, next_sample_index, first_changed_index, last_changed_index,
        time_sampling_index) = fields;
    let header = PropertyHeader {
        name,
        property_type,
        meta_data,
        data_type,
        is_scalar_like,
        is_homogenous,
        next_sample_index,
        first_changed_index,
        last_changed_index,
        time_sampling_index,
    };
    Ok((header, end))
}

/// Parses the whole property-header block from `pos` to the end of the
/// buffer.
pub open spec fn spec_prop_headers_from(
    b: Seq<u8>,
    pos: int,
    imeta: Seq<Map<Seq<char>, Seq<char>>>,
    n_ts: int,
) -> Result<Seq<HeaderModel>, OgawaError>
    decreases b.len() - pos,
{
    if pos < 0 || pos > b.len() {
        Err(OgawaError::IoError)
    } else if pos == b.len() {
        Ok(Seq::empty())
    } else {
        match spec_header_step(b, pos, imeta, n_ts) {
            Err(e) => Err(e),
            Ok((m, np)) => if np <= pos || np > b.len() {
                Err(OgawaError::IoError)
            } else {
                match spec_prop_headers_from(b, np, imeta, n_ts) {
                    Ok(rest) => Ok(seq![m] + rest),
                    Err(e) => Err(e),
                }
            },
        }
    }
}

/// The models of a decoded header vector.
pub open spec fn spec_header_models(v: Seq<PropertyHeader>) -> Seq<HeaderModel> {
    Seq::new(v.len(), |i: int| v[i].model())
}

/// Every decoded header is well formed, and every non-compound one carries a
/// valid element type.
pub open spec fn spec_headers_ok(v: Seq<PropertyHeader>) -> bool {
    forall|i: int|
        0 <= i < v.len() ==> (#[trigger] v[i]).wf() && (v[i].property_type is Compound
            || v[i].data_type.wf())
}

/// Reads the hint-width unsigned value at `pos`, widened to u32.
fn read_u_hint(buf: &Vec<u8>, pos: usize, hint: u32) -> (r: Result<u32, OgawaError>)
    requires
        hint <= 2,
    ensures
        r is Ok <==> pos + spec_hint_size(hint) <= buf@.len(),
        r is Ok ==> r->Ok_0 == spec_u_hint(buf@, pos as int, hint),
        r is Err ==> r->Err_0 == OgawaError::IoError,
{
    let n = buf.len();
    if hint == 0 {
        if pos >= n {
            Err(OgawaError::IoError)
        } else {
            Ok(buf[pos] as u32)
        }
    } else if hint == 1 {
        if pos > n || n - pos < 2 {
            Err(OgawaError::IoError)
        } else {
            Ok(crate::endian::le_u16_at(buf, pos) as u32)
        }
    } else {
        if pos > n || n - pos < 4 {
            Err(OgawaError::IoError)
        } else {
            Ok(le_u32_at(buf, pos))
        }
    }
}

/// Decodes the UTF-8 bytes of `buf` in `[a, a + len)` as a `String`.
fn read_utf8_range(buf: &Vec<u8>, a: usize, len_: usize) -> (r: Result<String, OgawaError>)
    requires
        a + len_ <= buf@.len(),
    ensures
        r is Ok <==> valid_utf8(buf@.subrange(a as int, a as int + len_ as int)),
        r is Ok ==> r->Ok_0@ == decode_utf8(buf@.subrange(a as int, a as int + len_ as int)),
        r is Err ==> r->Err_0 == OgawaError::ParsingError(ParsingError::FromUtf8Error),
{
    let _n = buf.len();
    let seg = copy_range(buf, a, a + len_);
    match string_from_utf8(seg) {
        Some(s) => Ok(s),
        None => Err(OgawaError::ParsingError(ParsingError::FromUtf8Error)),
    }
}

/// Parses a header's closing name and metadata at `p`.
fn read_name_meta(buf: &Vec<u8>, p: usize, hint: u32, info: u32, imeta: &Vec<MetaData>) -> (r:
    Result<(String, MetaData, usize), OgawaError>)
    requires
        hint <= 2,
        p <= buf@.len(),
        forall|i: int| 0 <= i < imeta@.len() ==> (#[trigger] imeta@[i]).wf(),
    ensures
        match spec_name_meta(buf@, p as int, hint, info, spec_table_models(imeta@)) {
            Ok(((name, meta), end)) => r is Ok && r->Ok_0.0@ == name && r->Ok_0.1.spec_map()
                == meta && r->Ok_0.1.wf() && r->Ok_0.2 == end && p < end <= buf@.len(),
            Err(e) => r is Err && r->Err_0 == e,
        },
{
    let n = buf.len();
    let hs: usize = if hint == 0 {
        1
    } else if hint == 1 {
        2
    } else {
        4
    };
    let name_size = match read_u_hint(buf, p, hint) {
        Ok(v) => v,
        Err(e) => {
            return Err(e);
        },
    };
    let p2 = p + hs;
    let name_size = name_size as usize;
    if n - p2 < name_size {
        return Err(OgawaError::IoError);
    }
    let name = match read_utf8_range(buf, p2, name_size) {
        Ok(s) => s,
        Err(e) => {
            return Err(e);
        },
    };
    let p3 = p2 + name_size;
    let mindex = (info >> 20) & 0xff;
    if mindex == 0xff {
        let msize = match read_u_hint(buf, p3, hint) {
            Ok(v) => v,
            Err(e) => {
                return Err(e);
            },
        };
        let p4 = p3 + hs;
        let msize = msize as usize;
        if p4 == n {
            Ok((name, MetaData::new(), p4))
        } else if n - p4 < msize {
            Err(OgawaError::IoError)
        } else {
            let seg = copy_range(buf, p4, p4 + msize);
            match MetaData::deserialize_utf8(seg) {
                Ok(md) => Ok((name, md, p4 + msize)),
                Err(e) => Err(e),
            }
        }
    } else if (mindex as usize) < imeta.len() {
        Ok((name, imeta[mindex as usize].duplicate(), p3))
    } else {
        Err(OgawaError::ParsingError(ParsingError::InvalidAlembicFile))
    }
}

/// Parses a whole property-header block.
fn parse_property_headers(buf: &Vec<u8>, imeta: &Vec<MetaData>, n_ts: usize) -> (r: Result<
    Vec<PropertyHeader>,
    OgawaError,
>)
    requires
        forall|i: int| 0 <= i < imeta@.len() ==> (#[trigger] imeta@[i]).wf(),
    ensures
        match spec_prop_headers_from(buf@, 0, spec_table_models(imeta@), n_ts as int) {
            Ok(models) => r is Ok && spec_header_models(r->Ok_0@) == models && spec_headers_ok(
                r->Ok_0@,
            ),
            Err(e) => r is Err && r->Err_0 == e,
        },
{
    let ghost whole = buf@;
    let ghost imodels = spec_table_models(imeta@);
    let size = buf.len();
    let mut out: Vec<PropertyHeader> = Vec::new();
    let mut pos: usize = 0;
    loop
        invariant
            pos <= size,
            size == whole.len(),
            buf@ == whole,
            imodels == spec_table_models(imeta@),
            forall|i: int| 0 <= i < imeta@.len() ==> (#[trigger] imeta@[i]).wf(),
            spec_headers_ok(out@),
            match spec_prop_headers_from(whole, pos as int, imodels, n_ts as int) {
                Ok(rest) => {
                    let full = spec_prop_headers_from(whole, 0, imodels, n_ts as int);
                    &&& full is Ok
                    &&& full->Ok_0.len() == out@.len() + rest.len()
                    &&& spec_header_models(out@) == full->Ok_0.take(out@.len() as int)
                    &&& full->Ok_0.skip(out@.len() as int) == rest
                },
                Err(e) => spec_prop_headers_from(whole, 0, imodels, n_ts as int) == Err::<
                    Seq<HeaderModel>,
                    OgawaError,
                >(e),
            },
        decreases size - pos,
    {
        if pos == size {
            proof {
                let full = spec_prop_headers_from(whole, 0, imodels, n_ts as int);
                assert(full->Ok_0.take(out@.len() as int) =~= full->Ok_0);
            }
            return Ok(out);
        }
        let (header, np) = match read_one_property_header(buf, pos, imeta, n_ts) {
            Ok(h) => h,
            Err(e) => {
                return Err(e);
            },
        };
        let ghost old_done = out@.len() as int;
        out.push(header);
        pos = np;
        proof {
            let full = spec_prop_headers_from(whole, 0, imodels, n_ts as int);
            match spec_prop_headers_from(whole, pos as int, imodels, n_ts as int) {
                Ok(rest) => {
                    assert(spec_header_models(out@) =~= spec_header_models(
                        out@.take(old_done),
                    ).push(out@[old_done].model()));
                    assert(out@.take(old_done) =~= out@.subrange(0, old_done));
                    assert(spec_header_models(out@.take(old_done)) =~= full->Ok_0.take(old_done));
                    assert(full->Ok_0.skip(old_done)[0] == full->Ok_0[old_done]);
                    assert(full->Ok_0.take(old_done + 1) =~= full->Ok_0.take(old_done).push(
                        full->Ok_0[old_done],
                    ));
                    assert(full->Ok_0.skip(old_done).skip(1) =~= full->Ok_0.skip(old_done + 1));
                    assert(spec_header_models(out@) =~= full->Ok_0.take(old_done + 1));
                },
                Err(_) => {},
            }
        }
    }
}

/// The last stored index holding `name`, or -1 when none does.
pub open spec fn spec_find_last(hs: Seq<PropertyHeader>, name: Seq<char>) -> int
    decreases hs.len(),
{
    if hs.len() == 0 {
        -1
    } else if hs.last().name@ == name {
        hs.len() - 1
    } else {
        spec_find_last(hs.drop_last(), name)
    }
}

/// A found last index holds the name searched for.
pub proof fn lemma_find_last_name(hs: Seq<PropertyHeader>, name: Seq<char>)
    requires
        spec_find_last(hs, name) >= 0,
    ensures
        0 <= spec_find_last(hs, name) < hs.len(),
        hs[spec_find_last(hs, name)].name@ == name,
    decreases hs.len(),
{
    if hs.len() > 0 && hs.last().name@ != name {
        lemma_find_last_name(hs.drop_last(), name);
        assert(hs.drop_last()[spec_find_last(hs.drop_last(), name)] == hs[spec_find_last(
            hs,
            name,
        )]);
    }
}

/// What the header-block parse of the group behind a compound property
/// yields: nothing when the group is empty or its last child is not a data
/// chunk; otherwise the parsed models of the header block that the last
/// child's payload holds.
pub open spec fn spec_compound_outcome(
    bytes: Seq<u8>,
    g: GroupChunk,
    imeta: Seq<Map<Seq<char>, Seq<char>>>,
    n_ts: int,
) -> Result<Seq<HeaderModel>, OgawaError> {
    if g.child_count == 0 {
        Ok(Seq::empty())
    } else {
        match g.spec_child_at(bytes, g.child_count - 1) {
            ChildSlot::OutOfBounds => Err(OgawaError::InternalError(InternalError::OutOfBounds)),
            ChildSlot::PastEnd => Err(OgawaError::IoError),
            ChildSlot::Value(c) => if !spec_is_data(c) {
                Ok(Seq::empty())
            } else if !spec_data_load_ok(bytes, c) {
                Err(OgawaError::IoError)
            } else {
                let p = spec_address_from_child(c);
                let s = if p == 0 {
                    0u64
                } else {
                    spec_u64_at(bytes, p as int)
                };
                if s == 0 {
                    Ok(Seq::empty())
                } else if s > bytes.len() {
                    Err(OgawaError::ParsingError(ParsingError::InvalidAlembicFile))
                } else if p + 8 + s > bytes.len() {
                    Err(OgawaError::IoError)
                } else {
                    spec_prop_headers_from(bytes.subrange(p + 8, p + 8 + s), 0, imeta, n_ts)
                }
            },
        }
    }
}

/// The child count a non-light group load at `gpos` settles on.
pub open spec fn spec_loaded_count(bytes: Seq<u8>, gpos: u64) -> u64 {
    if gpos == 0 {
        0
    } else {
        let c = spec_u64_at(bytes, gpos as int);
        if c == 0 || c as int > bytes.len() as int / 8 {
            0
        } else {
            c
        }
    }
}

/// What building a compound property from the group chunk at `gpos` yields,
/// as a function of the bytes alone: the group load itself can fail, and the
/// header-block parse follows `spec_compound_outcome`.
pub open spec fn spec_compound_at(
    bytes: Seq<u8>,
    gpos: u64,
    imeta: Seq<Map<Seq<char>, Seq<char>>>,
    n_ts: int,
) -> Result<Seq<HeaderModel>, OgawaError> {
    if !spec_group_load_ok(bytes, gpos, false) {
        Err(OgawaError::IoError)
    } else {
        let count = spec_loaded_count(bytes, gpos);
        if count == 0 {
            Ok(Seq::empty())
        } else {
            let c = spec_u64_at(bytes, gpos + 8 + 8 * (count - 1));
            if !spec_is_data(c) {
                Ok(Seq::empty())
            } else if !spec_data_load_ok(bytes, c) {
                Err(OgawaError::IoError)
            } else {
                let p = spec_address_from_child(c);
                let s = if p == 0 {
                    0u64
                } else {
                    spec_u64_at(bytes, p as int)
                };
                if s == 0 {
                    Ok(Seq::empty())
                } else if s > bytes.len() {
                    Err(OgawaError::ParsingError(ParsingError::InvalidAlembicFile))
                } else if p + 8 + s > bytes.len() {
                    Err(OgawaError::IoError)
                } else {
                    spec_prop_headers_from(bytes.subrange(p + 8, p + 8 + s), 0, imeta, n_ts)
                }
            }
        }
    }
}

/// On a group just loaded (non-light) at `gpos`, the compound outcome is the
/// pure function of the bytes at `gpos`.
pub proof fn lemma_compound_at_group(
    bytes: Seq<u8>,
    gpos: u64,
    g: GroupChunk,
    imeta: Seq<Map<Seq<char>, Seq<char>>>,
    n_ts: int,
)
    requires
        spec_group_load_ok(bytes, gpos, false),
        spec_group_fields(bytes, gpos, false, g),
        g.wf(),
    ensures
        spec_compound_outcome(bytes, g, imeta, n_ts) == spec_compound_at(bytes, gpos, imeta, n_ts),
{
    if gpos == 0 {
        assert(g.child_count == 0);
    } else {
        let count = spec_loaded_count(bytes, gpos);
        assert(g.child_count == count);
        if count != 0 {
            assert(g.children@.len() == count);
            assert(!g.spec_is_light());
            assert(g.children@[count - 1] == spec_u64_at(bytes, gpos + 8 + 8 * (count - 1)));
            assert(g.spec_child_at(bytes, count - 1) == ChildSlot::Value(
                spec_u64_at(bytes, gpos + 8 + 8 * (count - 1)),
            ));
        }
    }
}

/// The last model index holding `name`, or -1 when none does.
pub open spec fn spec_find_last_model(hs: Seq<HeaderModel>, name: Seq<char>) -> int
    decreases hs.len(),
{
    if hs.len() == 0 {
        -1
    } else if hs.last().0.0 == name {
        hs.len() - 1
    } else {
        spec_find_last_model(hs.drop_last(), name)
    }
}

/// The model-level search agrees with the header-level one.
pub proof fn lemma_find_last_model(v: Seq<PropertyHeader>, name: Seq<char>)
    ensures
        spec_find_last_model(spec_header_models(v), name) == spec_find_last(v, name),
    decreases v.len(),
{
    if v.len() > 0 {
        assert(spec_header_models(v).last() == v.last().model());
        assert(spec_header_models(v).drop_last() =~= spec_header_models(v.drop_last()));
        lemma_find_last_model(v.drop_last(), name);
    }
}

/// Why loading sub-property `index` of a compound grounded at `gpos` with
/// header models `hs` fails on these bytes — or `None` when it loads. The
/// body is group child `index`, which must be group-tagged; a compound
/// sub-property is parsed in turn.
pub open spec fn spec_sub_err_at(
    bytes: Seq<u8>,
    gpos: u64,
    hs: Seq<HeaderModel>,
    index: int,
    imodels: Seq<Map<Seq<char>, Seq<char>>>,
    n_ts: int,
) -> Option<OgawaError> {
    if index < 0 || index >= hs.len() {
        Some(OgawaError::UserError(UserError::OutOfBounds))
    } else {
        let count = spec_loaded_count(bytes, gpos);
        if index >= count {
            Some(OgawaError::InternalError(InternalError::OutOfBounds))
        } else {
            let c = spec_u64_at(bytes, gpos + 8 + 8 * index);
            if !spec_is_group(c) {
                Some(OgawaError::InternalError(InternalError::DataChunkReadAsGroupChunk))
            } else if hs[index].0.1 is Compound {
                match spec_compound_at(bytes, c, imodels, n_ts) {
                    Ok(_) => None,
                    Err(e) => Some(e),
                }
            } else if spec_group_load_ok(bytes, c, false) {
                None
            } else {
                Some(OgawaError::IoError)
            }
        }
    }
}

/// Why a required sub-property lookup fails — or `None` when it loads: the
/// name must be found, it must carry the expected element type when one is
/// demanded, its body must load, and it must be of the demanded kind.
pub open spec fn spec_required_err_at(
    bytes: Seq<u8>,
    gpos: u64,
    hs: Seq<HeaderModel>,
    name: Seq<char>,
    kind: PropertyType,
    dt: Option<DataType>,
    imodels: Seq<Map<Seq<char>, Seq<char>>>,
    n_ts: int,
) -> Option<OgawaError> {
    let fi = spec_find_last_model(hs, name);
    if fi < 0 {
        Some(OgawaError::ParsingError(ParsingError::IncompatibleSchema))
    } else if (match dt {
        Some(t) => hs[fi].1.0 != t,
        None => false,
    }) {
        Some(OgawaError::ParsingError(ParsingError::IncompatibleSchema))
    } else {
        match spec_sub_err_at(bytes, gpos, hs, fi, imodels, n_ts) {
            Some(e) => Some(e),
            None => if hs[fi].0.1 == kind {
                None
            } else {
                Some(OgawaError::ParsingError(ParsingError::IncompatibleSchema))
            },
        }
    }
}

/// As `spec_required_err_at`, but an absent name is no fault.
pub open spec fn spec_optional_err_at(
    bytes: Seq<u8>,
    gpos: u64,
    hs: Seq<HeaderModel>,
    name: Seq<char>,
    kind: PropertyType,
    dt: Option<DataType>,
    imodels: Seq<Map<Seq<char>, Seq<char>>>,
    n_ts: int,
) -> Option<OgawaError> {
    if spec_find_last_model(hs, name) < 0 {
        None
    } else {
        spec_required_err_at(bytes, gpos, hs, name, kind, dt, imodels, n_ts)
    }
}

/// A property of any kind, as loaded from a compound's child.
#[derive(Debug)]
pub enum PropertyReader {
    Array(ArrayPropertyReader),
    Compound(CompoundPropertyReader),
    Scalar(ScalarPropertyReader),
}

impl PropertyReader {
    /// The property's name.
    pub open spec fn spec_name(self) -> Seq<char> {
        match self {
            PropertyReader::Array(r) => r.header.name@,
            PropertyReader::Compound(r) => r.header.name@,
            PropertyReader::Scalar(r) => r.header.name@,
        }
    }

    pub fn name(&self) -> (r: &str)
        ensures
            r@ == self.spec_name(),
    {
        match self {
            PropertyReader::Array(r) => r.header.name.as_str(),
            PropertyReader::Compound(r) => r.header.name.as_str(),
            PropertyReader::Scalar(r) => r.header.name.as_str(),
        }
    }
}

/// A compound property: a group chunk whose last child, when data-tagged,
/// holds the packed headers of its sub-properties, each other child being
/// one sub-property's body at the same index.
#[derive(Debug)]
pub struct CompoundPropertyReader {
    pub group: GroupChunk,
    pub property_headers: Vec<PropertyHeader>,
    pub header: PropertyHeader,
}

impl CompoundPropertyReader {
    pub open spec fn wf(self) -> bool {
        &&& self.group.wf()
        &&& self.header.wf()
        &&& spec_headers_ok(self.property_headers@)
    }

    /// Builds a compound property reader over a loaded group chunk, decoding
    /// the sub-property header block held by the group's last child when
    /// that child is a data chunk.
    pub fn new(
        group: GroupChunk,
        meta_data: MetaData,
        reader: &ByteReader,
        indexed_meta_data: &Vec<MetaData>,
        time_samplings: &Vec<TimeSampling>,
    ) -> (r: Result<CompoundPropertyReader, OgawaError>)
        requires
            group.wf(),
            meta_data.wf(),
            forall|i: int|
                0 <= i < indexed_meta_data@.len() ==> (#[trigger] indexed_meta_data@[i]).wf(),
        ensures
            ({
                let outcome = spec_compound_outcome(
                    reader@,
                    group,
                    spec_table_models(indexed_meta_data@),
                    time_samplings@.len() as int,
                );
                &&& (r is Ok <==> outcome is Ok)
                &&& r is Err ==> Some(r->Err_0) == Some(outcome->Err_0)
                &&& r is Ok ==> {
                    let cr = r->Ok_0;
                    &&& cr.group == group
                    &&& spec_header_models(cr.property_headers@) == outcome->Ok_0
                    &&& spec_headers_ok(cr.property_headers@)
                    &&& cr.header.name@ == Seq::<char>::empty()
                    &&& cr.header.property_type == PropertyType::Compound
                    &&& cr.header.meta_data@ == meta_data@
                    &&& cr.header.data_type == (DataType { pod_type: PodType::Unknown, extent: 0 })
                    &&& cr.header.is_scalar_like && cr.header.is_homogenous
                    &&& cr.header.next_sample_index == 0 && cr.header.first_changed_index == 0
                        && cr.header.last_changed_index == 0 && cr.header.time_sampling_index == 0
                    &&& cr.wf()
                }
            }),
    {
        let n_ts = time_samplings.len();
        let mut property_headers: Vec<PropertyHeader> = Vec::new();
        if group.child_count > 0 {
            let len_us = reader.size_usize();
            let _cl = group.children.len();
            if group.child_count - 1 > (usize::MAX as u64) {
                proof {
                    assert(group.spec_is_light());
                    assert(group.spec_child_at(reader@, group.child_count - 1)
                        == ChildSlot::PastEnd);
                }
                return Err(OgawaError::IoError);
            }
            let last_idx = (group.child_count - 1) as usize;
            let child = match group.child_value(reader, last_idx) {
                Ok(c) => c,
                Err(e) => {
                    return Err(e);
                },
            };
            if is_data(child) {
                let data = match DataChunk::load(child, reader) {
                    Ok(d) => d,
                    Err(e) => {
                        return Err(e);
                    },
                };
                if data.size != 0 {
                    let buf = match data.read(0, data.size, reader) {
                        Ok(b) => b,
                        Err(e) => {
                            return Err(e);
                        },
                    };
                    property_headers = match parse_property_headers(
                        &buf,
                        indexed_meta_data,
                        n_ts,
                    ) {
                        Ok(h) => h,
                        Err(e) => {
                            return Err(e);
                        },
                    };
                }
            }
        }
        let header = PropertyHeader {
            name: String::new(),
            property_type: PropertyType::Compound,
            meta_data,
            data_type: DataType { pod_type: PodType::Unknown, extent: 0 },
            is_scalar_like: true,
            is_homogenous: true,
            next_sample_index: 0,
            first_changed_index: 0,
            last_changed_index: 0,
            time_sampling_index: 0,
        };
        Ok(CompoundPropertyReader { group, property_headers, header })
    }

    pub fn name(&self) -> (r: &str)
        ensures
            r@ == self.header.name@,
    {
        self.header.name.as_str()
    }

    /// The number of sub-properties.
    pub fn sub_property_count(&self) -> (r: usize)
        ensures
            r == self.property_headers@.len(),
    {
        self.property_headers.len()
    }

    /// The index of the sub-property named `name`; with duplicate names the
    /// last one wins.
    pub fn find_sub_property_index(&self, name: &str) -> (r: Option<usize>)
        ensures
            r is Some <==> spec_find_last(self.property_headers@, name@) >= 0,
            r is Some ==> r->0 == spec_find_last(self.property_headers@, name@) && r->0
                < self.property_headers@.len(),
    {
        let n = self.property_headers.len();
        let mut i: usize = 0;
        let mut found: Option<usize> = None;
        proof {
            assert(self.property_headers@.take(0) =~= Seq::<PropertyHeader>::empty());
        }
        while i < n
            invariant
                i <= n,
                n == self.property_headers@.len(),
                match found {
                    Some(k) => spec_find_last(self.property_headers@.take(i as int), name@)
                        == k && k < i,
                    None => spec_find_last(self.property_headers@.take(i as int), name@) == -1,
                },
            decreases n - i,
        {
            let ghost pre = self.property_headers@.take(i as int);
            if crate::metadata::str_eq(self.property_headers[i].name.as_str(), name) {
                found = Some(i);
            }
            i = i + 1;
            proof {
                let cur = self.property_headers@.take(i as int);
                assert(cur.drop_last() =~= pre);
                assert(cur.last() == self.property_headers@[i - 1]);
            }
        }
        proof {
            assert(self.property_headers@.take(n as int) =~= self.property_headers@);
        }
        found
    }

    /// What loading sub-property `index` yields: out-of-bounds misuse, a
    /// fault resolving or loading the child group, or the wrapped reader of
    /// the kind the header declares, with a compound child parsed in turn.
    pub open spec fn spec_load_sub_post(
        self,
        index: int,
        bytes: Seq<u8>,
        imodels: Seq<Map<Seq<char>, Seq<char>>>,
        n_ts: int,
        r: Result<PropertyReader, OgawaError>,
    ) -> bool {
        &&& index >= self.property_headers@.len() ==> r is Err && r->Err_0
            == OgawaError::UserError(UserError::OutOfBounds)
        &&& index < self.property_headers@.len() ==> {
            let h = self.property_headers@[index];
            match self.group.spec_child_at(bytes, index) {
                ChildSlot::OutOfBounds => r is Err && r->Err_0 == OgawaError::InternalError(
                    InternalError::OutOfBounds,
                ),
                ChildSlot::PastEnd => r is Err && r->Err_0 == OgawaError::IoError,
                ChildSlot::Value(c) => if !spec_is_group(c) {
                    r is Err && r->Err_0 == OgawaError::InternalError(
                        InternalError::DataChunkReadAsGroupChunk,
                    )
                } else if h.property_type is Compound {
                    let outcome = spec_compound_at(bytes, c, imodels, n_ts);
                    &&& (r is Ok <==> outcome is Ok)
                    &&& r is Err ==> Some(r->Err_0) == Some(outcome->Err_0)
                    &&& r is Ok ==> (r->Ok_0 matches PropertyReader::Compound(cr) && {
                        &&& spec_group_fields(bytes, c, false, cr.group)
                        &&& spec_header_models(cr.property_headers@) == outcome->Ok_0
                        &&& cr.header.meta_data.spec_map() == h.meta_data.spec_map()
                        &&& cr.header.property_type == PropertyType::Compound
                        &&& cr.wf()
                    })
                } else {
                    &&& (r is Ok <==> spec_group_load_ok(bytes, c, false))
                    &&& r is Err ==> r->Err_0 == OgawaError::IoError
                    &&& r is Ok ==> match h.property_type {
                        PropertyType::Scalar => (r->Ok_0 matches PropertyReader::Scalar(s)
                            && spec_group_fields(bytes, c, false, s.group) && s.header.model()
                            == h.model() && s.wf()),
                        PropertyType::Array => (r->Ok_0 matches PropertyReader::Array(a)
                            && spec_group_fields(bytes, c, false, a.group) && a.header.model()
                            == h.model() && a.wf()),
                        PropertyType::Compound => false,
                    }
                },
            }
        }
    }

    /// Loads sub-property `index`: its body is group child `index`, read as
    /// a group chunk and wrapped according to the header's kind.
    pub fn load_sub_property(
        &self,
        index: usize,
        reader: &ByteReader,
        indexed_meta_data: &Vec<MetaData>,
        time_samplings: &Vec<TimeSampling>,
    ) -> (r: Result<PropertyReader, OgawaError>)
        requires
            self.wf(),
            forall|i: int|
                0 <= i < indexed_meta_data@.len() ==> (#[trigger] indexed_meta_data@[i]).wf(),
        ensures
            self.spec_load_sub_post(
                index as int,
                reader@,
                spec_table_models(indexed_meta_data@),
                time_samplings@.len() as int,
                r,
            ),
    {
        if index >= self.property_headers.len() {
            return Err(OgawaError::UserError(UserError::OutOfBounds));
        }
        let group = match self.group.load_group(reader, index, false) {
            Ok(g) => g,
            Err(e) => {
                return Err(e);
            },
        };
        let header = &self.property_headers[index];
        match header.property_type {
            PropertyType::Array => Ok(
                PropertyReader::Array(ArrayPropertyReader::new(group, header.duplicate())),
            ),
            PropertyType::Scalar => Ok(
                PropertyReader::Scalar(ScalarPropertyReader::new(group, header.duplicate())),
            ),
            PropertyType::Compound => {
                proof {
                    match self.group.spec_child_at(reader@, index as int) {
                        ChildSlot::Value(c) => {
                            lemma_compound_at_group(
                                reader@,
                                c,
                                group,
                                spec_table_models(indexed_meta_data@),
                                time_samplings@.len() as int,
                            );
                        },
                        _ => {},
                    }
                }
                match CompoundPropertyReader::new(
                    group,
                    header.meta_data.duplicate(),
                    reader,
                    indexed_meta_data,
                    time_samplings,
                ) {
                    Ok(c) => Ok(PropertyReader::Compound(c)),
                    Err(e) => Err(e),
                }
            },
        }
    }

    /// The compound's group is exactly what a non-light group load at its
    /// position yields on these bytes: the shape of every compound the
    /// library builds.
    pub open spec fn grounded(self, bytes: Seq<u8>) -> bool {
        &&& spec_group_load_ok(bytes, self.group.position, false)
        &&& spec_group_fields(bytes, self.group.position, false, self.group)
    }

    /// On a grounded compound, the sub-property load outcome is the pure
    /// function of the bytes, the group position and the header models.
    pub proof fn lemma_sub_err_at(
        self,
        bytes: Seq<u8>,
        index: int,
        imodels: Seq<Map<Seq<char>, Seq<char>>>,
        n_ts: int,
        r: Result<PropertyReader, OgawaError>,
    )
        requires
            index >= 0,
            self.grounded(bytes),
            self.spec_load_sub_post(index, bytes, imodels, n_ts, r),
        ensures
            r is Ok <==> spec_sub_err_at(
                bytes,
                self.group.position,
                spec_header_models(self.property_headers@),
                index,
                imodels,
                n_ts,
            ) is None,
            r is Err ==> Some(r->Err_0) == spec_sub_err_at(
                bytes,
                self.group.position,
                spec_header_models(self.property_headers@),
                index,
                imodels,
                n_ts,
            ),
    {
        let gpos = self.group.position;
        let hs = spec_header_models(self.property_headers@);
        let count = spec_loaded_count(bytes, gpos);
        assert(hs.len() == self.property_headers@.len());
        assert(self.group.child_count == count);
        assert(self.group.children@.len() == count);
        assert(!self.group.spec_is_light());
        if 0 <= index < hs.len() {
            assert(hs[index].0.1 == self.property_headers@[index].property_type);
            if index < count {
                assert(self.group.children@[index] == spec_u64_at(bytes, gpos + 8 + 8 * index));
                assert(self.group.spec_child_at(bytes, index) == ChildSlot::Value(
                    spec_u64_at(bytes, gpos + 8 + 8 * index),
                ));
            } else {
                assert(self.group.spec_child_at(bytes, index) == ChildSlot::OutOfBounds);
            }
        }
    }

    /// Loads the sub-property named `name`, demanding its kind and, when an
    /// expected element type is given, exactly that type; the name must be
    /// present. Succeeds exactly when `spec_required_err_at` is silent.
    pub fn load_required(
        &self,
        name: &str,
        kind: PropertyType,
        expected: Option<&DataType>,
        reader: &ByteReader,
        indexed_meta_data: &Vec<MetaData>,
        time_samplings: &Vec<TimeSampling>,
    ) -> (r: Result<PropertyReader, OgawaError>)
        requires
            self.wf(),
            self.grounded(reader@),
            forall|i: int|
                0 <= i < indexed_meta_data@.len() ==> (#[trigger] indexed_meta_data@[i]).wf(),
        ensures
            ({
                let hs = spec_header_models(self.property_headers@);
                let dt = match expected {
                    Some(t) => Some(*t),
                    None => None,
                };
                let outcome = spec_required_err_at(
                    reader@,
                    self.group.position,
                    hs,
                    name@,
                    kind,
                    dt,
                    spec_table_models(indexed_meta_data@),
                    time_samplings@.len() as int,
                );
                &&& (r is Ok <==> outcome is None)
                &&& (r is Err ==> Some(r->Err_0) == outcome)
                &&& r is Ok ==> ({
                    let fi = spec_find_last(self.property_headers@, name@);
                    let h = self.property_headers@[fi];
                    &&& 0 <= fi < self.property_headers@.len()
                    &&& h.name@ == name@
                    &&& h.property_type == kind
                    &&& (match expected {
                        Some(t) => h.data_type == *t,
                        None => true,
                    })
                    &&& match r->Ok_0 {
                        PropertyReader::Scalar(s) => kind == PropertyType::Scalar
                            && s.header.model() == h.model() && s.wf(),
                        PropertyReader::Array(a) => kind == PropertyType::Array && a.header.model()
                            == h.model() && a.wf(),
                        PropertyReader::Compound(c) => kind == PropertyType::Compound && c.wf()
                            && c.grounded(reader@) && c.header.meta_data.spec_map()
                            == h.meta_data.spec_map(),
                    }
                })
            }),
    {
        proof {
            lemma_find_last_model(self.property_headers@, name@);
        }
        let index = match self.find_sub_property_index(name) {
            Some(i) => i,
            None => {
                return Err(OgawaError::ParsingError(ParsingError::IncompatibleSchema));
            },
        };
        proof {
            lemma_find_last_name(self.property_headers@, name@);
        }
        match expected {
            Some(dt) => {
                if !(self.property_headers[index].data_type == *dt) {
                    return Err(OgawaError::ParsingError(ParsingError::IncompatibleSchema));
                }
            },
            None => {},
        }
        let sub = match self.load_sub_property(index, reader, indexed_meta_data, time_samplings) {
            Ok(p) => p,
            Err(e) => {
                proof {
                    self.lemma_sub_err_at(
                        reader@,
                        index as int,
                        spec_table_models(indexed_meta_data@),
                        time_samplings@.len() as int,
                        Err(e),
                    );
                }
                return Err(e);
            },
        };
        proof {
            self.lemma_sub_err_at(
                reader@,
                index as int,
                spec_table_models(indexed_meta_data@),
                time_samplings@.len() as int,
                Ok(sub),
            );
        }
        match sub {
            PropertyReader::Scalar(p) => {
                if matches!(kind, PropertyType::Scalar) {
                    Ok(PropertyReader::Scalar(p))
                } else {
                    Err(OgawaError::ParsingError(ParsingError::IncompatibleSchema))
                }
            },
            PropertyReader::Array(p) => {
                if matches!(kind, PropertyType::Array) {
                    Ok(PropertyReader::Array(p))
                } else {
                    Err(OgawaError::ParsingError(ParsingError::IncompatibleSchema))
                }
            },
            PropertyReader::Compound(p) => {
                if matches!(kind, PropertyType::Compound) {
                    proof {
                        let h = self.property_headers@[spec_find_last(
                            self.property_headers@,
                            name@,
                        )];
                        if h.property_type is Compound {
                            match self.group.spec_child_at(reader@, index as int) {
                                ChildSlot::Value(c) => {
                                    if c == 0 {
                                        assert(p.group.position == 0);
                                    } else {
                                        assert(p.group.position == c);
                                    }
                                },
                                _ => {},
                            }
                        }
                    }
                    Ok(PropertyReader::Compound(p))
                } else {
                    Err(OgawaError::ParsingError(ParsingError::IncompatibleSchema))
                }
            },
        }
    }

    /// As `load_required`, but an absent name yields nothing rather than a
    /// fault.
    pub fn load_optional(
        &self,
        name: &str,
        kind: PropertyType,
        expected: Option<&DataType>,
        reader: &ByteReader,
        indexed_meta_data: &Vec<MetaData>,
        time_samplings: &Vec<TimeSampling>,
    ) -> (r: Result<Option<PropertyReader>, OgawaError>)
        requires
            self.wf(),
            self.grounded(reader@),
            forall|i: int|
                0 <= i < indexed_meta_data@.len() ==> (#[trigger] indexed_meta_data@[i]).wf(),
        ensures
            ({
                let hs = spec_header_models(self.property_headers@);
                let dt = match expected {
                    Some(t) => Some(*t),
                    None => None,
                };
                let outcome = spec_optional_err_at(
                    reader@,
                    self.group.position,
                    hs,
                    name@,
                    kind,
                    dt,
                    spec_table_models(indexed_meta_data@),
                    time_samplings@.len() as int,
                );
                &&& (r is Ok <==> outcome is None)
                &&& (r is Err ==> Some(r->Err_0) == outcome)
                &&& (r is Ok ==> (r->Ok_0 is Some <==> spec_find_last(
                    self.property_headers@,
                    name@,
                ) >= 0))
                &&& r is Ok && r->Ok_0 is Some ==> ({
                    let fi = spec_find_last(self.property_headers@, name@);
                    let h = self.property_headers@[fi];
                    &&& 0 <= fi < self.property_headers@.len()
                    &&& h.name@ == name@
                    &&& h.property_type == kind
                    &&& (match expected {
                        Some(t) => h.data_type == *t,
                        None => true,
                    })
                    &&& match r->Ok_0->0 {
                        PropertyReader::Scalar(s) => kind == PropertyType::Scalar
                            && s.header.model() == h.model() && s.wf(),
                        PropertyReader::Array(a) => kind == PropertyType::Array && a.header.model()
                            == h.model() && a.wf(),
                        PropertyReader::Compound(c) => kind == PropertyType::Compound && c.wf()
                            && c.grounded(reader@) && c.header.meta_data.spec_map()
                            == h.meta_data.spec_map(),
                    }
                })
            }),
    {
        proof {
            lemma_find_last_model(self.property_headers@, name@);
        }
        if self.find_sub_property_index(name).is_none() {
            return Ok(None);
        }
        match self.load_required(name, kind, expected, reader, indexed_meta_data, time_samplings) {
            Ok(p) => Ok(Some(p)),
            Err(e) => Err(e),
        }
    }

    /// Loads the sub-property named `name`, or yields nothing when no
    /// sub-property has that name.
    pub fn load_sub_property_by_name(
        &self,
        name: &str,
        reader: &ByteReader,
        indexed_meta_data: &Vec<MetaData>,
        time_samplings: &Vec<TimeSampling>,
    ) -> (r: Result<Option<PropertyReader>, OgawaError>)
        requires
            self.wf(),
            forall|i: int|
                0 <= i < indexed_meta_data@.len() ==> (#[trigger] indexed_meta_data@[i]).wf(),
        ensures
            spec_find_last(self.property_headers@, name@) < 0 ==> r is Ok && r->Ok_0 is None,
            spec_find_last(self.property_headers@, name@) >= 0 ==> self.spec_load_sub_post(
                spec_find_last(self.property_headers@, name@),
                reader@,
                spec_table_models(indexed_meta_data@),
                time_samplings@.len() as int,
                match r {
                    Ok(Some(p)) => Ok(p),
                    Ok(None) => Err(OgawaError::UserError(UserError::OutOfBounds)),
                    Err(e) => Err(e),
                },
            ) && (r is Ok ==> r->Ok_0 is Some),
    {
        let index = match self.find_sub_property_index(name) {
            Some(i) => i,
            None => {
                return Ok(None);
            },
        };
        match self.load_sub_property(index, reader, indexed_meta_data, time_samplings) {
            Ok(p) => Ok(Some(p)),
            Err(e) => Err(e),
        }
    }

    /// Loads the sub-property named `name`, first checking, when an expected
    /// element type is given, that the header declares exactly that type;
    /// a present-but-wrong-type property is an incompatible schema.
    pub fn load_sub_property_by_name_checked(
        &self,
        name: &str,
        reader: &ByteReader,
        indexed_meta_data: &Vec<MetaData>,
        time_samplings: &Vec<TimeSampling>,
        expected: Option<&DataType>,
    ) -> (r: Result<Option<PropertyReader>, OgawaError>)
        requires
            self.wf(),
            forall|i: int|
                0 <= i < indexed_meta_data@.len() ==> (#[trigger] indexed_meta_data@[i]).wf(),
        ensures
            spec_find_last(self.property_headers@, name@) < 0 ==> r is Ok && r->Ok_0 is None,
            spec_find_last(self.property_headers@, name@) >= 0 ==> {
                let h = self.property_headers@[spec_find_last(self.property_headers@, name@)];
                if (match expected {
                    Some(dt) => h.data_type != *dt,
                    None => false,
                }) {
                    r is Err && r->Err_0 == OgawaError::ParsingError(
                        ParsingError::IncompatibleSchema,
                    )
                } else {
                    self.spec_load_sub_post(
                        spec_find_last(self.property_headers@, name@),
                        reader@,
                        spec_table_models(indexed_meta_data@),
                        time_samplings@.len() as int,
                        match r {
                            Ok(Some(p)) => Ok(p),
                            Ok(None) => Err(OgawaError::UserError(UserError::OutOfBounds)),
                            Err(e) => Err(e),
                        },
                    ) && (r is Ok ==> r->Ok_0 is Some)
                }
            },
    {
        let index = match self.find_sub_property_index(name) {
            Some(i) => i,
            None => {
                return Ok(None);
            },
        };
        match expected {
            Some(dt) => {
                let h = &self.property_headers[index];
                if !(matches!(h.data_type.pod_type, PodType::Boolean)
                    && matches!(dt.pod_type, PodType::Boolean) || h.data_type.pod_type.tag()
                    == dt.pod_type.tag()) || h.data_type.extent != dt.extent {
                    return Err(OgawaError::ParsingError(ParsingError::IncompatibleSchema));
                }
                proof {
                    lemma_pod_tag_inverse(self.property_headers@[index as int].data_type.pod_type);
                    lemma_pod_tag_inverse(dt.pod_type);
                }
            },
            None => {},
        }
        match self.load_sub_property(index, reader, indexed_meta_data, time_samplings) {
            Ok(p) => Ok(Some(p)),
            Err(e) => Err(e),
        }
    }
}

impl CompoundPropertyReader {
    /// Narrows a property reader to a compound one.
    pub fn try_from(reader: PropertyReader) -> (r: Result<CompoundPropertyReader, ParsingError>)
        ensures
            match reader {
                PropertyReader::Compound(c) => r is Ok && r->Ok_0 == c,
                _ => r is Err && r->Err_0 == ParsingError::IncompatibleSchema,
            },
    {
        if let PropertyReader::Compound(c) = reader {
            Ok(c)
        } else {
            Err(ParsingError::IncompatibleSchema)
        }
    }
}

impl ScalarPropertyReader {
    /// Narrows a property reader to a scalar one.
    pub fn try_from(reader: PropertyReader) -> (r: Result<ScalarPropertyReader, ParsingError>)
        ensures
            match reader {
                PropertyReader::Scalar(s) => r is Ok && r->Ok_0 == s,
                _ => r is Err && r->Err_0 == ParsingError::IncompatibleSchema,
            },
    {
        if let PropertyReader::Scalar(s) = reader {
            Ok(s)
        } else {
            Err(ParsingError::IncompatibleSchema)
        }
    }
}

impl ArrayPropertyReader {
    /// Narrows a property reader to an array one.
    pub fn try_from(reader: PropertyReader) -> (r: Result<ArrayPropertyReader, ParsingError>)
        ensures
            match reader {
                PropertyReader::Array(a) => r is Ok && r->Ok_0 == a,
                _ => r is Err && r->Err_0 == ParsingError::IncompatibleSchema,
            },
    {
        if let PropertyReader::Array(a) = reader {
            Ok(a)
        } else {
            Err(ParsingError::IncompatibleSchema)
        }
    }
}


} // verus!
