//! The property layer: property headers with their bit-packed on-disk
//! encoding, the per-sample deduplication remap, and the scalar and array
//! property readers that expose time-indexed samples.
use vstd::prelude::*;
use crate::chunks::{spec_data_load_ok, spec_is_data, ChildSlot, GroupChunk};
use crate::error::{InternalError, OgawaError, UserError};
use crate::metadata::MetaData;
use crate::pod::{DataType, PodArray};
use crate::reader::ByteReader;
use crate::typed_array::{spec_pod_array_err, spec_pod_array_value};

verus! {

/// The three property kinds.
#[derive(Debug, PartialEq, Eq, Clone, Copy, Structural)]
pub enum PropertyType {
    Array,
    Compound,
    Scalar,
}

/// One property's decoded header: its name, kind, metadata, element type,
/// and the sample-index bookkeeping for deduplicated storage.
#[derive(Debug)]
pub struct PropertyHeader {
    pub name: String,
    pub property_type: PropertyType,
    pub meta_data: MetaData,
    pub data_type: DataType,
    pub is_scalar_like: bool,
    pub is_homogenous: bool,
    pub next_sample_index: u32,
    pub first_changed_index: u32,
    pub last_changed_index: u32,
    pub time_sampling_index: u32,
}

/// The mathematical content of a header: name, kind and metadata mapping,
/// then element type and the two flags, then the four sample indices
/// `(next, first, last, time-sampling)`.
pub type HeaderModel = (
    (Seq<char>, PropertyType, Map<Seq<char>, Seq<char>>),
    (DataType, bool, bool),
    (u32, u32, u32, u32),
);

impl PropertyHeader {
    pub open spec fn model(self) -> HeaderModel {
        (
            (self.name@, self.property_type, self.meta_data.spec_map()),
            (self.data_type, self.is_scalar_like, self.is_homogenous),
            (
                self.next_sample_index,
                self.first_changed_index,
                self.last_changed_index,
                self.time_sampling_index,
            ),
        )
    }

    /// The changed-sample range is either the all-constant marker `(0, 0)`
    /// or satisfies `first <= last < next`; the metadata is well formed.
    pub open spec fn wf(self) -> bool {
        &&& (self.first_changed_index == 0 && self.last_changed_index == 0) || (
        self.first_changed_index <= self.last_changed_index && self.last_changed_index
            < self.next_sample_index)
        &&& self.meta_data.wf()
    }

    /// Where logical sample `index` lives among the property's group
    /// children: child 0 before the first change (or always, when nothing
    /// ever changes), the last stored child from the last change on, and
    /// the shifted position in between.
    pub open spec fn spec_map_index(first: u32, last: u32, index: u32) -> u32
        recommends
            first <= last,
    {
        if index < first || (first == 0 && last == 0) {
            0
        } else if index >= last {
            (last - first + 1) as u32
        } else {
            (index - first + 1) as u32
        }
    }

    /// Maps a logical sample index to the group child holding its payload.
    pub fn map_index(&self, index: u32) -> (r: usize)
        requires
            self.wf(),
        ensures
            r == Self::spec_map_index(self.first_changed_index, self.last_changed_index, index),
    {
        if index < self.first_changed_index || (self.first_changed_index == 0
            && self.last_changed_index == 0) {
            0
        } else if index >= self.last_changed_index {
            (self.last_changed_index - self.first_changed_index + 1) as usize
        } else {
            (index - self.first_changed_index + 1) as usize
        }
    }

    /// Copies the header, field by field.
    pub fn duplicate(&self) -> (r: PropertyHeader)
        ensures
            r.name@ == self.name@,
            r.property_type == self.property_type,
            r.meta_data@ == self.meta_data@,
            r.data_type == self.data_type,
            r.is_scalar_like == self.is_scalar_like,
            r.is_homogenous == self.is_homogenous,
            r.next_sample_index == self.next_sample_index,
            r.first_changed_index == self.first_changed_index,
            r.last_changed_index == self.last_changed_index,
            r.time_sampling_index == self.time_sampling_index,
            r.model() == self.model(),
            r.wf() == self.wf(),
    {
        PropertyHeader {
            name: self.name.clone(),
            property_type: self.property_type,
            meta_data: self.meta_data.duplicate(),
            data_type: self.data_type,
            is_scalar_like: self.is_scalar_like,
            is_homogenous: self.is_homogenous,
            next_sample_index: self.next_sample_index,
            first_changed_index: self.first_changed_index,
            last_changed_index: self.last_changed_index,
            time_sampling_index: self.time_sampling_index,
        }
    }
}

/// The sample-index remap law. For a changed range `first <= last < next`,
/// the mapped child index is 0 on `[0, first)`, `last - first + 1` on
/// `[last, next)`, `index - first + 1` in between, and is monotone
/// non-decreasing in the logical index; when `first == last == 0`, every
/// logical index maps to 0.
pub proof fn lemma_map_index_remap(first: u32, last: u32, next: u32, i: u32, j: u32)
    requires
        (first == 0 && last == 0) || (first <= last && last < next),
    ensures
        i < first ==> PropertyHeader::spec_map_index(first, last, i) == 0,
        first <= last && last <= i ==> PropertyHeader::spec_map_index(first, last, i) == last
            - first + 1 || (first == 0 && last == 0),
        (first == 0 && last == 0) ==> PropertyHeader::spec_map_index(first, last, i) == 0,
        first <= i < last ==> PropertyHeader::spec_map_index(first, last, i) == i - first + 1,
        i <= j ==> PropertyHeader::spec_map_index(first, last, i) <= PropertyHeader::spec_map_index(
            first,
            last,
            j,
        ),
{
}

/// The chunk a sample load resolves to: the data chunk's position and size
/// at group child `idx`, or the fault on the way there.
pub open spec fn spec_sample_chunk(g: GroupChunk, bytes: Seq<u8>, idx: int) -> Result<
    (u64, u64),
    OgawaError,
> {
    match g.spec_child_at(bytes, idx) {
        ChildSlot::OutOfBounds => Err(OgawaError::InternalError(InternalError::OutOfBounds)),
        ChildSlot::PastEnd => Err(OgawaError::IoError),
        ChildSlot::Value(child) => if spec_is_data(child) {
            if spec_data_load_ok(bytes, child) {
                Ok(
                    (
                        crate::chunks::spec_address_from_child(child),
                        if crate::chunks::spec_address_from_child(child) == 0 {
                            0u64
                        } else {
                            crate::endian::spec_u64_at(
                                bytes,
                                crate::chunks::spec_address_from_child(child) as int,
                            )
                        },
                    ),
                )
            } else {
                Err(OgawaError::IoError)
            }
        } else {
            Err(OgawaError::InternalError(InternalError::GroupChunkReadAsDataChunk))
        },
    }
}

/// What loading logical sample `index` of a property yields on these bytes:
/// out-of-bounds misuse, a fault reaching the sample's data chunk, a
/// typed-array decode fault, or the decoded array.
pub open spec fn spec_load_sample_err(
    g: GroupChunk,
    h: PropertyHeader,
    bytes: Seq<u8>,
    index: u32,
) -> Option<OgawaError> {
    if index >= h.next_sample_index {
        Some(OgawaError::UserError(UserError::OutOfBounds))
    } else {
        let child = PropertyHeader::spec_map_index(
            h.first_changed_index,
            h.last_changed_index,
            index,
        );
        match spec_sample_chunk(g, bytes, child as int) {
            Err(e) => Some(e),
            Ok((p, s)) => spec_pod_array_err(bytes, p, s, h.data_type),
        }
    }
}

/// The decoded array a successful sample load returns.
pub open spec fn spec_load_sample_value(
    g: GroupChunk,
    h: PropertyHeader,
    bytes: Seq<u8>,
    index: u32,
    arr: PodArray,
) -> bool {
    let child = PropertyHeader::spec_map_index(h.first_changed_index, h.last_changed_index, index);
    match spec_sample_chunk(g, bytes, child as int) {
        Err(_) => false,
        Ok((p, s)) => spec_pod_array_value(bytes, p, s, h.data_type, arr),
    }
}

/// Loads logical sample `index` of a scalar or array property backed by
/// group `g` with header `h`.
pub(crate) fn load_sample_impl(g: &GroupChunk, h: &PropertyHeader, index: u32, reader: &ByteReader) -> (r:
    Result<PodArray, OgawaError>)
    requires
        g.wf(),
        h.wf(),
        h.data_type.wf(),
    ensures
        r is Ok <==> spec_load_sample_err(*g, *h, reader@, index) is None,
        r is Err ==> spec_load_sample_err(*g, *h, reader@, index) == Some(r->Err_0),
        r is Ok ==> spec_load_sample_value(*g, *h, reader@, index, r->Ok_0),
{
    if index >= h.next_sample_index {
        return Err(OgawaError::UserError(UserError::OutOfBounds));
    }
    let child = h.map_index(index);
    let data = match g.load_data(reader, child) {
        Ok(d) => d,
        Err(e) => {
            return Err(e);
        },
    };
    data.read_pod_array(&h.data_type, reader)
}

/// The raw byte size of the data chunk holding logical sample `index`.
fn sample_size_impl(g: &GroupChunk, h: &PropertyHeader, index: u32, reader: &ByteReader) -> (r:
    Result<u64, OgawaError>)
    requires
        g.wf(),
        h.wf(),
    ensures
        ({
            let outcome = if index >= h.next_sample_index {
                Err::<(u64, u64), OgawaError>(OgawaError::UserError(UserError::OutOfBounds))
            } else {
                spec_sample_chunk(
                    *g,
                    reader@,
                    PropertyHeader::spec_map_index(
                        h.first_changed_index,
                        h.last_changed_index,
                        index,
                    ) as int,
                )
            };
            match outcome {
                Ok((p, s)) => r is Ok && r->Ok_0 == s,
                Err(e) => r is Err && r->Err_0 == e,
            }
        }),
{
    if index >= h.next_sample_index {
        return Err(OgawaError::UserError(UserError::OutOfBounds));
    }
    let child = h.map_index(index);
    match g.load_data(reader, child) {
        Ok(d) => Ok(d.size),
        Err(e) => Err(e),
    }
}

/// A scalar property: single-value samples behind a group chunk.
#[derive(Debug)]
pub struct ScalarPropertyReader {
    pub group: GroupChunk,
    pub header: PropertyHeader,
}

impl ScalarPropertyReader {
    pub open spec fn wf(self) -> bool {
        self.group.wf() && self.header.wf() && self.header.data_type.wf()
    }

    pub fn new(group: GroupChunk, header: PropertyHeader) -> (r: ScalarPropertyReader)
        ensures
            r.group == group,
            r.header == header,
    {
        ScalarPropertyReader { group, header }
    }

    pub fn name(&self) -> (r: &str)
        ensures
            r@ == self.header.name@,
    {
        self.header.name.as_str()
    }

    /// The number of logical samples.
    pub fn sample_count(&self) -> (r: u32)
        ensures
            r == self.header.next_sample_index,
    {
        self.header.next_sample_index
    }

    /// Whether no sample ever changed: every logical sample then maps to
    /// stored child 0.
    pub fn is_constant(&self) -> (r: bool)
        ensures
            r == (self.header.first_changed_index == 0),
    {
        self.header.first_changed_index == 0
    }

    /// Loads logical sample `index`, remapping it through the
    /// deduplication scheme and decoding the typed-array payload.
    pub fn load_sample(&self, index: u32, reader: &ByteReader) -> (r: Result<PodArray, OgawaError>)
        requires
            self.wf(),
        ensures
            r is Ok <==> spec_load_sample_err(self.group, self.header, reader@, index) is None,
            r is Err ==> spec_load_sample_err(self.group, self.header, reader@, index) == Some(
                r->Err_0,
            ),
            r is Ok ==> spec_load_sample_value(self.group, self.header, reader@, index, r->Ok_0),
    {
        load_sample_impl(&self.group, &self.header, index, reader)
    }

    /// The raw byte size of the data chunk holding logical sample `index`.
    pub fn sample_size(&self, index: u32, reader: &ByteReader) -> (r: Result<u64, OgawaError>)
        requires
            self.wf(),
        ensures
            ({
                let outcome = if index >= self.header.next_sample_index {
                    Err::<(u64, u64), OgawaError>(OgawaError::UserError(UserError::OutOfBounds))
                } else {
                    spec_sample_chunk(
                        self.group,
                        reader@,
                        PropertyHeader::spec_map_index(
                            self.header.first_changed_index,
                            self.header.last_changed_index,
                            index,
                        ) as int,
                    )
                };
                match outcome {
                    Ok((p, s)) => r is Ok && r->Ok_0 == s,
                    Err(e) => r is Err && r->Err_0 == e,
                }
            }),
    {
        sample_size_impl(&self.group, &self.header, index, reader)
    }
}

/// An array property: variable-length samples behind a group chunk.
#[derive(Debug)]
pub struct ArrayPropertyReader {
    pub group: GroupChunk,
    pub header: PropertyHeader,
}

impl ArrayPropertyReader {
    pub open spec fn wf(self) -> bool {
        self.group.wf() && self.header.wf() && self.header.data_type.wf()
    }

    pub fn new(group: GroupChunk, header: PropertyHeader) -> (r: ArrayPropertyReader)
        ensures
            r.group == group,
            r.header == header,
    {
        ArrayPropertyReader { group, header }
    }

    pub fn name(&self) -> (r: &str)
        ensures
            r@ == self.header.name@,
    {
        self.header.name.as_str()
    }

    /// The number of logical samples.
    pub fn sample_count(&self) -> (r: u32)
        ensures
            r == self.header.next_sample_index,
    {
        self.header.next_sample_index
    }

    /// Whether no sample ever changed: every logical sample then maps to
    /// stored child 0.
    pub fn is_constant(&self) -> (r: bool)
        ensures
            r == (self.header.first_changed_index == 0),
    {
        self.header.first_changed_index == 0
    }

    /// Loads logical sample `index`, remapping it through the
    /// deduplication scheme and decoding the typed-array payload.
    pub fn load_sample(&self, index: u32, reader: &ByteReader) -> (r: Result<PodArray, OgawaError>)
        requires
            self.wf(),
        ensures
            r is Ok <==> spec_load_sample_err(self.group, self.header, reader@, index) is None,
            r is Err ==> spec_load_sample_err(self.group, self.header, reader@, index) == Some(
                r->Err_0,
            ),
            r is Ok ==> spec_load_sample_value(self.group, self.header, reader@, index, r->Ok_0),
    {
        load_sample_impl(&self.group, &self.header, index, reader)
    }

    /// The raw byte size of the data chunk holding logical sample `index`.
    pub fn sample_size(&self, index: u32, reader: &ByteReader) -> (r: Result<u64, OgawaError>)
        requires
            self.wf(),
        ensures
            ({
                let outcome = if index >= self.header.next_sample_index {
                    Err::<(u64, u64), OgawaError>(OgawaError::UserError(UserError::OutOfBounds))
                } else {
                    spec_sample_chunk(
                        self.group,
                        reader@,
                        PropertyHeader::spec_map_index(
                            self.header.first_changed_index,
                            self.header.last_changed_index,
                            index,
                        ) as int,
                    )
                };
                match outcome {
                    Ok((p, s)) => r is Ok && r->Ok_0 == s,
                    Err(e) => r is Err && r->Err_0 == e,
                }
            }),
    {
        sample_size_impl(&self.group, &self.header, index, reader)
    }
}

/// Samples of a constant property all load alike: when nothing ever changed
/// (`first == last == 0`), every logical index maps to stored child 0, so
/// every in-range sample resolves to the same data chunk and decodes to the
/// same bytes as logical sample 0.
pub proof fn lemma_constant_property_samples(
    g: GroupChunk,
    h: PropertyHeader,
    bytes: Seq<u8>,
    i: u32,
    j: u32,
)
    requires
        h.wf(),
        h.first_changed_index == 0,
        h.last_changed_index == 0,
        i < h.next_sample_index,
        j < h.next_sample_index,
    ensures
        spec_load_sample_err(g, h, bytes, i) == spec_load_sample_err(g, h, bytes, j),
        forall|arr: PodArray|
            spec_load_sample_value(g, h, bytes, i, arr) == spec_load_sample_value(
                g,
                h,
                bytes,
                j,
                arr,
            ),
{
    assert(PropertyHeader::spec_map_index(0, 0, i) == 0);
    assert(PropertyHeader::spec_map_index(0, 0, j) == 0);
}

} // verus!
