//! The chunk layer: the two on-disk chunk kinds, group and data, loaded from
//! offsets whose high bit tags their kind. A group is a count-prefixed vector
//! of tagged child offsets; a data chunk is a length-prefixed byte payload.
use vstd::prelude::*;
use crate::endian::spec_u64_at;
use crate::error::{InternalError, OgawaError, ParsingError};
use crate::reader::ByteReader;

verus! {

/// Bit 63 clear: the value is the absolute offset of a group chunk.
pub open spec fn spec_is_group(value: u64) -> bool {
    value & 0x8000_0000_0000_0000 == 0
}

/// Bit 63 set: the value, with that bit masked off, is the absolute offset of
/// a data chunk.
pub open spec fn spec_is_data(value: u64) -> bool {
    !spec_is_group(value)
}

/// The all-zero value denotes an empty group.
pub open spec fn spec_is_empty_group(value: u64) -> bool {
    value == 0
}

/// The value with only bit 63 set denotes an empty data chunk.
pub open spec fn spec_is_empty_data(value: u64) -> bool {
    value == 0x8000_0000_0000_0000u64
}

/// The absolute byte offset carried by a tagged child value.
pub open spec fn spec_address_from_child(child: u64) -> u64 {
    child & 0x7fff_ffff_ffff_ffff
}

pub fn is_group(value: u64) -> (r: bool)
    ensures
        r == spec_is_group(value),
{
    value & 0x8000_0000_0000_0000 == 0
}

pub fn is_data(value: u64) -> (r: bool)
    ensures
        r == spec_is_data(value),
{
    !is_group(value)
}

pub fn is_empty_group(value: u64) -> (r: bool)
    ensures
        r == spec_is_empty_group(value),
{
    value == 0
}

pub fn is_empty_data(value: u64) -> (r: bool)
    ensures
        r == spec_is_empty_data(value),
{
    value == 0x8000_0000_0000_0000
}

pub fn address_from_child(child: u64) -> (r: u64)
    ensures
        r == spec_address_from_child(child),
{
    child & 0x7fff_ffff_ffff_ffff
}

/// Every offset value is tagged as exactly one of group or data; the empty
/// sentinels carry their kinds; masking bit 63 off recovers the address, and
/// a group-tagged value is its own address.
pub proof fn lemma_offset_tag(value: u64)
    ensures
        spec_is_group(value) != spec_is_data(value),
        spec_is_empty_group(0),
        spec_is_empty_data(0x8000_0000_0000_0000),
        spec_is_empty_group(value) ==> spec_is_group(value),
        spec_is_empty_data(value) ==> spec_is_data(value),
        spec_address_from_child(value) == value & 0x7fff_ffff_ffff_ffff,
        spec_is_group(value) ==> spec_address_from_child(value) == value,
        spec_is_data(value) ==> value == spec_address_from_child(value) + 0x8000_0000_0000_0000,
{
    assert(spec_is_empty_data(value) ==> spec_is_data(value)) by (bit_vector);
    assert(spec_is_group(value) ==> value & 0x7fff_ffff_ffff_ffff == value) by (bit_vector);
    assert(!spec_is_group(value) ==> value == (value & 0x7fff_ffff_ffff_ffff)
        + 0x8000_0000_0000_0000) by (bit_vector);
}

/// Where a child offset of a group resolves: to a tagged value, to an index
/// out of bounds, or to a slot that lies past the end of the byte source (a
/// light group reads its slots on demand).
pub enum ChildSlot {
    Value(u64),
    OutOfBounds,
    PastEnd,
}

/// A group chunk: at `position`, a u64 child count followed by that many
/// tagged u64 child offsets. A light group retains only position and count
/// and reads child offsets on demand.
#[derive(Debug, Clone)]
pub struct GroupChunk {
    pub position: u64,
    pub child_count: u64,
    pub children: Vec<u64>,
}

/// Whether loading a group at `group_pos` succeeds on these bytes.
pub open spec fn spec_group_load_ok(bytes: Seq<u8>, group_pos: u64, is_light: bool) -> bool {
    spec_is_empty_group(group_pos) || {
        &&& group_pos + 8 <= bytes.len()
        &&& {
            let count = spec_u64_at(bytes, group_pos as int) as int;
            ||| count == 0
            ||| count > bytes.len() as int / 8
            ||| (is_light && count >= 9)
            ||| group_pos + 8 + 8 * count <= bytes.len()
        }
    }
}

/// The fields a group loaded at `group_pos` from these bytes must hold.
pub open spec fn spec_group_fields(bytes: Seq<u8>, group_pos: u64, is_light: bool, g: GroupChunk) -> bool {
    if spec_is_empty_group(group_pos) {
        g.position == 0 && g.child_count == 0 && g.children@ == Seq::<u64>::empty()
    } else {
        let count = spec_u64_at(bytes, group_pos as int);
        &&& g.position == group_pos
        &&& if count == 0 || count as int > bytes.len() as int / 8 {
            g.child_count == 0 && g.children@ == Seq::<u64>::empty()
        } else {
            &&& g.child_count == count
            &&& if !is_light || count < 9 {
                g.children@ == Seq::new(count as nat, |i: int| spec_u64_at(bytes, group_pos + 8 + 8 * i))
            } else {
                g.children@ == Seq::<u64>::empty()
            }
        }
    }
}

impl GroupChunk {
    /// Shape every loaded group satisfies: the child vector is either
    /// materialised in full or empty, and the count never exceeds what any
    /// byte source could hold.
    pub open spec fn wf(self) -> bool {
        &&& self.children@.len() == self.child_count || self.children@.len() == 0
        &&& self.child_count <= 0x1fff_ffff_ffff_ffffu64
    }

    /// A light group defers its child offsets: it knows their count but has
    /// not materialised them.
    pub open spec fn spec_is_light(self) -> bool {
        self.child_count != 0 && self.children@.len() == 0
    }

    pub fn is_light(&self) -> (r: bool)
        ensures
            r == self.spec_is_light(),
    {
        self.child_count != 0 && self.children.len() == 0
    }

    /// How child `index` of this group resolves on these bytes.
    pub open spec fn spec_child_at(self, bytes: Seq<u8>, index: int) -> ChildSlot {
        if self.spec_is_light() {
            if 0 <= index < self.child_count as int {
                if self.position + 8 + 8 * index + 8 <= bytes.len() {
                    ChildSlot::Value(spec_u64_at(bytes, self.position + 8 + 8 * index))
                } else {
                    ChildSlot::PastEnd
                }
            } else {
                ChildSlot::OutOfBounds
            }
        } else {
            if 0 <= index < self.children@.len() {
                ChildSlot::Value(self.children@[index])
            } else {
                ChildSlot::OutOfBounds
            }
        }
    }

    /// Loads the group chunk at `group_pos`. The empty-group sentinel yields a
    /// zero-child group at position 0; a zero or oversized child count yields
    /// a zero-child group at the original position; a light load with nine or
    /// more children defers the child vector.
    pub fn load(group_pos: u64, is_light: bool, reader: &ByteReader) -> (r: Result<
        GroupChunk,
        OgawaError,
    >)
        ensures
            r is Ok <==> spec_group_load_ok(reader@, group_pos, is_light),
            r is Ok ==> spec_group_fields(reader@, group_pos, is_light, r->Ok_0) && r->Ok_0.wf(),
            r is Err ==> r->Err_0 == OgawaError::IoError,
    {
        if is_empty_group(group_pos) {
            return Ok(GroupChunk { position: 0, child_count: 0, children: Vec::new() });
        }
        let child_count = match reader.read_u64_at(group_pos) {
            Ok(c) => c,
            Err(e) => { return Err(e); },
        };
        if child_count > reader.size() / 8 || child_count == 0 {
            return Ok(GroupChunk { position: group_pos, child_count: 0, children: Vec::new() });
        }
        if !is_light || child_count < 9 {
            // the count is bounded by size / 8, so these positions cannot
            // overflow a u128
            let end: u128 = group_pos as u128 + 8 + 8 * child_count as u128;
            if end > reader.size() as u128 {
                return Err(OgawaError::IoError);
            }
            let mut children: Vec<u64> = Vec::new();
            let mut i: u64 = 0;
            while i < child_count
                invariant
                    i <= child_count,
                    group_pos + 8 + 8 * child_count <= reader@.len(),
                    reader@.len() <= u64::MAX,
                    children@ == Seq::new(i as nat, |j: int| spec_u64_at(reader@, group_pos + 8 + 8 * j)),
                decreases child_count - i,
            {
                let child = match reader.read_u64_at(group_pos + 8 + 8 * i) {
                    Ok(c) => c,
                    Err(_) => {
                        proof {
                            assert(false);
                        }
                        return Err(OgawaError::IoError);
                    },
                };
                children.push(child);
                i = i + 1;
                proof {
                    assert(children@ =~= Seq::new(i as nat, |j: int| spec_u64_at(reader@, group_pos + 8 + 8 * j)));
                }
            }
            Ok(GroupChunk { position: group_pos, child_count, children })
        } else {
            Ok(GroupChunk { position: group_pos, child_count, children: Vec::new() })
        }
    }

    /// Loads child `index` as a group chunk. A data-tagged child is refused;
    /// an out-of-range index is refused.
    pub fn load_group(&self, reader: &ByteReader, index: usize, is_light: bool) -> (r: Result<
        GroupChunk,
        OgawaError,
    >)
        requires
            self.wf(),
        ensures
            match self.spec_child_at(reader@, index as int) {
                ChildSlot::OutOfBounds => r is Err && r->Err_0 == OgawaError::InternalError(
                    InternalError::OutOfBounds,
                ),
                ChildSlot::PastEnd => r is Err && r->Err_0 == OgawaError::IoError,
                ChildSlot::Value(child) => if spec_is_group(child) {
                    &&& (r is Ok <==> spec_group_load_ok(reader@, child, is_light))
                    &&& r is Ok ==> spec_group_fields(reader@, child, is_light, r->Ok_0)
                        && r->Ok_0.wf()
                    &&& r is Err ==> r->Err_0 == OgawaError::IoError
                } else {
                    r is Err && r->Err_0 == OgawaError::InternalError(
                        InternalError::DataChunkReadAsGroupChunk,
                    )
                },
            },
    {
        match self.child_value(reader, index) {
            Ok(child) => {
                if is_group(child) {
                    GroupChunk::load(child, is_light, reader)
                } else {
                    Err(OgawaError::InternalError(InternalError::DataChunkReadAsGroupChunk))
                }
            },
            Err(e) => Err(e),
        }
    }

    /// Loads child `index` as a data chunk. A group-tagged child is refused;
    /// an out-of-range index is refused.
    pub fn load_data(&self, reader: &ByteReader, index: usize) -> (r: Result<
        DataChunk,
        OgawaError,
    >)
        requires
            self.wf(),
        ensures
            match self.spec_child_at(reader@, index as int) {
                ChildSlot::OutOfBounds => r is Err && r->Err_0 == OgawaError::InternalError(
                    InternalError::OutOfBounds,
                ),
                ChildSlot::PastEnd => r is Err && r->Err_0 == OgawaError::IoError,
                ChildSlot::Value(child) => if spec_is_data(child) {
                    &&& (r is Ok <==> spec_data_load_ok(reader@, child))
                    &&& r is Ok ==> spec_data_fields(reader@, child, r->Ok_0)
                    &&& r is Err ==> r->Err_0 == OgawaError::IoError
                } else {
                    r is Err && r->Err_0 == OgawaError::InternalError(
                        InternalError::GroupChunkReadAsDataChunk,
                    )
                },
            },
    {
        match self.child_value(reader, index) {
            Ok(child) => {
                if is_data(child) {
                    DataChunk::load(child, reader)
                } else {
                    Err(OgawaError::InternalError(InternalError::GroupChunkReadAsDataChunk))
                }
            },
            Err(e) => Err(e),
        }
    }

    /// Resolves child `index` to its tagged offset value: from the
    /// materialised vector, or, on a light group, by a direct read of the one
    /// slot at `position + 8 * (index + 1)`.
    pub(crate) fn child_value(&self, reader: &ByteReader, index: usize) -> (r: Result<u64, OgawaError>)
        requires
            self.wf(),
        ensures
            match self.spec_child_at(reader@, index as int) {
                ChildSlot::OutOfBounds => r is Err && r->Err_0 == OgawaError::InternalError(
                    InternalError::OutOfBounds,
                ),
                ChildSlot::PastEnd => r is Err && r->Err_0 == OgawaError::IoError,
                ChildSlot::Value(child) => r is Ok && r->Ok_0 == child,
            },
    {
        if self.is_light() {
            if (index as u64) < self.child_count {
                let slot: u128 = self.position as u128 + 8 + 8 * index as u128;
                if slot + 8 > reader.size() as u128 {
                    return Err(OgawaError::IoError);
                }
                reader.read_u64_at(slot as u64)
            } else {
                Err(OgawaError::InternalError(InternalError::OutOfBounds))
            }
        } else {
            if index < self.children.len() {
                Ok(self.children[index])
            } else {
                Err(OgawaError::InternalError(InternalError::OutOfBounds))
            }
        }
    }
}

/// Whether loading a data chunk from tagged value `child` succeeds on these
/// bytes.
pub open spec fn spec_data_load_ok(bytes: Seq<u8>, child: u64) -> bool {
    spec_address_from_child(child) == 0 || spec_address_from_child(child) + 8 <= bytes.len()
}

/// The fields a data chunk loaded from tagged value `child` must hold:
/// position is the masked address; size is zero at position zero, else the
/// u64 stored there.
pub open spec fn spec_data_fields(bytes: Seq<u8>, child: u64, d: DataChunk) -> bool {
    &&& d.position == spec_address_from_child(child)
    &&& d.size == if spec_address_from_child(child) == 0 {
        0u64
    } else {
        spec_u64_at(bytes, spec_address_from_child(child) as int)
    }
}

/// A data chunk: at `position`, a u64 payload length followed by that many
/// payload bytes. Size zero denotes an empty data chunk.
#[derive(Debug, Clone)]
pub struct DataChunk {
    pub position: u64,
    pub size: u64,
}

impl DataChunk {
    /// Loads the data chunk whose tagged offset is `position`: masks the tag
    /// bit off and reads the payload length stored at the address.
    pub fn load(position: u64, reader: &ByteReader) -> (r: Result<DataChunk, OgawaError>)
        ensures
            r is Ok <==> spec_data_load_ok(reader@, position),
            r is Ok ==> spec_data_fields(reader@, position, r->Ok_0),
            r is Err ==> r->Err_0 == OgawaError::IoError,
    {
        let position = address_from_child(position);
        if position != 0 {
            let size = match reader.read_u64_at(position) {
                Ok(s) => s,
                Err(e) => { return Err(e); },
            };
            Ok(DataChunk { position, size })
        } else {
            Ok(DataChunk { position: 0, size: 0 })
        }
    }

    /// Reads `n` payload bytes starting `offset` bytes into the payload,
    /// which begins 8 bytes past `position`. An empty chunk, or an offset
    /// whose sum with the chunk size passes the end of the byte source, is
    /// refused as malformed.
    pub fn read(&self, offset: u64, n: u64, reader: &ByteReader) -> (r: Result<
        Vec<u8>,
        OgawaError,
    >)
        ensures
            self.size == 0 || offset + self.size > reader@.len() ==> r is Err && r->Err_0
                == OgawaError::ParsingError(ParsingError::InvalidAlembicFile),
            self.size != 0 && offset + self.size <= reader@.len() ==> {
                &&& (r is Ok <==> self.position + offset + 8 + n <= reader@.len())
                &&& r is Ok ==> r->Ok_0@ == reader@.subrange(
                    self.position + offset + 8,
                    self.position + offset + 8 + n,
                )
                &&& r is Err ==> r->Err_0 == OgawaError::IoError
            },
    {
        let off_end: u128 = offset as u128 + self.size as u128;
        if self.size == 0 || off_end > reader.size() as u128 {
            return Err(OgawaError::ParsingError(ParsingError::InvalidAlembicFile));
        }
        let start: u128 = self.position as u128 + offset as u128 + 8;
        if start + n as u128 > reader.size() as u128 {
            return Err(OgawaError::IoError);
        }
        reader.read_exact_at(start as u64, n)
    }

    /// Reads the u32 stored `offset` bytes into the payload, which begins 8
    /// bytes past `position`; the chunk must advertise size 4.
    pub fn read_u32(&self, offset: u64, reader: &ByteReader) -> (r: Result<u32, OgawaError>)
        ensures
            self.size != 4 ==> r is Err && r->Err_0 == OgawaError::ParsingError(
                ParsingError::InvalidAlembicFile,
            ),
            self.size == 4 ==> {
                &&& (r is Ok <==> self.position + offset + 8 + 4 <= reader@.len())
                &&& r is Ok ==> r->Ok_0 == crate::endian::spec_u32_at(
                    reader@,
                    self.position + offset + 8,
                )
                &&& r is Err ==> r->Err_0 == OgawaError::IoError
            },
    {
        if self.size != 4 {
            return Err(OgawaError::ParsingError(ParsingError::InvalidAlembicFile));
        }
        let pos: u128 = self.position as u128 + offset as u128 + 8;
        if pos + 4 > reader.size() as u128 {
            return Err(OgawaError::IoError);
        }
        reader.read_u32_at(pos as u64)
    }
}

/// A chunk of either kind.
pub enum Chunk {
    Group(GroupChunk),
    Data(DataChunk),
}

} // verus!
