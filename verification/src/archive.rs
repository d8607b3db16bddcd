//! The archive envelope: the magic and version header, the root group with
//! its six fixtures (version, file version, root object group, root
//! metadata, time samplings, indexed metadata), and the root object.
use vstd::prelude::*;
use vstd::string::StringExecFns;
use vstd::utf8::{decode_utf8, valid_utf8};
use crate::chunks::{
    is_data, is_group, spec_address_from_child, spec_data_load_ok, spec_group_fields,
    spec_group_load_ok, spec_is_data, spec_is_group, ChildSlot, DataChunk, GroupChunk,
};
use crate::compound::{spec_header_models, spec_loaded_count};
use crate::endian::{spec_u16_at, spec_u32_at, spec_u64_at};
use crate::error::{OgawaError, ParsingError};
use crate::metadata::{
    read_indexed_meta_data, spec_indexed_meta_from, spec_meta_map, spec_table_models, MetaData,
};
use crate::object::{
    lemma_object_at_group, spec_obj_header_models, spec_object_at, ObjectHeader, ObjectReader,
};
use crate::reader::ByteReader;
use crate::time_sampling::{
    read_time_samplings_and_max, spec_samplings_match, spec_time_samplings_from, TimeSampling,
    DEFAULT_TIME_PER_CYCLE_BITS,
};

verus! {

/// The mathematical content of a decoded archive: the three version values,
/// the root-group position, the root metadata mapping, the time-sampling
/// models, and the full indexed-metadata table models (entry 0 included).
pub type ArchiveModel = (
    (u16, u32, u32),
    u64,
    Map<Seq<char>, Seq<char>>,
    Seq<(u32, u32, u64, Seq<u64>)>,
    Seq<Map<Seq<char>, Seq<char>>>,
);

/// Whether the first five bytes hold the archive magic.
pub open spec fn spec_magic_ok(bytes: Seq<u8>) -> bool {
    bytes[0] == 0x4fu8 && bytes[1] == 0x67u8 && bytes[2] == 0x61u8 && bytes[3] == 0x77u8
        && bytes[4] == 0x61u8
}

/// Reading the u32 held by the version fixture behind data-tagged `c`: the
/// chunk must advertise size 4, and the value is its four payload bytes.
pub open spec fn spec_version_chunk(bytes: Seq<u8>, c: u64) -> Result<u32, OgawaError> {
    if !spec_data_load_ok(bytes, c) {
        Err(OgawaError::IoError)
    } else {
        let p = spec_address_from_child(c);
        let s = if p == 0 {
            0u64
        } else {
            spec_u64_at(bytes, p as int)
        };
        if s != 4 {
            Err(OgawaError::ParsingError(ParsingError::InvalidAlembicFile))
        } else if p + 12 > bytes.len() {
            Err(OgawaError::IoError)
        } else {
            Ok(spec_u32_at(bytes, p + 8))
        }
    }
}

/// Decoding the root metadata fixture behind data-tagged `c`: an empty chunk
/// is the empty dictionary; otherwise the payload must be UTF-8 and is
/// deserialised.
pub open spec fn spec_root_meta(bytes: Seq<u8>, c: u64) -> Result<
    Map<Seq<char>, Seq<char>>,
    OgawaError,
> {
    if !spec_data_load_ok(bytes, c) {
        Err(OgawaError::IoError)
    } else {
        let p = spec_address_from_child(c);
        let s = if p == 0 {
            0u64
        } else {
            spec_u64_at(bytes, p as int)
        };
        if s == 0 {
            Ok(Map::empty())
        } else if s > bytes.len() {
            Err(OgawaError::ParsingError(ParsingError::InvalidAlembicFile))
        } else if p + 8 + s > bytes.len() {
            Err(OgawaError::IoError)
        } else if !valid_utf8(bytes.subrange(p + 8, p + 8 + s)) {
            Err(OgawaError::ParsingError(ParsingError::FromUtf8Error))
        } else {
            Ok(spec_meta_map(decode_utf8(bytes.subrange(p + 8, p + 8 + s))))
        }
    }
}

/// Decoding the time-sampling fixture behind data-tagged `c`: an empty chunk
/// yields the one default sampling.
pub open spec fn spec_samplings_result(bytes: Seq<u8>, c: u64) -> Result<
    Seq<(u32, u32, u64, Seq<u64>)>,
    OgawaError,
> {
    if !spec_data_load_ok(bytes, c) {
        Err(OgawaError::IoError)
    } else {
        let p = spec_address_from_child(c);
        let s = if p == 0 {
            0u64
        } else {
            spec_u64_at(bytes, p as int)
        };
        if s == 0 {
            Ok(seq![(0u32, 1u32, DEFAULT_TIME_PER_CYCLE_BITS, seq![0u64])])
        } else if s > bytes.len() {
            Err(OgawaError::ParsingError(ParsingError::InvalidAlembicFile))
        } else if p + 8 + s > bytes.len() {
            Err(OgawaError::IoError)
        } else {
            spec_time_samplings_from(bytes.subrange(p + 8, p + 8 + s), 0)
        }
    }
}

/// Decoding the indexed-metadata fixture behind data-tagged `c`, yielding
/// the full table models with the reserved empty entry 0 prepended.
pub open spec fn spec_imeta_result(bytes: Seq<u8>, c: u64) -> Result<
    Seq<Map<Seq<char>, Seq<char>>>,
    OgawaError,
> {
    if !spec_data_load_ok(bytes, c) {
        Err(OgawaError::IoError)
    } else {
        let p = spec_address_from_child(c);
        let s = if p == 0 {
            0u64
        } else {
            spec_u64_at(bytes, p as int)
        };
        if s == 0 {
            Ok(seq![Map::<Seq<char>, Seq<char>>::empty()])
        } else if s > bytes.len() {
            Err(OgawaError::ParsingError(ParsingError::InvalidAlembicFile))
        } else if p + 8 + s > bytes.len() {
            Err(OgawaError::IoError)
        } else {
            match spec_indexed_meta_from(bytes.subrange(p + 8, p + 8 + s), 0) {
                Ok(ms) => Ok(seq![Map::<Seq<char>, Seq<char>>::empty()] + ms),
                Err(e) => Err(e),
            }
        }
    }
}

/// The tagged value of root-group child `i`.
pub open spec fn spec_root_child(bytes: Seq<u8>, gpos: u64, i: int) -> u64 {
    spec_u64_at(bytes, gpos + 8 + 8 * i)
}

/// What opening an archive on these bytes yields: the decoded model, or the
/// first fault on the way. The magic must read `Ogawa`; the u16 archive file
/// version must be below 9999; the root group must hold at least six
/// children of kinds data, data, group, data, data, data, fixing the
/// version, file-version, root-object, metadata, time-sampling and
/// indexed-metadata fixtures.
pub open spec fn spec_archive_at(bytes: Seq<u8>) -> Result<ArchiveModel, OgawaError> {
    if bytes.len() < 5 {
        Err(OgawaError::IoError)
    } else if !spec_magic_ok(bytes) {
        Err(OgawaError::ParsingError(ParsingError::UnsupportedAlembicFile))
    } else if bytes.len() < 6 {
        Err(OgawaError::IoError)
    } else if bytes.len() < 8 {
        Err(OgawaError::IoError)
    } else {
        let afv = spec_u16_at(bytes, 6);
        if afv >= 9999 {
            Err(OgawaError::ParsingError(ParsingError::UnsupportedAlembicFile))
        } else if bytes.len() < 16 {
            Err(OgawaError::IoError)
        } else {
            let gpos = spec_u64_at(bytes, 8);
            if !spec_group_load_ok(bytes, gpos, false) {
                Err(OgawaError::IoError)
            } else {
                let count = spec_loaded_count(bytes, gpos);
                if count <= 5 {
                    Err(OgawaError::ParsingError(ParsingError::InvalidAlembicFile))
                } else if !(spec_is_data(spec_root_child(bytes, gpos, 0)) && spec_is_data(
                    spec_root_child(bytes, gpos, 1),
                ) && spec_is_group(spec_root_child(bytes, gpos, 2)) && spec_is_data(
                    spec_root_child(bytes, gpos, 3),
                ) && spec_is_data(spec_root_child(bytes, gpos, 4)) && spec_is_data(
                    spec_root_child(bytes, gpos, 5),
                )) {
                    Err(OgawaError::ParsingError(ParsingError::InvalidAlembicFile))
                } else {
                    match spec_version_chunk(bytes, spec_root_child(bytes, gpos, 0)) {
                        Err(e) => Err(e),
                        Ok(version) => match spec_version_chunk(
                            bytes,
                            spec_root_child(bytes, gpos, 1),
                        ) {
                            Err(e) => Err(e),
                            Ok(ofv) => match spec_root_meta(
                                bytes,
                                spec_root_child(bytes, gpos, 3),
                            ) {
                                Err(e) => Err(e),
                                Ok(meta) => match spec_samplings_result(
                                    bytes,
                                    spec_root_child(bytes, gpos, 4),
                                ) {
                                    Err(e) => Err(e),
                                    Ok(samplings) => match spec_imeta_result(
                                        bytes,
                                        spec_root_child(bytes, gpos, 5),
                                    ) {
                                        Err(e) => Err(e),
                                        Ok(imeta) => Ok(
                                            ((afv, version, ofv), gpos, meta, samplings, imeta),
                                        ),
                                    },
                                },
                            },
                        },
                    }
                }
            }
        }
    }
}

/// The root envelope: the archive's versions, its root group and synthesised
/// root object header, and the archive-wide tables every property and
/// object decoder consults.
#[derive(Debug)]
pub struct Archive {
    pub alembic_file_version: u16,
    pub version: u32,
    pub ogawa_file_version: u32,
    pub root_group: GroupChunk,
    pub root_header: ObjectHeader,
    pub time_samplings: Vec<TimeSampling>,
    pub max_samples: Vec<i64>,
    pub indexed_meta_data: Vec<MetaData>,
}

impl Archive {
    pub open spec fn wf(self) -> bool {
        &&& self.root_group.wf()
        &&& self.root_header.wf()
        &&& forall|i: int|
            0 <= i < self.indexed_meta_data@.len() ==> (
            #[trigger] self.indexed_meta_data@[i]).wf()
    }

    /// Opens an archive over a byte source: checks the magic and version,
    /// loads the root group, validates the six fixtures, and decodes the
    /// archive-wide tables. The root object header is synthesised with name
    /// `ABC`, path `/` and the root metadata.
    pub fn new(reader: &ByteReader) -> (r: Result<Archive, OgawaError>)
        ensures
            r is Ok <==> spec_archive_at(reader@) is Ok,
            r is Err ==> Some(r->Err_0) == Some(spec_archive_at(reader@)->Err_0),
            r is Ok ==> {
                let m = spec_archive_at(reader@)->Ok_0;
                let a = r->Ok_0;
                &&& a.alembic_file_version == m.0.0
                &&& a.version == m.0.1
                &&& a.ogawa_file_version == m.0.2
                &&& spec_group_fields(reader@, m.1, false, a.root_group)
                &&& a.root_header.name@ == "ABC"@
                &&& a.root_header.full_name@ == "/"@
                &&& a.root_header.meta_data.spec_map() == m.2
                &&& spec_samplings_match(a.time_samplings@, a.max_samples@, m.3)
                &&& spec_table_models(a.indexed_meta_data@) == m.4
                &&& a.wf()
            },
    {
        let magic = match reader.read_exact_at(0, 5) {
            Ok(m) => m,
            Err(e) => {
                return Err(e);
            },
        };
        if !(magic[0] == 0x4f && magic[1] == 0x67 && magic[2] == 0x61 && magic[3] == 0x77
            && magic[4] == 0x61) {
            return Err(OgawaError::ParsingError(ParsingError::UnsupportedAlembicFile));
        }
        let _frozen = match reader.read_u8_at(5) {
            Ok(b) => b,
            Err(e) => {
                return Err(e);
            },
        };
        let alembic_file_version = match reader.read_u16_at(6) {
            Ok(v) => v,
            Err(e) => {
                return Err(e);
            },
        };
        if alembic_file_version >= 9999 {
            return Err(OgawaError::ParsingError(ParsingError::UnsupportedAlembicFile));
        }
        let group_pos = match reader.read_u64_at(8) {
            Ok(v) => v,
            Err(e) => {
                return Err(e);
            },
        };
        let root_group = match GroupChunk::load(group_pos, false, reader) {
            Ok(g) => g,
            Err(e) => {
                return Err(e);
            },
        };
        if root_group.child_count <= 5 {
            return Err(OgawaError::ParsingError(ParsingError::InvalidAlembicFile));
        }
        proof {
            assert(root_group.children@.len() == root_group.child_count);
            assert(forall|i: int|
                0 <= i < root_group.child_count ==> root_group.children@[i] == spec_root_child(
                    reader@,
                    group_pos,
                    i,
                ));
        }
        if !(is_data(root_group.children[0]) && is_data(root_group.children[1]) && is_group(
            root_group.children[2],
        ) && is_data(root_group.children[3]) && is_data(root_group.children[4]) && is_data(
            root_group.children[5],
        )) {
            return Err(OgawaError::ParsingError(ParsingError::InvalidAlembicFile));
        }
        let version = match Self::read_version_fixture(root_group.children[0], reader) {
            Ok(v) => v,
            Err(e) => {
                return Err(e);
            },
        };
        let ogawa_file_version = match Self::read_version_fixture(root_group.children[1], reader) {
            Ok(v) => v,
            Err(e) => {
                return Err(e);
            },
        };
        let meta_data = match Self::read_meta_fixture(root_group.children[3], reader) {
            Ok(m) => m,
            Err(e) => {
                return Err(e);
            },
        };
        let data4 = match DataChunk::load(root_group.children[4], reader) {
            Ok(d) => d,
            Err(e) => {
                return Err(e);
            },
        };
        let (time_samplings, max_samples) = match read_time_samplings_and_max(&data4, reader) {
            Ok(t) => t,
            Err(e) => {
                return Err(e);
            },
        };
        let data5 = match DataChunk::load(root_group.children[5], reader) {
            Ok(d) => d,
            Err(e) => {
                return Err(e);
            },
        };
        let indexed_meta_data = match read_indexed_meta_data(&data5, reader) {
            Ok(t) => t,
            Err(e) => {
                return Err(e);
            },
        };
        proof {
            let c5 = spec_root_child(reader@, group_pos, 5);
            match spec_imeta_result(reader@, c5) {
                Ok(ms) => {
                    assert(spec_table_models(indexed_meta_data@) =~= ms);
                },
                Err(_) => {},
            }
        }
        let root_header = ObjectHeader {
            name: String::from_str("ABC"),
            full_name: String::from_str("/"),
            meta_data,
        };
        Ok(
            Archive {
                alembic_file_version,
                version,
                ogawa_file_version,
                root_group,
                root_header,
                time_samplings,
                max_samples,
                indexed_meta_data,
            },
        )
    }

    /// Reads a u32 version fixture behind a data-tagged root child.
    fn read_version_fixture(c: u64, reader: &ByteReader) -> (r: Result<u32, OgawaError>)
        requires
            spec_is_data(c),
        ensures
            match spec_version_chunk(reader@, c) {
                Ok(v) => r is Ok && r->Ok_0 == v,
                Err(e) => r is Err && r->Err_0 == e,
            },
    {
        let data = match DataChunk::load(c, reader) {
            Ok(d) => d,
            Err(e) => {
                return Err(e);
            },
        };
        data.read_u32(0, reader)
    }

    /// Reads and deserialises the root-metadata fixture behind a data-tagged
    /// root child; an empty chunk is the empty dictionary.
    fn read_meta_fixture(c: u64, reader: &ByteReader) -> (r: Result<MetaData, OgawaError>)
        requires
            spec_is_data(c),
        ensures
            match spec_root_meta(reader@, c) {
                Ok(m) => r is Ok && r->Ok_0.spec_map() == m && r->Ok_0.wf(),
                Err(e) => r is Err && r->Err_0 == e,
            },
    {
        let data = match DataChunk::load(c, reader) {
            Ok(d) => d,
            Err(e) => {
                return Err(e);
            },
        };
        if data.size == 0 {
            return Ok(MetaData::new());
        }
        let buf = match data.read(0, data.size, reader) {
            Ok(b) => b,
            Err(e) => {
                return Err(e);
            },
        };
        match MetaData::deserialize_utf8(buf) {
            Ok(m) => Ok(m),
            Err(e) => Err(e),
        }
    }

    /// Loads the archive's root object from root-group child 2.
    pub fn load_root_object(&self, reader: &ByteReader) -> (r: Result<ObjectReader, OgawaError>)
        requires
            self.wf(),
        ensures
            match self.root_group.spec_child_at(reader@, 2) {
                ChildSlot::OutOfBounds => r is Err && r->Err_0 == OgawaError::InternalError(
                    crate::error::InternalError::OutOfBounds,
                ),
                ChildSlot::PastEnd => r is Err && r->Err_0 == OgawaError::IoError,
                ChildSlot::Value(c) => if !spec_is_group(c) {
                    r is Err && r->Err_0 == OgawaError::InternalError(
                        crate::error::InternalError::DataChunkReadAsGroupChunk,
                    )
                } else {
                    let outcome = spec_object_at(
                        reader@,
                        c,
                        Seq::<char>::empty(),
                        spec_table_models(self.indexed_meta_data@),
                        self.time_samplings@.len() as int,
                    );
                    &&& (r is Ok <==> outcome is Ok)
                    &&& r is Err ==> Some(r->Err_0) == Some(outcome->Err_0)
                    &&& r is Ok ==> {
                        let o = r->Ok_0;
                        &&& o.header.model() == self.root_header.model()
                        &&& spec_obj_header_models(o.children@) == outcome->Ok_0.0
                        &&& (match outcome->Ok_0.1 {
                            Some(ms) => o.cp_reader matches Some(cr) && spec_header_models(
                                cr.property_headers@,
                            ) == ms,
                            None => o.cp_reader is None,
                        })
                        &&& o.wf()
                        &&& o.grounded(reader@)
                    }
                },
            },
    {
        let group = match self.root_group.load_group(reader, 2, false) {
            Ok(g) => g,
            Err(e) => {
                return Err(e);
            },
        };
        proof {
            reveal_strlit("");
            assert(""@ =~= Seq::<char>::empty());
            match self.root_group.spec_child_at(reader@, 2) {
                ChildSlot::Value(c) => {
                    lemma_object_at_group(
                        reader@,
                        c,
                        group,
                        Seq::<char>::empty(),
                        spec_table_models(self.indexed_meta_data@),
                        self.time_samplings@.len() as int,
                    );
                },
                _ => {},
            }
        }
        ObjectReader::new(
            group,
            "",
            reader,
            &self.indexed_meta_data,
            &self.time_samplings,
            self.root_header.duplicate(),
        )
    }
}

} // verus!
