//! The object layer: an object owns a compound property root (group child 0,
//! when group-tagged) and a list of named children whose headers live in the
//! object-header block held by the group's last child (when data-tagged).
//! Traversal is lazy: a child object is loaded on demand from its group.
use vstd::prelude::*;
use vstd::string::StringExecFns;
use vstd::utf8::{decode_utf8, valid_utf8};
use crate::chunks::{
    is_data, is_group, spec_address_from_child, spec_data_load_ok, spec_group_fields,
    spec_group_load_ok, spec_is_data, spec_is_group, ChildSlot, DataChunk, GroupChunk,
};
use crate::compound::{
    lemma_compound_at_group, spec_compound_at, spec_header_models, spec_loaded_count,
    CompoundPropertyReader,
};
use crate::endian::{le_u32_at, spec_u32_at, spec_u64_at};
use crate::error::{InternalError, OgawaError, ParsingError, UserError};
use crate::metadata::{spec_meta_of_bytes, spec_table_models, MetaData};
use crate::property::HeaderModel;
use crate::reader::ByteReader;
use crate::text::copy_range;
use crate::time_sampling::TimeSampling;

verus! {

/// An object's identity: its leaf name, its slash-joined absolute path, and
/// its metadata.
#[derive(Debug)]
pub struct ObjectHeader {
    pub name: String,
    pub full_name: String,
    pub meta_data: MetaData,
}

/// The mathematical content of an object header:
/// `(name, full name, metadata mapping)`.
pub type ObjHeaderModel = (Seq<char>, Seq<char>, Map<Seq<char>, Seq<char>>);

impl ObjectHeader {
    pub open spec fn model(self) -> ObjHeaderModel {
        (self.name@, self.full_name@, self.meta_data.spec_map())
    }

    pub open spec fn wf(self) -> bool {
        self.meta_data.wf()
    }

    /// Copies the header, field by field.
    pub fn duplicate(&self) -> (r: ObjectHeader)
        ensures
            r.name@ == self.name@,
            r.full_name@ == self.full_name@,
            r.meta_data@ == self.meta_data@,
            r.model() == self.model(),
            r.wf() == self.wf(),
    {
        ObjectHeader {
            name: self.name.clone(),
            full_name: self.full_name.clone(),
            meta_data: self.meta_data.duplicate(),
        }
    }
}

/// The models of a decoded child-header vector.
pub open spec fn spec_obj_header_models(v: Seq<ObjectHeader>) -> Seq<ObjHeaderModel> {
    Seq::new(v.len(), |i: int| v[i].model())
}

/// Every child header's metadata is well formed.
pub open spec fn spec_obj_headers_ok(v: Seq<ObjectHeader>) -> bool {
    forall|i: int| 0 <= i < v.len() ==> (#[trigger] v[i]).wf()
}

/// Parses the object-header block from byte position `pos` on: repeatedly a
/// u32 name size, the UTF-8 name, a u8 metadata index, and, when that index
/// is 0xff, a u32 size and the inline serialised metadata. Each child's full
/// name is the parent's path, a slash, then its name.
pub open spec fn spec_obj_headers_from(
    b: Seq<u8>,
    pos: int,
    parent: Seq<char>,
    imeta: Seq<Map<Seq<char>, Seq<char>>>,
) -> Result<Seq<ObjHeaderModel>, OgawaError>
    decreases b.len() - pos,
{
    if pos < 0 || pos > b.len() {
        Err(OgawaError::IoError)
    } else if pos == b.len() {
        Ok(Seq::empty())
    } else if pos + 4 > b.len() {
        Err(OgawaError::IoError)
    } else {
        let ns = spec_u32_at(b, pos) as int;
        if pos + 4 + ns > b.len() {
            Err(OgawaError::IoError)
        } else if !valid_utf8(b.subrange(pos + 4, pos + 4 + ns)) {
            Err(OgawaError::ParsingError(ParsingError::FromUtf8Error))
        } else {
            let name = decode_utf8(b.subrange(pos + 4, pos + 4 + ns));
            let full = parent + seq!['/'] + name;
            let p2 = pos + 4 + ns;
            if p2 + 1 > b.len() {
                Err(OgawaError::IoError)
            } else {
                let mi = b[p2] as int;
                if mi == 0xff {
                    if p2 + 5 > b.len() {
                        Err(OgawaError::IoError)
                    } else {
                        let ms = spec_u32_at(b, p2 + 1) as int;
                        if p2 + 5 + ms > b.len() {
                            Err(OgawaError::IoError)
                        } else if !valid_utf8(b.subrange(p2 + 5, p2 + 5 + ms)) {
                            Err(OgawaError::ParsingError(ParsingError::FromUtf8Error))
                        } else {
                            match spec_obj_headers_from(b, p2 + 5 + ms, parent, imeta) {
                                Ok(rest) => Ok(
                                    seq![
                                        (
                                            name,
                                            full,
                                            spec_meta_of_bytes(b.subrange(p2 + 5, p2 + 5 + ms)),
                                        ),
                                    ] + rest,
                                ),
                                Err(e) => Err(e),
                            }
                        }
                    }
                } else if mi < imeta.len() {
                    match spec_obj_headers_from(b, p2 + 1, parent, imeta) {
                        Ok(rest) => Ok(seq![(name, full, imeta[mi])] + rest),
                        Err(e) => Err(e),
                    }
                } else {
                    Err(OgawaError::ParsingError(ParsingError::InvalidAlembicFile))
                }
            }
        }
    }
}

/// What decoding the object-header block behind the data-tagged child value
/// `datav` yields: the last 32 bytes of the payload (per-child hashes) are
/// not part of the block, and a payload of at most 32 bytes holds no
/// children.
pub open spec fn spec_obj_headers_result(
    bytes: Seq<u8>,
    datav: u64,
    parent: Seq<char>,
    imeta: Seq<Map<Seq<char>, Seq<char>>>,
) -> Result<Seq<ObjHeaderModel>, OgawaError> {
    if !spec_data_load_ok(bytes, datav) {
        Err(OgawaError::IoError)
    } else {
        let p = spec_address_from_child(datav);
        let s = if p == 0 {
            0u64
        } else {
            spec_u64_at(bytes, p as int)
        };
        if s <= 32 {
            Ok(Seq::empty())
        } else if s > bytes.len() {
            Err(OgawaError::ParsingError(ParsingError::InvalidAlembicFile))
        } else if p + 8 + (s - 32) > bytes.len() {
            Err(OgawaError::IoError)
        } else {
            spec_obj_headers_from(bytes.subrange(p + 8, p + 8 + (s - 32)), 0, parent, imeta)
        }
    }
}

/// Parses one child header at `pos` of the block buffer.
fn read_one_object_header(
    buf: &Vec<u8>,
    pos: usize,
    parent: &str,
    imeta: &Vec<MetaData>,
) -> (r: Result<(ObjectHeader, usize), OgawaError>)
    requires
        pos < buf@.len(),
        forall|i: int| 0 <= i < imeta@.len() ==> (#[trigger] imeta@[i]).wf(),
    ensures
        ({
            let step = spec_obj_headers_from(buf@, pos as int, parent@, spec_table_models(imeta@));
            match r {
                Ok((h, np)) => {
                    &&& pos < np <= buf@.len()
                    &&& h.wf()
                    &&& (step is Ok <==> spec_obj_headers_from(
                        buf@,
                        np as int,
                        parent@,
                        spec_table_models(imeta@),
                    ) is Ok)
                    &&& step is Ok ==> step->Ok_0 == seq![h.model()]
                        + spec_obj_headers_from(
                        buf@,
                        np as int,
                        parent@,
                        spec_table_models(imeta@),
                    )->Ok_0
                    &&& step is Err ==> step->Err_0 == spec_obj_headers_from(
                        buf@,
                        np as int,
                        parent@,
                        spec_table_models(imeta@),
                    )->Err_0
                },
                Err(e) => step == Err::<Seq<ObjHeaderModel>, OgawaError>(e),
            }
        }),
{
    let n = buf.len();
    if n - pos < 4 {
        return Err(OgawaError::IoError);
    }
    let ns = le_u32_at(buf, pos) as usize;
    if n - (pos + 4) < ns {
        return Err(OgawaError::IoError);
    }
    let seg = copy_range(buf, pos + 4, pos + 4 + ns);
    let name = match crate::text::string_from_utf8(seg) {
        Some(s) => s,
        None => {
            return Err(OgawaError::ParsingError(ParsingError::FromUtf8Error));
        },
    };
    let p2 = pos + 4 + ns;
    if p2 >= n {
        return Err(OgawaError::IoError);
    }
    let mi = buf[p2];
    let (meta_data, end) = if mi == 0xff {
        if n - p2 < 5 {
            return Err(OgawaError::IoError);
        }
        let ms = le_u32_at(buf, p2 + 1) as usize;
        if n - (p2 + 5) < ms {
            return Err(OgawaError::IoError);
        }
        let seg = copy_range(buf, p2 + 5, p2 + 5 + ms);
        match MetaData::deserialize_utf8(seg) {
            Ok(md) => (md, p2 + 5 + ms),
            Err(e) => {
                return Err(e);
            },
        }
    } else if (mi as usize) < imeta.len() {
        (imeta[mi as usize].duplicate(), p2 + 1)
    } else {
        return Err(OgawaError::ParsingError(ParsingError::InvalidAlembicFile));
    };
    let mut full_name = String::from_str(parent);
    full_name.append("/");
    full_name.append(name.as_str());
    proof {
        reveal_strlit("/");
        assert("/"@ =~= seq!['/']);
        assert(full_name@ == parent@ + seq!['/'] + name@);
    }
    Ok((ObjectHeader { name, full_name, meta_data }, end))
}

/// Parses a whole object-header block.
fn parse_object_headers(buf: &Vec<u8>, parent: &str, imeta: &Vec<MetaData>) -> (r: Result<
    Vec<ObjectHeader>,
    OgawaError,
>)
    requires
        forall|i: int| 0 <= i < imeta@.len() ==> (#[trigger] imeta@[i]).wf(),
    ensures
        match spec_obj_headers_from(buf@, 0, parent@, spec_table_models(imeta@)) {
            Ok(models) => r is Ok && spec_obj_header_models(r->Ok_0@) == models
                && spec_obj_headers_ok(r->Ok_0@),
            Err(e) => r is Err && r->Err_0 == e,
        },
{
    let ghost whole = buf@;
    let ghost imodels = spec_table_models(imeta@);
    let size = buf.len();
    let mut out: Vec<ObjectHeader> = Vec::new();
    let mut pos: usize = 0;
    loop
        invariant
            pos <= size,
            size == whole.len(),
            buf@ == whole,
            imodels == spec_table_models(imeta@),
            forall|i: int| 0 <= i < imeta@.len() ==> (#[trigger] imeta@[i]).wf(),
            spec_obj_headers_ok(out@),
            match spec_obj_headers_from(whole, pos as int, parent@, imodels) {
                Ok(rest) => {
                    let full = spec_obj_headers_from(whole, 0, parent@, imodels);
                    &&& full is Ok
                    &&& full->Ok_0.len() == out@.len() + rest.len()
                    &&& spec_obj_header_models(out@) == full->Ok_0.take(out@.len() as int)
                    &&& full->Ok_0.skip(out@.len() as int) == rest
                },
                Err(e) => spec_obj_headers_from(whole, 0, parent@, imodels) == Err::<
                    Seq<ObjHeaderModel>,
                    OgawaError,
                >(e),
            },
        decreases size - pos,
    {
        if pos == size {
            proof {
                let full = spec_obj_headers_from(whole, 0, parent@, imodels);
                assert(full->Ok_0.take(out@.len() as int) =~= full->Ok_0);
            }
            return Ok(out);
        }
        let (header, np) = match read_one_object_header(buf, pos, parent, imeta) {
            Ok(h) => h,
            Err(e) => {
                return Err(e);
            },
        };
        let ghost old_done = out@.len() as int;
        out.push(header);
        pos = np;
        proof {
            let full = spec_obj_headers_from(whole, 0, parent@, imodels);
            match spec_obj_headers_from(whole, pos as int, parent@, imodels) {
                Ok(rest) => {
                    assert(spec_obj_header_models(out@) =~= spec_obj_header_models(
                        out@.take(old_done),
                    ).push(out@[old_done].model()));
                    assert(out@.take(old_done) =~= out@.subrange(0, old_done));
                    assert(spec_obj_header_models(out@.take(old_done)) =~= full->Ok_0.take(
                        old_done,
                    ));
                    assert(full->Ok_0.skip(old_done)[0] == full->Ok_0[old_done]);
                    assert(full->Ok_0.take(old_done + 1) =~= full->Ok_0.take(old_done).push(
                        full->Ok_0[old_done],
                    ));
                    assert(full->Ok_0.skip(old_done).skip(1) =~= full->Ok_0.skip(old_done + 1));
                    assert(spec_obj_header_models(out@) =~= full->Ok_0.take(old_done + 1));
                },
                Err(_) => {},
            }
        }
    }
}

/// What building an object over group `g` yields: its decoded child headers
/// and, when group child 0 is group-tagged, the header models of its
/// compound property root.
pub open spec fn spec_object_outcome(
    bytes: Seq<u8>,
    g: GroupChunk,
    parent: Seq<char>,
    imeta: Seq<Map<Seq<char>, Seq<char>>>,
    n_ts: int,
) -> Result<(Seq<ObjHeaderModel>, Option<Seq<HeaderModel>>), OgawaError> {
    if g.child_count == 0 {
        Ok((Seq::empty(), None))
    } else {
        let headers_r = match g.spec_child_at(bytes, g.child_count - 1) {
            ChildSlot::OutOfBounds => Err(OgawaError::InternalError(InternalError::OutOfBounds)),
            ChildSlot::PastEnd => Err(OgawaError::IoError),
            ChildSlot::Value(c) => if spec_is_data(c) {
                spec_obj_headers_result(bytes, c, parent, imeta)
            } else {
                Ok(Seq::empty())
            },
        };
        match headers_r {
            Err(e) => Err(e),
            Ok(hs) => match g.spec_child_at(bytes, 0) {
                ChildSlot::OutOfBounds => Err(
                    OgawaError::InternalError(InternalError::OutOfBounds),
                ),
                ChildSlot::PastEnd => Err(OgawaError::IoError),
                ChildSlot::Value(c0) => if spec_is_group(c0) {
                    match spec_compound_at(bytes, c0, imeta, n_ts) {
                        Err(e) => Err(e),
                        Ok(ms) => Ok((hs, Some(ms))),
                    }
                } else {
                    Ok((hs, None))
                },
            },
        }
    }
}

/// What building an object over the group chunk at `gpos` yields, as a
/// function of the bytes alone.
pub open spec fn spec_object_at(
    bytes: Seq<u8>,
    gpos: u64,
    parent: Seq<char>,
    imeta: Seq<Map<Seq<char>, Seq<char>>>,
    n_ts: int,
) -> Result<(Seq<ObjHeaderModel>, Option<Seq<HeaderModel>>), OgawaError> {
    if !spec_group_load_ok(bytes, gpos, false) {
        Err(OgawaError::IoError)
    } else {
        let count = spec_loaded_count(bytes, gpos);
        if count == 0 {
            Ok((Seq::empty(), None))
        } else {
            let lastv = spec_u64_at(bytes, gpos + 8 + 8 * (count - 1));
            let headers_r = if spec_is_data(lastv) {
                spec_obj_headers_result(bytes, lastv, parent, imeta)
            } else {
                Ok(Seq::empty())
            };
            match headers_r {
                Err(e) => Err(e),
                Ok(hs) => {
                    let c0 = spec_u64_at(bytes, gpos + 8);
                    if spec_is_group(c0) {
                        match spec_compound_at(bytes, c0, imeta, n_ts) {
                            Err(e) => Err(e),
                            Ok(ms) => Ok((hs, Some(ms))),
                        }
                    } else {
                        Ok((hs, None))
                    }
                },
            }
        }
    }
}

/// On a group just loaded (non-light) at `gpos`, the object outcome is the
/// pure function of the bytes at `gpos`.
pub proof fn lemma_object_at_group(
    bytes: Seq<u8>,
    gpos: u64,
    g: GroupChunk,
    parent: Seq<char>,
    imeta: Seq<Map<Seq<char>, Seq<char>>>,
    n_ts: int,
)
    requires
        spec_group_load_ok(bytes, gpos, false),
        spec_group_fields(bytes, gpos, false, g),
        g.wf(),
    ensures
        spec_object_outcome(bytes, g, parent, imeta, n_ts) == spec_object_at(
            bytes,
            gpos,
            parent,
            imeta,
            n_ts,
        ),
{
    if gpos == 0 {
        assert(g.child_count == 0);
    } else {
        let count = spec_loaded_count(bytes, gpos);
        assert(g.child_count == count);
        if count != 0 {
            assert(g.children@.len() == count);
            assert(!g.spec_is_light());
            assert(g.children@[count - 1] == spec_u64_at(bytes, gpos + 8 + 8 * (count - 1)));
            assert(g.children@[0] == spec_u64_at(bytes, gpos + 8 + 8 * 0));
            assert(g.spec_child_at(bytes, count - 1) == ChildSlot::Value(
                spec_u64_at(bytes, gpos + 8 + 8 * (count - 1)),
            ));
            assert(g.spec_child_at(bytes, 0) == ChildSlot::Value(spec_u64_at(bytes, gpos + 8)));
        }
    }
}

/// An object: its header, the group chunk backing it, its compound property
/// root when present, and the headers of its named children.
#[derive(Debug)]
pub struct ObjectReader {
    pub header: ObjectHeader,
    pub group: GroupChunk,
    pub cp_reader: Option<CompoundPropertyReader>,
    pub children: Vec<ObjectHeader>,
}

impl ObjectReader {
    pub open spec fn wf(self) -> bool {
        &&& self.group.wf()
        &&& self.header.wf()
        &&& spec_obj_headers_ok(self.children@)
        &&& self.cp_reader matches Some(c) ==> c.wf()
    }

    /// The property root, when present, is exactly what a non-light load at
    /// its position yields: the shape of every object the library builds.
    pub open spec fn grounded(self, bytes: Seq<u8>) -> bool {
        match self.cp_reader {
            Some(c) => c.grounded(bytes),
            None => true,
        }
    }

    /// Builds an object over a loaded group chunk: decodes the child-header
    /// block behind the last child when that child is a data chunk, and the
    /// compound property root behind child 0 when that child is a group.
    #[verifier::rlimit(100)]
    pub fn new(
        group: GroupChunk,
        parent_name: &str,
        reader: &ByteReader,
        indexed_meta_data: &Vec<MetaData>,
        time_samplings: &Vec<TimeSampling>,
        header: ObjectHeader,
    ) -> (r: Result<ObjectReader, OgawaError>)
        requires
            group.wf(),
            header.wf(),
            forall|i: int|
                0 <= i < indexed_meta_data@.len() ==> (#[trigger] indexed_meta_data@[i]).wf(),
        ensures
            ({
                let outcome = spec_object_outcome(
                    reader@,
                    group,
                    parent_name@,
                    spec_table_models(indexed_meta_data@),
                    time_samplings@.len() as int,
                );
                &&& (r is Ok <==> outcome is Ok)
                &&& r is Err ==> Some(r->Err_0) == Some(outcome->Err_0)
                &&& r is Ok ==> {
                    let o = r->Ok_0;
                    &&& o.group == group
                    &&& o.header.model() == header.model()
                    &&& spec_obj_header_models(o.children@) == outcome->Ok_0.0
                    &&& (match outcome->Ok_0.1 {
                        Some(ms) => o.cp_reader matches Some(cr) && spec_header_models(
                            cr.property_headers@,
                        ) == ms && cr.header.meta_data.spec_map() == header.meta_data.spec_map(),
                        None => o.cp_reader is None,
                    })
                    &&& o.wf()
                    &&& o.grounded(reader@)
                }
            }),
    {
        let n_ts = time_samplings.len();
        let mut children: Vec<ObjectHeader> = Vec::new();
        let mut cp_reader: Option<CompoundPropertyReader> = None;
        if group.child_count > 0 {
            let _len_us = reader.size_usize();
            let _cl = group.children.len();
            if group.child_count - 1 > (usize::MAX as u64) {
                proof {
                    assert(group.spec_is_light());
                    assert(group.spec_child_at(reader@, group.child_count - 1)
                        == ChildSlot::PastEnd);
                }
                return Err(OgawaError::IoError);
            }
            let last_idx = (group.child_count - 1) as usize;
            let lastv = match group.child_value(reader, last_idx) {
                Ok(c) => c,
                Err(e) => {
                    return Err(e);
                },
            };
            if is_data(lastv) {
                let data = match DataChunk::load(lastv, reader) {
                    Ok(d) => d,
                    Err(e) => {
                        return Err(e);
                    },
                };
                if data.size > 32 {
                    let buf = match data.read(0, data.size - 32, reader) {
                        Ok(b) => b,
                        Err(e) => {
                            return Err(e);
                        },
                    };
                    children = match parse_object_headers(&buf, parent_name, indexed_meta_data) {
                        Ok(h) => h,
                        Err(e) => {
                            return Err(e);
                        },
                    };
                }
            }
            let c0 = match group.child_value(reader, 0) {
                Ok(c) => c,
                Err(e) => {
                    return Err(e);
                },
            };
            if is_group(c0) {
                let child_group = match GroupChunk::load(c0, false, reader) {
                    Ok(g) => g,
                    Err(e) => {
                        return Err(e);
                    },
                };
                proof {
                    lemma_compound_at_group(
                        reader@,
                        c0,
                        child_group,
                        spec_table_models(indexed_meta_data@),
                        n_ts as int,
                    );
                }
                let cr = match CompoundPropertyReader::new(
                    child_group,
                    header.meta_data.duplicate(),
                    reader,
                    indexed_meta_data,
                    time_samplings,
                ) {
                    Ok(c) => c,
                    Err(e) => {
                        return Err(e);
                    },
                };
                proof {
                    if c0 == 0 {
                        assert(cr.group.position == 0);
                    } else {
                        assert(cr.group.position == c0);
                    }
                    assert(cr.grounded(reader@));
                }
                cp_reader = Some(cr);
            }
        }
        Ok(ObjectReader { header, group, cp_reader, children })
    }

    /// The number of named children.
    pub fn child_count(&self) -> (r: usize)
        ensures
            r == self.children@.len(),
    {
        self.children.len()
    }

    /// The object's compound property root, when it has one.
    pub fn properties(&self) -> (r: Option<&CompoundPropertyReader>)
        ensures
            match r {
                Some(c) => self.cp_reader matches Some(c2) && *c == c2,
                None => self.cp_reader is None,
            },
    {
        self.cp_reader.as_ref()
    }

    /// Loads child `index`: group child `index + 1` (child 0 holding the
    /// properties) read as a group and decoded as an object whose parent
    /// path is this object's full name.
    pub fn load_child(
        &self,
        index: usize,
        reader: &ByteReader,
        indexed_meta_data: &Vec<MetaData>,
        time_samplings: &Vec<TimeSampling>,
    ) -> (r: Result<ObjectReader, OgawaError>)
        requires
            self.wf(),
            index < usize::MAX,
            forall|i: int|
                0 <= i < indexed_meta_data@.len() ==> (#[trigger] indexed_meta_data@[i]).wf(),
        ensures
            index >= self.children@.len() ==> r is Err && r->Err_0 == OgawaError::UserError(
                UserError::OutOfBounds,
            ),
            index < self.children@.len() ==> {
                let h = self.children@[index as int];
                match self.group.spec_child_at(reader@, index + 1) {
                    ChildSlot::OutOfBounds => r is Err && r->Err_0 == OgawaError::InternalError(
                        InternalError::OutOfBounds,
                    ),
                    ChildSlot::PastEnd => r is Err && r->Err_0 == OgawaError::IoError,
                    ChildSlot::Value(c) => if !spec_is_group(c) {
                        r is Err && r->Err_0 == OgawaError::InternalError(
                            InternalError::DataChunkReadAsGroupChunk,
                        )
                    } else {
                        let outcome = spec_object_at(
                            reader@,
                            c,
                            h.full_name@,
                            spec_table_models(indexed_meta_data@),
                            time_samplings@.len() as int,
                        );
                        &&& (r is Ok <==> outcome is Ok)
                        &&& r is Err ==> Some(r->Err_0) == Some(outcome->Err_0)
                        &&& r is Ok ==> {
                            let o = r->Ok_0;
                            &&& o.header.model() == h.model()
                            &&& spec_obj_header_models(o.children@) == outcome->Ok_0.0
                            &&& (match outcome->Ok_0.1 {
                                Some(ms) => o.cp_reader matches Some(cr) && spec_header_models(
                                    cr.property_headers@,
                                ) == ms,
                                None => o.cp_reader is None,
                            })
                            &&& o.wf()
                            &&& o.grounded(reader@)
                        }
                    },
                }
            },
    {
        if index >= self.children.len() {
            return Err(OgawaError::UserError(UserError::OutOfBounds));
        }
        let child_group = match self.group.load_group(reader, index + 1, false) {
            Ok(g) => g,
            Err(e) => {
                return Err(e);
            },
        };
        proof {
            match self.group.spec_child_at(reader@, index + 1) {
                ChildSlot::Value(c) => {
                    lemma_object_at_group(
                        reader@,
                        c,
                        child_group,
                        self.children@[index as int].full_name@,
                        spec_table_models(indexed_meta_data@),
                        time_samplings@.len() as int,
                    );
                },
                _ => {},
            }
        }
        ObjectReader::new(
            child_group,
            self.children[index].full_name.as_str(),
            reader,
            indexed_meta_data,
            time_samplings,
            self.children[index].duplicate(),
        )
    }
}

/// Loading the same child twice yields equal decoded content: the object
/// outcome is a pure function of the byte source, the group position, the
/// parent path and the archive tables, so two objects built from them carry
/// equal header models, equal child-header models and equal property-root
/// header models.
pub proof fn lemma_traversal_idempotent(
    bytes: Seq<u8>,
    gpos: u64,
    parent: Seq<char>,
    imeta: Seq<Map<Seq<char>, Seq<char>>>,
    n_ts: int,
    o1: ObjectReader,
    o2: ObjectReader,
)
    requires
        spec_object_at(bytes, gpos, parent, imeta, n_ts) is Ok,
        spec_obj_header_models(o1.children@) == spec_object_at(
            bytes,
            gpos,
            parent,
            imeta,
            n_ts,
        )->Ok_0.0,
        spec_obj_header_models(o2.children@) == spec_object_at(
            bytes,
            gpos,
            parent,
            imeta,
            n_ts,
        )->Ok_0.0,
        o1.header.model() == o2.header.model(),
        match spec_object_at(bytes, gpos, parent, imeta, n_ts)->Ok_0.1 {
            Some(ms) => (o1.cp_reader matches Some(c1) && spec_header_models(c1.property_headers@)
                == ms) && (o2.cp_reader matches Some(c2) && spec_header_models(c2.property_headers@)
                == ms),
            None => o1.cp_reader is None && o2.cp_reader is None,
        },
    ensures
        spec_obj_header_models(o1.children@) == spec_obj_header_models(o2.children@),
        o1.children@.len() == o2.children@.len(),
        forall|i: int|
            0 <= i < o1.children@.len() ==> (#[trigger] o1.children@[i]).model()
                == o2.children@[i].model(),
        (o1.cp_reader is Some) == (o2.cp_reader is Some),
        o1.cp_reader matches Some(c1) ==> (o2.cp_reader matches Some(c2)
            && spec_header_models(c1.property_headers@) == spec_header_models(
            c2.property_headers@,
        )),
{
    assert(spec_obj_header_models(o1.children@).len() == o1.children@.len());
    assert(spec_obj_header_models(o2.children@).len() == o2.children@.len());
    assert(forall|i: int|
        0 <= i < o1.children@.len() ==> (#[trigger] o1.children@[i]).model()
            == spec_obj_header_models(o1.children@)[i]);
    assert(forall|i: int|
        0 <= i < o2.children@.len() ==> (#[trigger] o2.children@[i]).model()
            == spec_obj_header_models(o2.children@)[i]);
}

} // verus!
