//! The generic bounded-geometry schema: any geometric object carries a
//! scalar `.selfBnds` property of six doubles, its axis-aligned bounds.
use vstd::prelude::*;
use crate::archive::Archive;
use crate::compound::{
    spec_compound_at, spec_find_last, spec_required_err_at, spec_sub_err_at,
    CompoundPropertyReader, PropertyReader,
};
use crate::endian::spec_u64_at;
use crate::error::{OgawaError, ParsingError};
use crate::pod::{DataType, PodArray, PodType};
use crate::property::{
    spec_load_sample_err, spec_sample_chunk, PropertyHeader, PropertyType, ScalarPropertyReader,
};
use crate::reader::ByteReader;
use crate::typed_array::spec_count;

verus! {

/// An axis-aligned bounding box: the minimum and maximum corner, each three
/// `f64` values carried as little-endian bit patterns.
#[derive(Debug, Clone, Copy, PartialEq, Eq)]
pub struct BoundingBox {
    pub min: [u64; 3],
    pub max: [u64; 3],
}

/// Where an object's geometry compound lives: group child 0 of its
/// property root.
pub open spec fn spec_geom_pos(object: crate::object::ObjectReader, bytes: Seq<u8>) -> u64 {
    match object.cp_reader {
        Some(props) => crate::endian::spec_u64_at(bytes, props.group.position + 8),
        None => 0,
    }
}

/// Why reaching an object's geometry compound fails — or `None` when it
/// loads: the object must have a property root whose first sub-property is
/// a compound, and that compound's group and header block must decode.
pub open spec fn spec_geom_prefix_err(
    object: crate::object::ObjectReader,
    bytes: Seq<u8>,
    imodels: Seq<Map<Seq<char>, Seq<char>>>,
    n_ts: int,
) -> Option<OgawaError> {
    match object.cp_reader {
        None => Some(OgawaError::ParsingError(ParsingError::IncompatibleSchema)),
        Some(props) => {
            let phs = crate::compound::spec_header_models(props.property_headers@);
            match spec_sub_err_at(bytes, props.group.position, phs, 0, imodels, n_ts) {
                Some(e) => Some(e),
                None => if phs[0].0.1 is Compound {
                    None
                } else {
                    Some(OgawaError::ParsingError(ParsingError::IncompatibleSchema))
                },
            }
        },
    }
}

/// Loads the compound property holding an object's typed data: sub-property
/// 0 of the object's property root, which must be a compound. Succeeds
/// exactly when `spec_geom_prefix_err` is silent.
pub(crate) fn load_geom_compound(
    object: &crate::object::ObjectReader,
    reader: &ByteReader,
    archive: &Archive,
) -> (r: Result<CompoundPropertyReader, OgawaError>)
    requires
        object.wf(),
        object.grounded(reader@),
        archive.wf(),
    ensures
        ({
            let imodels = crate::metadata::spec_table_models(archive.indexed_meta_data@);
            let n_ts = archive.time_samplings@.len() as int;
            let prefix = spec_geom_prefix_err(*object, reader@, imodels, n_ts);
            &&& (r is Ok <==> prefix is None)
            &&& (r is Err ==> Some(r->Err_0) == prefix)
            &&& r is Ok ==> ({
                let c = r->Ok_0;
                &&& c.wf()
                &&& c.grounded(reader@)
                &&& c.group.position == spec_geom_pos(*object, reader@)
                &&& crate::compound::spec_header_models(c.property_headers@) == spec_compound_at(
                    reader@,
                    spec_geom_pos(*object, reader@),
                    imodels,
                    n_ts,
                )->Ok_0
            })
        }),
{
    let props = match object.properties() {
        Some(p) => p,
        None => {
            return Err(OgawaError::ParsingError(ParsingError::IncompatibleSchema));
        },
    };
    let sub = match props.load_sub_property(
        0,
        reader,
        &archive.indexed_meta_data,
        &archive.time_samplings,
    ) {
        Ok(s) => s,
        Err(e) => {
            proof {
                props.lemma_sub_err_at(
                    reader@,
                    0,
                    crate::metadata::spec_table_models(archive.indexed_meta_data@),
                    archive.time_samplings@.len() as int,
                    Err(e),
                );
            }
            return Err(e);
        },
    };
    proof {
        props.lemma_sub_err_at(
            reader@,
            0,
            crate::metadata::spec_table_models(archive.indexed_meta_data@),
            archive.time_samplings@.len() as int,
            Ok(sub),
        );
        // with the load successful, child 0 resolves to the slot value at
        // the root's position
        let gpos = props.group.position;
        assert(props.group.child_count == crate::compound::spec_loaded_count(reader@, gpos));
        assert(props.group.children@.len() == props.group.child_count);
        assert(!props.group.spec_is_light());
        if props.property_headers@.len() > 0 && 0 < crate::compound::spec_loaded_count(
            reader@,
            gpos,
        ) {
            assert(props.group.children@[0] == crate::endian::spec_u64_at(reader@, gpos + 8));
            assert(props.group.spec_child_at(reader@, 0) == crate::chunks::ChildSlot::Value(
                crate::endian::spec_u64_at(reader@, gpos + 8),
            ));
        }
    }
    match CompoundPropertyReader::try_from(sub) {
        Ok(c) => {
            proof {
                let gpos = props.group.position;
                let c0 = spec_geom_pos(*object, reader@);
                if c0 == 0 {
                    assert(c.group.position == 0);
                } else {
                    assert(c.group.position == c0);
                }
            }
            Ok(c)
        },
        Err(e) => Err(OgawaError::ParsingError(e)),
    }
}

/// The element type of a bounds property: six doubles.
pub open spec fn spec_box_type() -> DataType {
    DataType { pod_type: PodType::F64, extent: 6 }
}

/// What loading a bounds sample yields: the load's own fault, a malformed
/// payload of fewer than six doubles, or the six doubles split into the two
/// corners. Success is owed exactly when the sample loads with six values.
pub open spec fn spec_bounds_post(
    sb: ScalarPropertyReader,
    bytes: Seq<u8>,
    sample_index: u32,
    r: Result<BoundingBox, OgawaError>,
) -> bool {
    let le = spec_load_sample_err(sb.group, sb.header, bytes, sample_index);
    let chunk = spec_sample_chunk(
        sb.group,
        bytes,
        PropertyHeader::spec_map_index(
            sb.header.first_changed_index,
            sb.header.last_changed_index,
            sample_index,
        ) as int,
    );
    &&& (r is Ok <==> le is None && (match chunk {
        Ok((p, s)) => spec_count(s, 8) >= 6,
        Err(_) => false,
    }))
    &&& (le matches Some(e) ==> r is Err && r->Err_0 == e)
    &&& (le is None && (match chunk {
        Ok((p, s)) => spec_count(s, 8) < 6,
        Err(_) => false,
    }) ==> r is Err && r->Err_0 == OgawaError::ParsingError(ParsingError::InvalidAlembicFile))
    &&& r is Ok ==> (match chunk {
        Ok((p, s)) => forall|j: int|
            0 <= j < 3 ==> r->Ok_0.min@[j] == spec_u64_at(bytes, p + 24 + 8 * j)
                && r->Ok_0.max@[j] == spec_u64_at(bytes, p + 24 + 8 * (j + 3)),
        Err(_) => false,
    })
}

/// Why building a generic bounded geometry from the compound grounded at
/// `gpos` fails — or `None` when it succeeds: the `.selfBnds` scalar of six
/// doubles must be present and load.
pub open spec fn spec_base_geom_err_at(
    bytes: Seq<u8>,
    gpos: u64,
    hs: Seq<crate::property::HeaderModel>,
    imodels: Seq<Map<Seq<char>, Seq<char>>>,
    n_ts: int,
) -> Option<OgawaError> {
    spec_required_err_at(
        bytes,
        gpos,
        hs,
        ".selfBnds"@,
        PropertyType::Scalar,
        Some(spec_box_type()),
        imodels,
        n_ts,
    )
}

/// Why building a generic bounded geometry from an object fails — or `None`
/// when it succeeds.
pub open spec fn spec_base_geom_object_err(
    object: crate::object::ObjectReader,
    bytes: Seq<u8>,
    imodels: Seq<Map<Seq<char>, Seq<char>>>,
    n_ts: int,
) -> Option<OgawaError> {
    match spec_geom_prefix_err(object, bytes, imodels, n_ts) {
        Some(e) => Some(e),
        None => spec_base_geom_err_at(
            bytes,
            spec_geom_pos(object, bytes),
            spec_compound_at(bytes, spec_geom_pos(object, bytes), imodels, n_ts)->Ok_0,
            imodels,
            n_ts,
        ),
    }
}

/// A generic bounded geometry: its `.selfBnds` scalar property.
#[derive(Debug)]
pub struct BaseGeomSchema {
    pub self_bounds: ScalarPropertyReader,
}

impl BaseGeomSchema {
    pub open spec fn wf(self) -> bool {
        self.self_bounds.wf()
    }

    /// Builds the schema from an object's property root. Succeeds exactly
    /// when the geometry compound loads and holds the required bounds
    /// property.
    pub fn new_from_object_reader(
        object: &crate::object::ObjectReader,
        reader: &ByteReader,
        archive: &Archive,
    ) -> (r: Result<BaseGeomSchema, OgawaError>)
        requires
            object.wf(),
            object.grounded(reader@),
            archive.wf(),
        ensures
            ({
                let outcome = spec_base_geom_object_err(
                    *object,
                    reader@,
                    crate::metadata::spec_table_models(archive.indexed_meta_data@),
                    archive.time_samplings@.len() as int,
                );
                &&& (r is Ok <==> outcome is None)
                &&& (r is Err ==> Some(r->Err_0) == outcome)
            }),
            object.cp_reader is None ==> r is Err && r->Err_0 == OgawaError::ParsingError(
                ParsingError::IncompatibleSchema,
            ),
            r is Ok ==> r->Ok_0.wf() && r->Ok_0.self_bounds.header.name@ == ".selfBnds"@
                && r->Ok_0.self_bounds.header.data_type == spec_box_type(),
    {
        let properties = match load_geom_compound(object, reader, archive) {
            Ok(c) => c,
            Err(e) => {
                return Err(e);
            },
        };
        Self::new_from_properties(&properties, reader, archive)
    }

    /// Builds the schema from the geometry compound: requires a scalar
    /// `.selfBnds` of element type `(F64, 6)`. Succeeds exactly when that
    /// property is present as demanded and its body loads; its absence, a
    /// wrong element type or a wrong kind is an incompatible schema.
    pub fn new_from_properties(
        properties: &CompoundPropertyReader,
        reader: &ByteReader,
        archive: &Archive,
    ) -> (r: Result<BaseGeomSchema, OgawaError>)
        requires
            properties.wf(),
            properties.grounded(reader@),
            archive.wf(),
        ensures
            ({
                let outcome = spec_base_geom_err_at(
                    reader@,
                    properties.group.position,
                    crate::compound::spec_header_models(properties.property_headers@),
                    crate::metadata::spec_table_models(archive.indexed_meta_data@),
                    archive.time_samplings@.len() as int,
                );
                &&& (r is Ok <==> outcome is None)
                &&& (r is Err ==> Some(r->Err_0) == outcome)
            }),
            spec_find_last(properties.property_headers@, ".selfBnds"@) < 0 ==> r is Err
                && r->Err_0 == OgawaError::ParsingError(ParsingError::IncompatibleSchema),
            r is Ok ==> r->Ok_0.wf() && r->Ok_0.self_bounds.header.name@ == ".selfBnds"@
                && r->Ok_0.self_bounds.header.data_type == spec_box_type()
                && r->Ok_0.self_bounds.header.model() == properties.property_headers@[
                spec_find_last(properties.property_headers@, ".selfBnds"@)].model(),
    {
        proof {
            crate::compound::lemma_find_last_model(properties.property_headers@, ".selfBnds"@);
        }
        let box_type = DataType { pod_type: PodType::F64, extent: 6 };
        let sub = match properties.load_required(
            ".selfBnds",
            PropertyType::Scalar,
            Some(&box_type),
            reader,
            &archive.indexed_meta_data,
            &archive.time_samplings,
        ) {
            Ok(p) => p,
            Err(e) => {
                return Err(e);
            },
        };
        let self_bounds = match sub {
            PropertyReader::Scalar(p) => p,
            _ => {
                proof {
                    assert(false);
                }
                return Err(OgawaError::ParsingError(ParsingError::IncompatibleSchema));
            },
        };
        Ok(BaseGeomSchema { self_bounds })
    }

    /// Loads bounds sample `sample_index`: the six doubles, split into the
    /// minimum and maximum corner. Succeeds exactly when the sample loads
    /// and holds at least six values.
    pub fn load_bounds_sample(&self, sample_index: u32, reader: &ByteReader) -> (r: Result<
        BoundingBox,
        OgawaError,
    >)
        requires
            self.wf(),
            self.self_bounds.header.data_type == spec_box_type(),
        ensures
            spec_bounds_post(self.self_bounds, reader@, sample_index, r),
    {
        let arr = match self.self_bounds.load_sample(sample_index, reader) {
            Ok(a) => a,
            Err(e) => {
                return Err(e);
            },
        };
        let v = match arr {
            PodArray::F64(v) => v,
            _ => {
                proof {
                    assert(false);
                }
                return Err(OgawaError::InternalError(crate::error::InternalError::Unreachable));
            },
        };
        if v.len() < 6 {
            return Err(OgawaError::ParsingError(ParsingError::InvalidAlembicFile));
        }
        let min = [v[0], v[1], v[2]];
        let max = [v[3], v[4], v[5]];
        Ok(BoundingBox { min, max })
    }
}

} // verus!
