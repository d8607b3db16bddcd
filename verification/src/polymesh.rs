//! The polygonal-mesh schema: vertices, face indices and face counts, with
//! optional normals, texture-coordinate compound and velocities.
use vstd::prelude::*;
use crate::archive::Archive;
use crate::base_geom::{load_geom_compound, spec_box_type, BaseGeomSchema, BoundingBox};
use crate::compound::{
    spec_compound_at, spec_find_last, spec_optional_err_at, spec_required_err_at,
    CompoundPropertyReader, PropertyReader,
};
use crate::curves::{spec_f32x3, spec_first_fault, spec_i32x1};
use crate::error::{OgawaError, ParsingError};
use crate::pod::{DataType, PodType};
use crate::property::{spec_load_sample_err, ArrayPropertyReader, PropertyType};
use crate::reader::ByteReader;
use crate::samples::{load_f32x3_sample, load_i32_sample, spec_sample_at};
use crate::typed_array::spec_count;

verus! {

/// A polygonal mesh: required vertices (`P`, F32 triples), face indices and
/// face counts (I32); optional normals (`N`, F32 triples), a `uv` compound
/// and velocities (F32 triples).
#[derive(Debug)]
pub struct PolyMeshSchema {
    pub base_geom: BaseGeomSchema,
    pub facecounts: ArrayPropertyReader,
    pub faceindices: ArrayPropertyReader,
    pub vertices: ArrayPropertyReader,
    pub normals: Option<ArrayPropertyReader>,
    pub uv: Option<CompoundPropertyReader>,
    pub velocities: Option<ArrayPropertyReader>,
}

/// Why building a polygonal-mesh schema from the compound grounded at
/// `gpos` fails — or `None` when it succeeds: the bounds property, the
/// required vertex and face arrays, and every present optional, in the
/// order they are examined.
pub open spec fn spec_polymesh_err_at(
    bytes: Seq<u8>,
    gpos: u64,
    hs: Seq<crate::property::HeaderModel>,
    imodels: Seq<Map<Seq<char>, Seq<char>>>,
    n_ts: int,
) -> Option<OgawaError> {
    spec_first_fault(
        crate::base_geom::spec_base_geom_err_at(bytes, gpos, hs, imodels, n_ts),
        spec_first_fault(
            spec_required_err_at(
                bytes,
                gpos,
                hs,
                "P"@,
                PropertyType::Array,
                Some(spec_f32x3()),
                imodels,
                n_ts,
            ),
            spec_first_fault(
                spec_required_err_at(
                    bytes,
                    gpos,
                    hs,
                    ".faceIndices"@,
                    PropertyType::Array,
                    Some(spec_i32x1()),
                    imodels,
                    n_ts,
                ),
                spec_first_fault(
                    spec_required_err_at(
                        bytes,
                        gpos,
                        hs,
                        ".faceCounts"@,
                        PropertyType::Array,
                        Some(spec_i32x1()),
                        imodels,
                        n_ts,
                    ),
                    spec_first_fault(
                        spec_optional_err_at(
                            bytes,
                            gpos,
                            hs,
                            "N"@,
                            PropertyType::Array,
                            Some(spec_f32x3()),
                            imodels,
                            n_ts,
                        ),
                        spec_first_fault(
                            spec_optional_err_at(
                                bytes,
                                gpos,
                                hs,
                                "uv"@,
                                PropertyType::Compound,
                                None,
                                imodels,
                                n_ts,
                            ),
                            spec_optional_err_at(
                                bytes,
                                gpos,
                                hs,
                                "velocities"@,
                                PropertyType::Array,
                                Some(spec_f32x3()),
                                imodels,
                                n_ts,
                            ),
                        ),
                    ),
                ),
            ),
        ),
    )
}

/// Why building a polygonal-mesh schema from an object fails — or `None`
/// when it succeeds.
pub open spec fn spec_polymesh_object_err(
    object: crate::object::ObjectReader,
    bytes: Seq<u8>,
    imodels: Seq<Map<Seq<char>, Seq<char>>>,
    n_ts: int,
) -> Option<OgawaError> {
    match crate::base_geom::spec_geom_prefix_err(object, bytes, imodels, n_ts) {
        Some(e) => Some(e),
        None => spec_polymesh_err_at(
            bytes,
            crate::base_geom::spec_geom_pos(object, bytes),
            spec_compound_at(
                bytes,
                crate::base_geom::spec_geom_pos(object, bytes),
                imodels,
                n_ts,
            )->Ok_0,
            imodels,
            n_ts,
        ),
    }
}

impl PolyMeshSchema {
    pub open spec fn wf(self) -> bool {
        &&& self.base_geom.wf()
        &&& self.base_geom.self_bounds.header.data_type == spec_box_type()
        &&& self.vertices.wf() && self.vertices.header.data_type == spec_f32x3()
        &&& self.faceindices.wf() && self.faceindices.header.data_type == spec_i32x1()
        &&& self.facecounts.wf() && self.facecounts.header.data_type == spec_i32x1()
        &&& self.normals matches Some(a) ==> a.wf() && a.header.data_type == spec_f32x3()
        &&& self.uv matches Some(c) ==> c.wf()
        &&& self.velocities matches Some(a) ==> a.wf() && a.header.data_type == spec_f32x3()
    }

    /// Builds the schema from an object's property root. Succeeds exactly
    /// when the geometry compound loads and every demand is met.
    pub fn new_from_object_reader(
        object: &crate::object::ObjectReader,
        reader: &ByteReader,
        archive: &Archive,
    ) -> (r: Result<PolyMeshSchema, OgawaError>)
        requires
            object.wf(),
            object.grounded(reader@),
            archive.wf(),
        ensures
            ({
                let outcome = spec_polymesh_object_err(
                    *object,
                    reader@,
                    crate::metadata::spec_table_models(archive.indexed_meta_data@),
                    archive.time_samplings@.len() as int,
                );
                &&& (r is Ok <==> outcome is None)
                &&& (r is Err ==> Some(r->Err_0) == outcome)
            }),
            object.cp_reader is None ==> r is Err && r->Err_0 == OgawaError::ParsingError(
                ParsingError::IncompatibleSchema,
            ),
            r is Ok ==> r->Ok_0.wf(),
            r is Ok ==> r->Ok_0.vertices.header.name@ == "P"@
                && r->Ok_0.faceindices.header.name@ == ".faceIndices"@
                && r->Ok_0.facecounts.header.name@ == ".faceCounts"@,
    {
        let properties = match load_geom_compound(object, reader, archive) {
            Ok(c) => c,
            Err(e) => {
                return Err(e);
            },
        };
        Self::new_from_properties(&properties, reader, archive)
    }

    /// Builds the schema from the geometry compound. Succeeds exactly when
    /// the bounds property, the three required arrays and every present
    /// optional meet their demands; a missing required property or a wrong
    /// kind or element type is an incompatible schema.
    #[verifier::rlimit(100)]
    pub fn new_from_properties(
        properties: &CompoundPropertyReader,
        reader: &ByteReader,
        archive: &Archive,
    ) -> (r: Result<PolyMeshSchema, OgawaError>)
        requires
            properties.wf(),
            properties.grounded(reader@),
            archive.wf(),
        ensures
            ({
                let outcome = spec_polymesh_err_at(
                    reader@,
                    properties.group.position,
                    crate::compound::spec_header_models(properties.property_headers@),
                    crate::metadata::spec_table_models(archive.indexed_meta_data@),
                    archive.time_samplings@.len() as int,
                );
                &&& (r is Ok <==> outcome is None)
                &&& (r is Err ==> Some(r->Err_0) == outcome)
            }),
            r is Ok ==> r->Ok_0.wf(),
            r is Ok ==> r->Ok_0.vertices.header.name@ == "P"@
                && r->Ok_0.faceindices.header.name@ == ".faceIndices"@
                && r->Ok_0.facecounts.header.name@ == ".faceCounts"@,
            r is Ok ==> {
                &&& spec_find_last(properties.property_headers@, "P"@) >= 0
                &&& spec_find_last(properties.property_headers@, ".faceIndices"@) >= 0
                &&& spec_find_last(properties.property_headers@, ".faceCounts"@) >= 0
                &&& (r->Ok_0.normals is Some <==> spec_find_last(
                    properties.property_headers@,
                    "N"@,
                ) >= 0)
                &&& (r->Ok_0.velocities is Some <==> spec_find_last(
                    properties.property_headers@,
                    "velocities"@,
                ) >= 0)
            },
    {
        let base_geom = match BaseGeomSchema::new_from_properties(properties, reader, archive) {
            Ok(b) => b,
            Err(e) => {
                return Err(e);
            },
        };
        let vertices = match Self::required_array(
            properties,
            "P",
            DataType { pod_type: PodType::F32, extent: 3 },
            reader,
            archive,
        ) {
            Ok(a) => a,
            Err(e) => {
                return Err(e);
            },
        };
        let faceindices = match Self::required_array(
            properties,
            ".faceIndices",
            DataType { pod_type: PodType::I32, extent: 1 },
            reader,
            archive,
        ) {
            Ok(a) => a,
            Err(e) => {
                return Err(e);
            },
        };
        let facecounts = match Self::required_array(
            properties,
            ".faceCounts",
            DataType { pod_type: PodType::I32, extent: 1 },
            reader,
            archive,
        ) {
            Ok(a) => a,
            Err(e) => {
                return Err(e);
            },
        };
        let normals = match Self::optional_array(
            properties,
            "N",
            DataType { pod_type: PodType::F32, extent: 3 },
            reader,
            archive,
        ) {
            Ok(a) => a,
            Err(e) => {
                return Err(e);
            },
        };
        let uv = match properties.load_optional(
            "uv",
            PropertyType::Compound,
            None,
            reader,
            &archive.indexed_meta_data,
            &archive.time_samplings,
        ) {
            Ok(None) => None,
            Ok(Some(PropertyReader::Compound(c))) => Some(c),
            Ok(Some(_)) => {
                proof {
                    assert(false);
                }
                return Err(OgawaError::ParsingError(ParsingError::IncompatibleSchema));
            },
            Err(e) => {
                return Err(e);
            },
        };
        let velocities = match Self::optional_array(
            properties,
            "velocities",
            DataType { pod_type: PodType::F32, extent: 3 },
            reader,
            archive,
        ) {
            Ok(a) => a,
            Err(e) => {
                return Err(e);
            },
        };
        Ok(
            PolyMeshSchema {
                base_geom,
                facecounts,
                faceindices,
                vertices,
                normals,
                uv,
                velocities,
            },
        )
    }

    /// Loads a required array property with an exact element type.
    fn required_array(
        properties: &CompoundPropertyReader,
        name: &str,
        expected: DataType,
        reader: &ByteReader,
        archive: &Archive,
    ) -> (r: Result<ArrayPropertyReader, OgawaError>)
        requires
            properties.wf(),
            properties.grounded(reader@),
            archive.wf(),
        ensures
            ({
                let outcome = spec_required_err_at(
                    reader@,
                    properties.group.position,
                    crate::compound::spec_header_models(properties.property_headers@),
                    name@,
                    PropertyType::Array,
                    Some(expected),
                    crate::metadata::spec_table_models(archive.indexed_meta_data@),
                    archive.time_samplings@.len() as int,
                );
                &&& (r is Ok <==> outcome is None)
                &&& (r is Err ==> Some(r->Err_0) == outcome)
            }),
            r is Ok ==> spec_find_last(properties.property_headers@, name@) >= 0
                && r->Ok_0.header.name@ == name@ && r->Ok_0.header.data_type == expected
                && r->Ok_0.wf(),
    {
        match properties.load_required(
            name,
            PropertyType::Array,
            Some(&expected),
            reader,
            &archive.indexed_meta_data,
            &archive.time_samplings,
        ) {
            Ok(PropertyReader::Array(a)) => Ok(a),
            Ok(_) => {
                proof {
                    assert(false);
                }
                Err(OgawaError::ParsingError(ParsingError::IncompatibleSchema))
            },
            Err(e) => Err(e),
        }
    }

    /// Loads an optional array property, type-checked when present.
    fn optional_array(
        properties: &CompoundPropertyReader,
        name: &str,
        expected: DataType,
        reader: &ByteReader,
        archive: &Archive,
    ) -> (r: Result<Option<ArrayPropertyReader>, OgawaError>)
        requires
            properties.wf(),
            properties.grounded(reader@),
            archive.wf(),
        ensures
            ({
                let outcome = spec_optional_err_at(
                    reader@,
                    properties.group.position,
                    crate::compound::spec_header_models(properties.property_headers@),
                    name@,
                    PropertyType::Array,
                    Some(expected),
                    crate::metadata::spec_table_models(archive.indexed_meta_data@),
                    archive.time_samplings@.len() as int,
                );
                &&& (r is Ok <==> outcome is None)
                &&& (r is Err ==> Some(r->Err_0) == outcome)
            }),
            r is Ok ==> (r->Ok_0 is Some <==> spec_find_last(properties.property_headers@, name@)
                >= 0),
            r is Ok && r->Ok_0 is Some ==> r->Ok_0->0.header.name@ == name@
                && r->Ok_0->0.header.data_type == expected && r->Ok_0->0.wf(),
    {
        match properties.load_optional(
            name,
            PropertyType::Array,
            Some(&expected),
            reader,
            &archive.indexed_meta_data,
            &archive.time_samplings,
        ) {
            Ok(None) => Ok(None),
            Ok(Some(PropertyReader::Array(a))) => Ok(Some(a)),
            Ok(Some(_)) => {
                proof {
                    assert(false);
                }
                Err(OgawaError::ParsingError(ParsingError::IncompatibleSchema))
            },
            Err(e) => Err(e),
        }
    }

    pub fn has_normals(&self) -> (r: bool)
        ensures
            r == (self.normals is Some),
    {
        self.normals.is_some()
    }

    pub fn has_uv(&self) -> (r: bool)
        ensures
            r == (self.uv is Some),
    {
        self.uv.is_some()
    }

    pub fn has_velocities(&self) -> (r: bool)
        ensures
            r == (self.velocities is Some),
    {
        self.velocities.is_some()
    }

    /// Loads a bounds sample from the underlying geometry base.
    pub fn load_bounds_sample(&self, sample_index: u32, reader: &ByteReader) -> (r: Result<
        BoundingBox,
        OgawaError,
    >)
        requires
            self.wf(),
        ensures
            crate::base_geom::spec_bounds_post(
                self.base_geom.self_bounds,
                reader@,
                sample_index,
                r,
            ),
    {
        self.base_geom.load_bounds_sample(sample_index, reader)
    }

    /// Loads a vertices sample as packed `f32`-bit triples.
    pub fn load_vertices_sample(&self, sample_index: u32, reader: &ByteReader) -> (r: Result<
        Vec<[u32; 3]>,
        OgawaError,
    >)
        requires
            self.wf(),
        ensures
            r is Ok <==> spec_load_sample_err(
                self.vertices.group,
                self.vertices.header,
                reader@,
                sample_index,
            ) is None,
            r is Ok ==> match spec_sample_at(
                self.vertices.group,
                self.vertices.header,
                reader@,
                sample_index,
            ) {
                Ok((p, s)) => r->Ok_0@.len() * 3 == spec_count(s, 4) && forall|i: int, j: int|
                    0 <= i < r->Ok_0@.len() && 0 <= j < 3 ==> r->Ok_0@[i]@[j]
                        == crate::endian::spec_u32_at(reader@, p + 24 + 4 * (3 * i + j)),
                Err(_) => false,
            },
    {
        load_f32x3_sample(&self.vertices.group, &self.vertices.header, sample_index, reader)
    }

    /// Loads a face-counts sample.
    pub fn load_facecounts_sample(&self, sample_index: u32, reader: &ByteReader) -> (r: Result<
        Vec<i32>,
        OgawaError,
    >)
        requires
            self.wf(),
        ensures
            r is Ok <==> spec_load_sample_err(
                self.facecounts.group,
                self.facecounts.header,
                reader@,
                sample_index,
            ) is None,
            r is Err ==> spec_load_sample_err(
                self.facecounts.group,
                self.facecounts.header,
                reader@,
                sample_index,
            ) == Some(r->Err_0),
            r is Ok ==> match spec_sample_at(
                self.facecounts.group,
                self.facecounts.header,
                reader@,
                sample_index,
            ) {
                Ok((p, s)) => r->Ok_0@.len() == spec_count(s, 4) && forall|i: int|
                    0 <= i < r->Ok_0@.len() ==> r->Ok_0@[i] as int == crate::endian::spec_i32_v(
                        crate::endian::spec_u32_at(reader@, p + 24 + 4 * i),
                    ),
                Err(_) => false,
            },
    {
        load_i32_sample(&self.facecounts.group, &self.facecounts.header, sample_index, reader)
    }

    /// Loads a face-indices sample.
    pub fn load_faceindices_sample(&self, sample_index: u32, reader: &ByteReader) -> (r: Result<
        Vec<i32>,
        OgawaError,
    >)
        requires
            self.wf(),
        ensures
            r is Ok <==> spec_load_sample_err(
                self.faceindices.group,
                self.faceindices.header,
                reader@,
                sample_index,
            ) is None,
            r is Err ==> spec_load_sample_err(
                self.faceindices.group,
                self.faceindices.header,
                reader@,
                sample_index,
            ) == Some(r->Err_0),
            r is Ok ==> match spec_sample_at(
                self.faceindices.group,
                self.faceindices.header,
                reader@,
                sample_index,
            ) {
                Ok((p, s)) => r->Ok_0@.len() == spec_count(s, 4) && forall|i: int|
                    0 <= i < r->Ok_0@.len() ==> r->Ok_0@[i] as int == crate::endian::spec_i32_v(
                        crate::endian::spec_u32_at(reader@, p + 24 + 4 * i),
                    ),
                Err(_) => false,
            },
    {
        load_i32_sample(&self.faceindices.group, &self.faceindices.header, sample_index, reader)
    }
}

} // verus!
