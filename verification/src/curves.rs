//! The curves schema: positions, per-curve vertex counts and the curve
//! basis-and-type descriptor, with optional weights, texture coordinates,
//! normals, widths, velocities, orders and knots.
use vstd::prelude::*;
use crate::archive::Archive;
use crate::base_geom::{load_geom_compound, spec_box_type, BaseGeomSchema, BoundingBox};
use crate::compound::{
    spec_compound_at, spec_find_last, spec_optional_err_at, spec_required_err_at,
    CompoundPropertyReader, PropertyReader,
};
use crate::error::{InternalError, OgawaError, ParsingError};
use crate::pod::{DataType, PodArray, PodType};
use crate::property::{
    spec_load_sample_err, ArrayPropertyReader, PropertyType, ScalarPropertyReader,
};
use crate::reader::ByteReader;
use crate::samples::{
    load_f32_sample, load_f32x2_sample, load_f32x3_sample, load_i32_sample, load_u8_sample,
    spec_sample_at,
};
use crate::typed_array::spec_count;

verus! {

/// How much of a curves object's topology varies over time: nothing, only
/// the point positions, or the connectivity itself.
#[derive(Debug, PartialEq, Eq, Clone, Copy, Structural)]
pub enum TopologyVariance {
    ConstantTopology,
    HomogeneousTopology,
    HeterogeneousTopology,
}

/// Whether a curve wraps around: NonPeriodic(0) or Periodic(1).
#[derive(Debug, PartialEq, Eq, Clone, Copy, Structural)]
pub enum CurvePeriodicity {
    NonPeriodic,
    Periodic,
}

impl CurvePeriodicity {
    pub open spec fn spec_tag(self) -> u8 {
        match self {
            CurvePeriodicity::NonPeriodic => 0,
            CurvePeriodicity::Periodic => 1,
        }
    }

    /// Decodes a periodicity byte: 0 and 1 are the whole set; anything else
    /// is malformed.
    pub fn try_from_u8(v: u8) -> (r: Result<CurvePeriodicity, ParsingError>)
        ensures
            r is Ok <==> v <= 1,
            r is Ok ==> r->Ok_0.spec_tag() == v,
            r is Err ==> r->Err_0 == ParsingError::InvalidAlembicFile,
    {
        match v {
            0 => Ok(CurvePeriodicity::NonPeriodic),
            1 => Ok(CurvePeriodicity::Periodic),
            _ => Err(ParsingError::InvalidAlembicFile),
        }
    }
}

/// The interpolation family of a curve: Cubic(0), Linear(1) or
/// VariableOrder(2).
#[derive(Debug, PartialEq, Eq, Clone, Copy, Structural)]
pub enum CurveType {
    Cubic,
    Linear,
    VariableOrder,
}

impl CurveType {
    pub open spec fn spec_tag(self) -> u8 {
        match self {
            CurveType::Cubic => 0,
            CurveType::Linear => 1,
            CurveType::VariableOrder => 2,
        }
    }

    /// Decodes a curve-type byte: 0 through 2 are the whole set; anything
    /// else is malformed.
    pub fn try_from_u8(v: u8) -> (r: Result<CurveType, ParsingError>)
        ensures
            r is Ok <==> v <= 2,
            r is Ok ==> r->Ok_0.spec_tag() == v,
            r is Err ==> r->Err_0 == ParsingError::InvalidAlembicFile,
    {
        match v {
            0 => Ok(CurveType::Cubic),
            1 => Ok(CurveType::Linear),
            2 => Ok(CurveType::VariableOrder),
            _ => Err(ParsingError::InvalidAlembicFile),
        }
    }
}

/// The spline basis of a curve: None(0), Bezier(1), Bspline(2),
/// Catmullrom(3), Hermite(4) or Power(5).
#[derive(Debug, PartialEq, Eq, Clone, Copy, Structural)]
pub enum BasisType {
    NoBasis,
    Bezier,
    Bspline,
    Catmullrom,
    Hermite,
    Power,
}

impl BasisType {
    pub open spec fn spec_tag(self) -> u8 {
        match self {
            BasisType::NoBasis => 0,
            BasisType::Bezier => 1,
            BasisType::Bspline => 2,
            BasisType::Catmullrom => 3,
            BasisType::Hermite => 4,
            BasisType::Power => 5,
        }
    }

    /// Decodes a basis byte: 0 through 5 are the whole set; anything else is
    /// malformed.
    pub fn try_from_u8(v: u8) -> (r: Result<BasisType, ParsingError>)
        ensures
            r is Ok <==> v <= 5,
            r is Ok ==> r->Ok_0.spec_tag() == v,
            r is Err ==> r->Err_0 == ParsingError::InvalidAlembicFile,
    {
        match v {
            0 => Ok(BasisType::NoBasis),
            1 => Ok(BasisType::Bezier),
            2 => Ok(BasisType::Bspline),
            3 => Ok(BasisType::Catmullrom),
            4 => Ok(BasisType::Hermite),
            5 => Ok(BasisType::Power),
            _ => Err(ParsingError::InvalidAlembicFile),
        }
    }
}

/// A curves object: required positions (`P`, F32 triples), per-curve vertex
/// counts (`nVertices`, I32) and the basis-and-type scalar
/// (`curveBasisAndType`); optional weights, texture coordinates, normals,
/// widths, velocities, orders and knots, each type-checked when present.
#[derive(Debug)]
pub struct CurvesSchema {
    pub base_geom: BaseGeomSchema,
    pub positions: ArrayPropertyReader,
    pub n_vertices: ArrayPropertyReader,
    pub curve_basis_and_type: ScalarPropertyReader,
    pub position_weights: Option<ArrayPropertyReader>,
    pub uv: Option<ArrayPropertyReader>,
    pub n: Option<ArrayPropertyReader>,
    pub width: Option<ArrayPropertyReader>,
    pub velocities: Option<ArrayPropertyReader>,
    pub orders: Option<ArrayPropertyReader>,
    pub knots: Option<ArrayPropertyReader>,
}

pub open spec fn spec_f32x3() -> DataType {
    DataType { pod_type: PodType::F32, extent: 3 }
}

pub open spec fn spec_f32x2() -> DataType {
    DataType { pod_type: PodType::F32, extent: 2 }
}

pub open spec fn spec_f32x1() -> DataType {
    DataType { pod_type: PodType::F32, extent: 1 }
}

pub open spec fn spec_i32x1() -> DataType {
    DataType { pod_type: PodType::I32, extent: 1 }
}

pub open spec fn spec_u8x1() -> DataType {
    DataType { pod_type: PodType::U8, extent: 1 }
}

/// The earlier of two faults, if any.
pub open spec fn spec_first_fault(a: Option<OgawaError>, b: Option<OgawaError>) -> Option<
    OgawaError,
> {
    if a is Some {
        a
    } else {
        b
    }
}

/// Why building a curves schema from the compound grounded at `gpos` fails
/// — or `None` when it succeeds: the bounds property, the required
/// positions, vertex counts and basis descriptor, and every present
/// optional, in the order they are examined.
pub open spec fn spec_curves_err_at(
    bytes: Seq<u8>,
    gpos: u64,
    hs: Seq<crate::property::HeaderModel>,
    imodels: Seq<Map<Seq<char>, Seq<char>>>,
    n_ts: int,
) -> Option<OgawaError> {
    spec_first_fault(
        crate::base_geom::spec_base_geom_err_at(bytes, gpos, hs, imodels, n_ts),
        spec_first_fault(
            spec_required_err_at(
                bytes,
                gpos,
                hs,
                "P"@,
                PropertyType::Array,
                Some(spec_f32x3()),
                imodels,
                n_ts,
            ),
            spec_first_fault(
                spec_required_err_at(
                    bytes,
                    gpos,
                    hs,
                    "nVertices"@,
                    PropertyType::Array,
                    Some(spec_i32x1()),
                    imodels,
                    n_ts,
                ),
                spec_first_fault(
                    spec_required_err_at(
                        bytes,
                        gpos,
                        hs,
                        "curveBasisAndType"@,
                        PropertyType::Scalar,
                        None,
                        imodels,
                        n_ts,
                    ),
                    spec_first_fault(
                        spec_optional_err_at(
                            bytes,
                            gpos,
                            hs,
                            "w"@,
                            PropertyType::Array,
                            Some(spec_f32x1()),
                            imodels,
                            n_ts,
                        ),
                        spec_first_fault(
                            spec_optional_err_at(
                                bytes,
                                gpos,
                                hs,
                                "uv"@,
                                PropertyType::Array,
                                Some(spec_f32x2()),
                                imodels,
                                n_ts,
                            ),
                            spec_first_fault(
                                spec_optional_err_at(
                                    bytes,
                                    gpos,
                                    hs,
                                    "n"@,
                                    PropertyType::Array,
                                    Some(spec_f32x3()),
                                    imodels,
                                    n_ts,
                                ),
                                spec_first_fault(
                                    spec_optional_err_at(
                                        bytes,
                                        gpos,
                                        hs,
                                        "width"@,
                                        PropertyType::Array,
                                        Some(spec_f32x1()),
                                        imodels,
                                        n_ts,
                                    ),
                                    spec_first_fault(
                                        spec_optional_err_at(
                                            bytes,
                                            gpos,
                                            hs,
                                            ".velocities"@,
                                            PropertyType::Array,
                                            Some(spec_f32x3()),
                                            imodels,
                                            n_ts,
                                        ),
                                        spec_first_fault(
                                            spec_optional_err_at(
                                                bytes,
                                                gpos,
                                                hs,
                                                ".orders"@,
                                                PropertyType::Array,
                                                Some(spec_u8x1()),
                                                imodels,
                                                n_ts,
                                            ),
                                            spec_optional_err_at(
                                                bytes,
                                                gpos,
                                                hs,
                                                ".knots"@,
                                                PropertyType::Array,
                                                Some(spec_f32x1()),
                                                imodels,
                                                n_ts,
                                            ),
                                        ),
                                    ),
                                ),
                            ),
                        ),
                    ),
                ),
            ),
        ),
    )
}

/// Why building a curves schema from an object fails — or `None` when it
/// succeeds.
pub open spec fn spec_curves_object_err(
    object: crate::object::ObjectReader,
    bytes: Seq<u8>,
    imodels: Seq<Map<Seq<char>, Seq<char>>>,
    n_ts: int,
) -> Option<OgawaError> {
    match crate::base_geom::spec_geom_prefix_err(object, bytes, imodels, n_ts) {
        Some(e) => Some(e),
        None => spec_curves_err_at(
            bytes,
            crate::base_geom::spec_geom_pos(object, bytes),
            spec_compound_at(
                bytes,
                crate::base_geom::spec_geom_pos(object, bytes),
                imodels,
                n_ts,
            )->Ok_0,
            imodels,
            n_ts,
        ),
    }
}

impl CurvesSchema {
    /// Every held reader is well formed, and each carries the element type
    /// the schema demands of it.
    pub open spec fn wf(self) -> bool {
        &&& self.base_geom.wf()
        &&& self.base_geom.self_bounds.header.data_type == spec_box_type()
        &&& self.positions.wf() && self.positions.header.data_type == spec_f32x3()
        &&& self.n_vertices.wf() && self.n_vertices.header.data_type == spec_i32x1()
        &&& self.curve_basis_and_type.wf()
        &&& self.position_weights matches Some(w) ==> w.wf() && w.header.data_type
            == spec_f32x1()
        &&& self.uv matches Some(a) ==> a.wf() && a.header.data_type == spec_f32x2()
        &&& self.n matches Some(a) ==> a.wf() && a.header.data_type == spec_f32x3()
        &&& self.width matches Some(a) ==> a.wf() && a.header.data_type == spec_f32x1()
        &&& self.velocities matches Some(a) ==> a.wf() && a.header.data_type == spec_f32x3()
        &&& self.orders matches Some(a) ==> a.wf() && a.header.data_type == spec_u8x1()
        &&& self.knots matches Some(a) ==> a.wf() && a.header.data_type == spec_f32x1()
    }

    /// Builds the schema from an object: its property root's first compound
    /// must hold the required curve properties with their exact types, and
    /// any optional property present must carry its expected type. Succeeds
    /// exactly when the geometry compound loads and every demand is met.
    pub fn new_from_object_reader(
        object: &crate::object::ObjectReader,
        reader: &ByteReader,
        archive: &Archive,
    ) -> (r: Result<CurvesSchema, OgawaError>)
        requires
            object.wf(),
            object.grounded(reader@),
            archive.wf(),
        ensures
            ({
                let outcome = spec_curves_object_err(
                    *object,
                    reader@,
                    crate::metadata::spec_table_models(archive.indexed_meta_data@),
                    archive.time_samplings@.len() as int,
                );
                &&& (r is Ok <==> outcome is None)
                &&& (r is Err ==> Some(r->Err_0) == outcome)
            }),
            object.cp_reader is None ==> r is Err && r->Err_0 == OgawaError::ParsingError(
                ParsingError::IncompatibleSchema,
            ),
            r is Ok ==> r->Ok_0.wf(),
            r is Ok ==> r->Ok_0.positions.header.name@ == "P"@
                && r->Ok_0.n_vertices.header.name@ == "nVertices"@
                && r->Ok_0.curve_basis_and_type.header.name@ == "curveBasisAndType"@,
    {
        let properties = match load_geom_compound(object, reader, archive) {
            Ok(c) => c,
            Err(e) => {
                return Err(e);
            },
        };
        Self::new_from_properties(&properties, reader, archive)
    }

    /// Builds the schema from the geometry compound. Succeeds exactly when
    /// the bounds property, the three required curve properties and every
    /// present optional meet their demands; a missing required property or
    /// a wrong kind or element type is an incompatible schema.
    #[verifier::rlimit(100)]
    pub fn new_from_properties(
        properties: &CompoundPropertyReader,
        reader: &ByteReader,
        archive: &Archive,
    ) -> (r: Result<CurvesSchema, OgawaError>)
        requires
            properties.wf(),
            properties.grounded(reader@),
            archive.wf(),
        ensures
            ({
                let outcome = spec_curves_err_at(
                    reader@,
                    properties.group.position,
                    crate::compound::spec_header_models(properties.property_headers@),
                    crate::metadata::spec_table_models(archive.indexed_meta_data@),
                    archive.time_samplings@.len() as int,
                );
                &&& (r is Ok <==> outcome is None)
                &&& (r is Err ==> Some(r->Err_0) == outcome)
            }),
            r is Ok ==> r->Ok_0.wf(),
            r is Ok ==> r->Ok_0.positions.header.name@ == "P"@
                && r->Ok_0.n_vertices.header.name@ == "nVertices"@
                && r->Ok_0.curve_basis_and_type.header.name@ == "curveBasisAndType"@,
            r is Ok ==> {
                &&& spec_find_last(properties.property_headers@, "P"@) >= 0
                &&& spec_find_last(properties.property_headers@, "nVertices"@) >= 0
                &&& spec_find_last(properties.property_headers@, "curveBasisAndType"@) >= 0
                &&& (spec_find_last(properties.property_headers@, "uv"@) >= 0
                    ==> properties.property_headers@[spec_find_last(
                    properties.property_headers@,
                    "uv"@,
                )].data_type == spec_f32x2())
                &&& (r->Ok_0.uv is Some <==> spec_find_last(properties.property_headers@, "uv"@)
                    >= 0)
                &&& (r->Ok_0.position_weights is Some <==> spec_find_last(
                    properties.property_headers@,
                    "w"@,
                ) >= 0)
            },
    {
        let base_geom = match BaseGeomSchema::new_from_properties(properties, reader, archive) {
            Ok(b) => b,
            Err(e) => {
                return Err(e);
            },
        };
        let positions = match properties.load_required(
            "P",
            PropertyType::Array,
            Some(&DataType { pod_type: PodType::F32, extent: 3 }),
            reader,
            &archive.indexed_meta_data,
            &archive.time_samplings,
        ) {
            Ok(PropertyReader::Array(a)) => a,
            Ok(_) => {
                proof {
                    assert(false);
                }
                return Err(OgawaError::ParsingError(ParsingError::IncompatibleSchema));
            },
            Err(e) => {
                return Err(e);
            },
        };
        let n_vertices = match properties.load_required(
            "nVertices",
            PropertyType::Array,
            Some(&DataType { pod_type: PodType::I32, extent: 1 }),
            reader,
            &archive.indexed_meta_data,
            &archive.time_samplings,
        ) {
            Ok(PropertyReader::Array(a)) => a,
            Ok(_) => {
                proof {
                    assert(false);
                }
                return Err(OgawaError::ParsingError(ParsingError::IncompatibleSchema));
            },
            Err(e) => {
                return Err(e);
            },
        };
        let curve_basis_and_type = match properties.load_required(
            "curveBasisAndType",
            PropertyType::Scalar,
            None,
            reader,
            &archive.indexed_meta_data,
            &archive.time_samplings,
        ) {
            Ok(PropertyReader::Scalar(p)) => p,
            Ok(_) => {
                proof {
                    assert(false);
                }
                return Err(OgawaError::ParsingError(ParsingError::IncompatibleSchema));
            },
            Err(e) => {
                return Err(e);
            },
        };
        let position_weights = match Self::optional_array(
            properties,
            "w",
            DataType { pod_type: PodType::F32, extent: 1 },
            reader,
            archive,
        ) {
            Ok(a) => a,
            Err(e) => {
                return Err(e);
            },
        };
        let uv = match Self::optional_array(
            properties,
            "uv",
            DataType { pod_type: PodType::F32, extent: 2 },
            reader,
            archive,
        ) {
            Ok(a) => a,
            Err(e) => {
                return Err(e);
            },
        };
        let n = match Self::optional_array(
            properties,
            "n",
            DataType { pod_type: PodType::F32, extent: 3 },
            reader,
            archive,
        ) {
            Ok(a) => a,
            Err(e) => {
                return Err(e);
            },
        };
        let width = match Self::optional_array(
            properties,
            "width",
            DataType { pod_type: PodType::F32, extent: 1 },
            reader,
            archive,
        ) {
            Ok(a) => a,
            Err(e) => {
                return Err(e);
            },
        };
        let velocities = match Self::optional_array(
            properties,
            ".velocities",
            DataType { pod_type: PodType::F32, extent: 3 },
            reader,
            archive,
        ) {
            Ok(a) => a,
            Err(e) => {
                return Err(e);
            },
        };
        let orders = match Self::optional_array(
            properties,
            ".orders",
            DataType { pod_type: PodType::U8, extent: 1 },
            reader,
            archive,
        ) {
            Ok(a) => a,
            Err(e) => {
                return Err(e);
            },
        };
        let knots = match Self::optional_array(
            properties,
            ".knots",
            DataType { pod_type: PodType::F32, extent: 1 },
            reader,
            archive,
        ) {
            Ok(a) => a,
            Err(e) => {
                return Err(e);
            },
        };
        Ok(
            CurvesSchema {
                base_geom,
                positions,
                n_vertices,
                curve_basis_and_type,
                position_weights,
                uv,
                n,
                width,
                velocities,
                orders,
                knots,
            },
        )
    }

    /// Loads an optional array property, type-checked when present.
    fn optional_array(
        properties: &CompoundPropertyReader,
        name: &str,
        expected: DataType,
        reader: &ByteReader,
        archive: &Archive,
    ) -> (r: Result<Option<ArrayPropertyReader>, OgawaError>)
        requires
            properties.wf(),
            properties.grounded(reader@),
            archive.wf(),
        ensures
            ({
                let outcome = spec_optional_err_at(
                    reader@,
                    properties.group.position,
                    crate::compound::spec_header_models(properties.property_headers@),
                    name@,
                    PropertyType::Array,
                    Some(expected),
                    crate::metadata::spec_table_models(archive.indexed_meta_data@),
                    archive.time_samplings@.len() as int,
                );
                &&& (r is Ok <==> outcome is None)
                &&& (r is Err ==> Some(r->Err_0) == outcome)
            }),
            r is Ok ==> (r->Ok_0 is Some <==> spec_find_last(properties.property_headers@, name@)
                >= 0),
            r is Ok && r->Ok_0 is Some ==> ({
                let fi = spec_find_last(properties.property_headers@, name@);
                &&& r->Ok_0->0.header.name@ == name@
                &&& r->Ok_0->0.header.data_type == expected
                &&& r->Ok_0->0.wf()
                &&& r->Ok_0->0.header.model() == properties.property_headers@[fi].model()
                &&& properties.property_headers@[fi].data_type == expected
            }),
    {
        match properties.load_optional(
            name,
            PropertyType::Array,
            Some(&expected),
            reader,
            &archive.indexed_meta_data,
            &archive.time_samplings,
        ) {
            Ok(None) => Ok(None),
            Ok(Some(PropertyReader::Array(a))) => Ok(Some(a)),
            Ok(Some(_)) => {
                proof {
                    assert(false);
                }
                Err(OgawaError::ParsingError(ParsingError::IncompatibleSchema))
            },
            Err(e) => Err(e),
        }
    }

    /// How the topology varies: constant when connectivity, basis and points
    /// (and weights, when present) never change; homogeneous when only the
    /// points move; heterogeneous otherwise.
    pub open spec fn spec_topology_variance(self) -> TopologyVariance {
        if self.n_vertices.header.first_changed_index == 0
            && self.curve_basis_and_type.header.first_changed_index == 0 {
            if self.positions.header.first_changed_index == 0 && (match self.position_weights {
                Some(w) => w.header.first_changed_index == 0,
                None => true,
            }) {
                TopologyVariance::ConstantTopology
            } else {
                TopologyVariance::HomogeneousTopology
            }
        } else {
            TopologyVariance::HeterogeneousTopology
        }
    }

    pub fn topology_variance(&self) -> (r: TopologyVariance)
        ensures
            r == self.spec_topology_variance(),
    {
        if self.n_vertices.is_constant() && self.curve_basis_and_type.is_constant() {
            let points_constant = self.positions.is_constant() && (match &self.position_weights {
                Some(w) => w.is_constant(),
                None => true,
            });
            if points_constant {
                TopologyVariance::ConstantTopology
            } else {
                TopologyVariance::HomogeneousTopology
            }
        } else {
            TopologyVariance::HeterogeneousTopology
        }
    }

    pub fn is_constant(&self) -> (r: bool)
        ensures
            r == (self.spec_topology_variance() == TopologyVariance::ConstantTopology),
    {
        matches!(self.topology_variance(), TopologyVariance::ConstantTopology)
    }

    pub fn has_position_weights(&self) -> (r: bool)
        ensures
            r == (self.position_weights is Some),
    {
        self.position_weights.is_some()
    }

    pub fn has_uv(&self) -> (r: bool)
        ensures
            r == (self.uv is Some),
    {
        self.uv.is_some()
    }

    pub fn has_n(&self) -> (r: bool)
        ensures
            r == (self.n is Some),
    {
        self.n.is_some()
    }

    pub fn has_width(&self) -> (r: bool)
        ensures
            r == (self.width is Some),
    {
        self.width.is_some()
    }

    pub fn has_velocities(&self) -> (r: bool)
        ensures
            r == (self.velocities is Some),
    {
        self.velocities.is_some()
    }

    pub fn has_orders(&self) -> (r: bool)
        ensures
            r == (self.orders is Some),
    {
        self.orders.is_some()
    }

    pub fn has_knots(&self) -> (r: bool)
        ensures
            r == (self.knots is Some),
    {
        self.knots.is_some()
    }

    /// Loads a bounds sample from the underlying geometry base.
    pub fn load_bounds_sample(&self, sample_index: u32, reader: &ByteReader) -> (r: Result<
        BoundingBox,
        OgawaError,
    >)
        requires
            self.wf(),
        ensures
            crate::base_geom::spec_bounds_post(
                self.base_geom.self_bounds,
                reader@,
                sample_index,
                r,
            ),
    {
        self.base_geom.load_bounds_sample(sample_index, reader)
    }

    /// Loads and decodes the curve descriptor sample: at least three bytes
    /// `[curve type, periodicity, basis]`, each of which must be a member of
    /// its closed set; an out-of-range byte is malformed. Succeeds exactly
    /// when the sample loads as at least three u8 values, each in range.
    pub fn load_curve_type_sample(&self, sample_index: u32, reader: &ByteReader) -> (r: Result<
        (CurveType, CurvePeriodicity, BasisType),
        OgawaError,
    >)
        requires
            self.wf(),
        ensures
            ({
                let g = self.curve_basis_and_type.group;
                let h = self.curve_basis_and_type.header;
                let le = spec_load_sample_err(g, h, reader@, sample_index);
                let chunk = spec_sample_at(g, h, reader@, sample_index);
                &&& (r is Ok <==> le is None && h.data_type.pod_type == PodType::U8 && (
                match chunk {
                    Ok((p, s)) => spec_count(s, 1) >= 3 && reader@[p + 24] <= 2 && reader@[p + 25]
                        <= 1 && reader@[p + 26] <= 5,
                    Err(_) => false,
                }))
                &&& (le matches Some(e) ==> r is Err && r->Err_0 == e)
                &&& (le is None && h.data_type.pod_type != PodType::U8 ==> r is Err && r->Err_0
                    == OgawaError::InternalError(InternalError::Unreachable))
                &&& (le is None && h.data_type.pod_type == PodType::U8 && (match chunk {
                    Ok((p, s)) => spec_count(s, 1) < 3,
                    Err(_) => false,
                }) ==> r is Err && r->Err_0 == OgawaError::InternalError(InternalError::Unreachable))
                &&& (le is None && h.data_type.pod_type == PodType::U8 && (match chunk {
                    Ok((p, s)) => spec_count(s, 1) >= 3 && !(reader@[p + 24] <= 2 && reader@[p
                        + 25] <= 1 && reader@[p + 26] <= 5),
                    Err(_) => false,
                }) ==> r is Err && r->Err_0 == OgawaError::ParsingError(
                    ParsingError::InvalidAlembicFile,
                ))
                &&& r is Ok ==> (match chunk {
                    Ok((p, s)) => r->Ok_0.0.spec_tag() == reader@[p + 24] && r->Ok_0.1.spec_tag()
                        == reader@[p + 25] && r->Ok_0.2.spec_tag() == reader@[p + 26],
                    Err(_) => false,
                })
            }),
    {
        let arr = match self.curve_basis_and_type.load_sample(sample_index, reader) {
            Ok(a) => a,
            Err(e) => {
                return Err(e);
            },
        };
        let v = match arr {
            PodArray::U8(v) => v,
            _ => {
                return Err(OgawaError::InternalError(InternalError::Unreachable));
            },
        };
        if v.len() < 3 {
            return Err(OgawaError::InternalError(InternalError::Unreachable));
        }
        let curve_type = match CurveType::try_from_u8(v[0]) {
            Ok(t) => t,
            Err(e) => {
                return Err(OgawaError::ParsingError(e));
            },
        };
        let periodicity = match CurvePeriodicity::try_from_u8(v[1]) {
            Ok(t) => t,
            Err(e) => {
                return Err(OgawaError::ParsingError(e));
            },
        };
        let basis = match BasisType::try_from_u8(v[2]) {
            Ok(t) => t,
            Err(e) => {
                return Err(OgawaError::ParsingError(e));
            },
        };
        Ok((curve_type, periodicity, basis))
    }

    /// Loads the raw basis-and-type sample as four u32 words; any other
    /// shape is malformed. Succeeds exactly when the sample loads as exactly
    /// four u32 values.
    pub fn load_curve_basis_and_type_sample(&self, sample_index: u32, reader: &ByteReader) -> (r:
        Result<[u32; 4], OgawaError>)
        requires
            self.wf(),
        ensures
            ({
                let g = self.curve_basis_and_type.group;
                let h = self.curve_basis_and_type.header;
                let le = spec_load_sample_err(g, h, reader@, sample_index);
                let chunk = spec_sample_at(g, h, reader@, sample_index);
                &&& (r is Ok <==> le is None && h.data_type.pod_type == PodType::U32 && (
                match chunk {
                    Ok((p, s)) => spec_count(s, 4) == 4,
                    Err(_) => false,
                }))
                &&& (le matches Some(e) ==> r is Err && r->Err_0 == e)
                &&& (le is None && h.data_type.pod_type != PodType::U32 ==> r is Err && r->Err_0
                    == OgawaError::InternalError(InternalError::Unreachable))
                &&& (le is None && h.data_type.pod_type == PodType::U32 && (match chunk {
                    Ok((p, s)) => spec_count(s, 4) != 4,
                    Err(_) => false,
                }) ==> r is Err && r->Err_0 == OgawaError::ParsingError(
                    ParsingError::InvalidAlembicFile,
                ))
                &&& r is Ok ==> (match chunk {
                    Ok((p, s)) => forall|j: int|
                        0 <= j < 4 ==> r->Ok_0@[j] == crate::endian::spec_u32_at(
                            reader@,
                            p + 24 + 4 * j,
                        ),
                    Err(_) => false,
                })
            }),
    {
        let arr = match self.curve_basis_and_type.load_sample(sample_index, reader) {
            Ok(a) => a,
            Err(e) => {
                return Err(e);
            },
        };
        let v = match arr {
            PodArray::U32(v) => v,
            _ => {
                return Err(OgawaError::InternalError(InternalError::Unreachable));
            },
        };
        if v.len() != 4 {
            return Err(OgawaError::ParsingError(ParsingError::InvalidAlembicFile));
        }
        Ok([v[0], v[1], v[2], v[3]])
    }

    /// Loads a positions sample as packed `f32`-bit triples.
    pub fn load_positions_sample(&self, sample_index: u32, reader: &ByteReader) -> (r: Result<
        Vec<[u32; 3]>,
        OgawaError,
    >)
        requires
            self.wf(),
        ensures
            r is Ok <==> spec_load_sample_err(
                self.positions.group,
                self.positions.header,
                reader@,
                sample_index,
            ) is None,
            r is Ok ==> match spec_sample_at(
                self.positions.group,
                self.positions.header,
                reader@,
                sample_index,
            ) {
                Ok((p, s)) => r->Ok_0@.len() * 3 == spec_count(s, 4) && forall|i: int, j: int|
                    0 <= i < r->Ok_0@.len() && 0 <= j < 3 ==> r->Ok_0@[i]@[j]
                        == crate::endian::spec_u32_at(reader@, p + 24 + 4 * (3 * i + j)),
                Err(_) => false,
            },
    {
        load_f32x3_sample(&self.positions.group, &self.positions.header, sample_index, reader)
    }

    /// Loads a per-curve vertex-count sample.
    pub fn load_n_vertices_sample(&self, sample_index: u32, reader: &ByteReader) -> (r: Result<
        Vec<i32>,
        OgawaError,
    >)
        requires
            self.wf(),
        ensures
            r is Ok <==> spec_load_sample_err(
                self.n_vertices.group,
                self.n_vertices.header,
                reader@,
                sample_index,
            ) is None,
            r is Ok ==> match spec_sample_at(
                self.n_vertices.group,
                self.n_vertices.header,
                reader@,
                sample_index,
            ) {
                Ok((p, s)) => r->Ok_0@.len() == spec_count(s, 4) && forall|i: int|
                    0 <= i < r->Ok_0@.len() ==> r->Ok_0@[i] as int == crate::endian::spec_i32_v(
                        crate::endian::spec_u32_at(reader@, p + 24 + 4 * i),
                    ),
                Err(_) => false,
            },
    {
        load_i32_sample(&self.n_vertices.group, &self.n_vertices.header, sample_index, reader)
    }

    /// Loads a texture-coordinate sample as packed `f32`-bit pairs, when the
    /// `uv` property is present.
    pub fn load_uv_sample(&self, sample_index: u32, reader: &ByteReader) -> (r: Result<
        Option<Vec<[u32; 2]>>,
        OgawaError,
    >)
        requires
            self.wf(),
        ensures
            self.uv is None ==> r is Ok && r->Ok_0 is None,
            self.uv matches Some(a) ==> {
                let le = spec_load_sample_err(a.group, a.header, reader@, sample_index);
                &&& (r is Ok <==> le is None)
                &&& (r is Err ==> Some(r->Err_0) == le)
                &&& r is Ok ==> (match spec_sample_at(a.group, a.header, reader@, sample_index) {
                    Ok((p, s)) => (r->Ok_0 matches Some(v) && v@.len() * 2 == spec_count(s, 4) && (
                    forall|i: int, j: int|
                        0 <= i < v@.len() && 0 <= j < 2 ==> v@[i]@[j] == crate::endian::spec_u32_at(
                            reader@,
                            p + 24 + 4 * (2 * i + j),
                        ))),
                    Err(_) => false,
                })
            },
    {
        match &self.uv {
            Some(a) => match load_f32x2_sample(&a.group, &a.header, sample_index, reader) {
                Ok(v) => Ok(Some(v)),
                Err(e) => Err(e),
            },
            None => Ok(None),
        }
    }

    /// Loads a widths sample as `f32` bit patterns, when the `width`
    /// property is present.
    pub fn load_widths_sample(&self, sample_index: u32, reader: &ByteReader) -> (r: Result<
        Option<Vec<u32>>,
        OgawaError,
    >)
        requires
            self.wf(),
        ensures
            self.width is None ==> r is Ok && r->Ok_0 is None,
            self.width matches Some(a) ==> {
                let le = spec_load_sample_err(a.group, a.header, reader@, sample_index);
                &&& (r is Ok <==> le is None)
                &&& (r is Err ==> Some(r->Err_0) == le)
                &&& r is Ok ==> (match spec_sample_at(a.group, a.header, reader@, sample_index) {
                    Ok((p, s)) => (r->Ok_0 matches Some(v) && v@.len() == spec_count(s, 4) && (
                    forall|i: int|
                        0 <= i < v@.len() ==> v@[i] == crate::endian::spec_u32_at(
                            reader@,
                            p + 24 + 4 * i,
                        ))),
                    Err(_) => false,
                })
            },
    {
        match &self.width {
            Some(a) => match load_f32_sample(&a.group, &a.header, sample_index, reader) {
                Ok(v) => Ok(Some(v)),
                Err(e) => Err(e),
            },
            None => Ok(None),
        }
    }

    /// Loads a velocities sample as packed `f32`-bit triples, when the
    /// `.velocities` property is present.
    pub fn load_velocities_sample(&self, sample_index: u32, reader: &ByteReader) -> (r: Result<
        Option<Vec<[u32; 3]>>,
        OgawaError,
    >)
        requires
            self.wf(),
        ensures
            self.velocities is None ==> r is Ok && r->Ok_0 is None,
            self.velocities matches Some(a) ==> {
                let le = spec_load_sample_err(a.group, a.header, reader@, sample_index);
                &&& (r is Ok <==> le is None)
                &&& (r is Err ==> Some(r->Err_0) == le)
                &&& r is Ok ==> (match spec_sample_at(a.group, a.header, reader@, sample_index) {
                    Ok((p, s)) => (r->Ok_0 matches Some(v) && v@.len() * 3 == spec_count(s, 4) && (
                    forall|i: int, j: int|
                        0 <= i < v@.len() && 0 <= j < 3 ==> v@[i]@[j] == crate::endian::spec_u32_at(
                            reader@,
                            p + 24 + 4 * (3 * i + j),
                        ))),
                    Err(_) => false,
                })
            },
    {
        match &self.velocities {
            Some(a) => match load_f32x3_sample(&a.group, &a.header, sample_index, reader) {
                Ok(v) => Ok(Some(v)),
                Err(e) => Err(e),
            },
            None => Ok(None),
        }
    }

    /// Loads an orders sample, when the `.orders` property is present.
    pub fn load_orders_sample(&self, sample_index: u32, reader: &ByteReader) -> (r: Result<
        Option<Vec<u8>>,
        OgawaError,
    >)
        requires
            self.wf(),
        ensures
            self.orders is None ==> r is Ok && r->Ok_0 is None,
            self.orders matches Some(a) ==> {
                let le = spec_load_sample_err(a.group, a.header, reader@, sample_index);
                &&& (r is Ok <==> le is None)
                &&& (r is Err ==> Some(r->Err_0) == le)
                &&& r is Ok ==> (match spec_sample_at(a.group, a.header, reader@, sample_index) {
                    Ok((p, s)) => (r->Ok_0 matches Some(v) && v@.len() == spec_count(s, 1) && (
                    forall|i: int| 0 <= i < v@.len() ==> v@[i] == reader@[p + 24 + i])),
                    Err(_) => false,
                })
            },
    {
        match &self.orders {
            Some(a) => match load_u8_sample(&a.group, &a.header, sample_index, reader) {
                Ok(v) => Ok(Some(v)),
                Err(e) => Err(e),
            },
            None => Ok(None),
        }
    }

    /// Loads a knots sample as `f32` bit patterns, when the `.knots`
    /// property is present.
    pub fn load_knots_sample(&self, sample_index: u32, reader: &ByteReader) -> (r: Result<
        Option<Vec<u32>>,
        OgawaError,
    >)
        requires
            self.wf(),
        ensures
            self.knots is None ==> r is Ok && r->Ok_0 is None,
            self.knots matches Some(a) ==> {
                let le = spec_load_sample_err(a.group, a.header, reader@, sample_index);
                &&& (r is Ok <==> le is None)
                &&& (r is Err ==> Some(r->Err_0) == le)
                &&& r is Ok ==> (match spec_sample_at(a.group, a.header, reader@, sample_index) {
                    Ok((p, s)) => (r->Ok_0 matches Some(v) && v@.len() == spec_count(s, 4) && (
                    forall|i: int|
                        0 <= i < v@.len() ==> v@[i] == crate::endian::spec_u32_at(
                            reader@,
                            p + 24 + 4 * i,
                        ))),
                    Err(_) => false,
                })
            },
    {
        match &self.knots {
            Some(a) => match load_f32_sample(&a.group, &a.header, sample_index, reader) {
                Ok(v) => Ok(Some(v)),
                Err(e) => Err(e),
            },
            None => Ok(None),
        }
    }
}

} // verus!
