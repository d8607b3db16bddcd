//! The transform schema: optional child bounds, inheritance flag, transform
//! values and parameter compounds, with derived constancy flags.
use vstd::prelude::*;
use crate::archive::Archive;
use crate::base_geom::load_geom_compound;
use crate::compound::{
    spec_compound_at, spec_find_last, spec_find_last_model, spec_optional_err_at, spec_sub_err_at,
    CompoundPropertyReader, PropertyReader,
};
use crate::error::{OgawaError, ParsingError};
use crate::pod::{DataType, PodType};
use crate::curves::spec_first_fault;
use crate::property::{PropertyType, ScalarPropertyReader};
use crate::reader::ByteReader;

verus! {

/// A transform object: optional `.childBnds` bounds, `.arbGeomParams` and
/// `.userProperties` compounds, and the constancy flags derived from the
/// `.vals` and `.inherits` properties.
#[derive(Debug)]
pub struct XformSchema {
    pub child_bounds: Option<ScalarPropertyReader>,
    pub arb_geometry_parameters: Option<CompoundPropertyReader>,
    pub user_properties: Option<CompoundPropertyReader>,
    pub is_constant_identity: bool,
    pub is_constant: bool,
}

/// The element type of the child-bounds property: six doubles.
pub open spec fn spec_bool_type() -> DataType {
    DataType { pod_type: PodType::Boolean, extent: 1 }
}

/// Why examining the `.vals` property fails — or `None` when it is absent
/// or loads as a scalar or array: a compound `.vals` is an incompatible
/// schema.
pub open spec fn spec_vals_err_at(
    bytes: Seq<u8>,
    gpos: u64,
    hs: Seq<crate::property::HeaderModel>,
    imodels: Seq<Map<Seq<char>, Seq<char>>>,
    n_ts: int,
) -> Option<OgawaError> {
    let fi = spec_find_last_model(hs, ".vals"@);
    if fi < 0 {
        None
    } else {
        match spec_sub_err_at(bytes, gpos, hs, fi, imodels, n_ts) {
            Some(e) => Some(e),
            None => if hs[fi].0.1 is Compound {
                Some(OgawaError::ParsingError(ParsingError::IncompatibleSchema))
            } else {
                None
            },
        }
    }
}

/// Why building a transform schema from the compound grounded at `gpos`
/// fails — or `None` when it succeeds: every present optional must load
/// with its demanded kind and type, in the order they are examined.
pub open spec fn spec_xform_err_at(
    bytes: Seq<u8>,
    gpos: u64,
    hs: Seq<crate::property::HeaderModel>,
    imodels: Seq<Map<Seq<char>, Seq<char>>>,
    n_ts: int,
) -> Option<OgawaError> {
    spec_first_fault(
        spec_optional_err_at(
            bytes,
            gpos,
            hs,
            ".childBnds"@,
            PropertyType::Scalar,
            Some(crate::base_geom::spec_box_type()),
            imodels,
            n_ts,
        ),
        spec_first_fault(
            spec_optional_err_at(
                bytes,
                gpos,
                hs,
                ".inherits"@,
                PropertyType::Scalar,
                Some(spec_bool_type()),
                imodels,
                n_ts,
            ),
            spec_first_fault(
                spec_vals_err_at(bytes, gpos, hs, imodels, n_ts),
                spec_first_fault(
                    spec_optional_err_at(
                        bytes,
                        gpos,
                        hs,
                        ".arbGeomParams"@,
                        PropertyType::Compound,
                        None,
                        imodels,
                        n_ts,
                    ),
                    spec_optional_err_at(
                        bytes,
                        gpos,
                        hs,
                        ".userProperties"@,
                        PropertyType::Compound,
                        None,
                        imodels,
                        n_ts,
                    ),
                ),
            ),
        ),
    )
}

/// Why building a transform schema from an object fails — or `None` when it
/// succeeds.
pub open spec fn spec_xform_object_err(
    object: crate::object::ObjectReader,
    bytes: Seq<u8>,
    imodels: Seq<Map<Seq<char>, Seq<char>>>,
    n_ts: int,
) -> Option<OgawaError> {
    match crate::base_geom::spec_geom_prefix_err(object, bytes, imodels, n_ts) {
        Some(e) => Some(e),
        None => spec_xform_err_at(
            bytes,
            crate::base_geom::spec_geom_pos(object, bytes),
            spec_compound_at(
                bytes,
                crate::base_geom::spec_geom_pos(object, bytes),
                imodels,
                n_ts,
            )->Ok_0,
            imodels,
            n_ts,
        ),
    }
}

impl XformSchema {
    pub open spec fn wf(self) -> bool {
        &&& self.child_bounds matches Some(b) ==> b.wf()
        &&& self.arb_geometry_parameters matches Some(c) ==> c.wf()
        &&& self.user_properties matches Some(c) ==> c.wf()
    }

    /// Builds the schema from an object's property root. Succeeds exactly
    /// when the geometry compound loads and every present optional meets
    /// its demand.
    pub fn new_from_object_reader(
        object: &crate::object::ObjectReader,
        reader: &ByteReader,
        archive: &Archive,
    ) -> (r: Result<XformSchema, OgawaError>)
        requires
            object.wf(),
            object.grounded(reader@),
            archive.wf(),
        ensures
            ({
                let imodels = crate::metadata::spec_table_models(archive.indexed_meta_data@);
                let n_ts = archive.time_samplings@.len() as int;
                let outcome = spec_xform_object_err(*object, reader@, imodels, n_ts);
                &&& (r is Ok <==> outcome is None)
                &&& (r is Err ==> Some(r->Err_0) == outcome)
                &&& r is Ok ==> ({
                    let hs = spec_compound_at(
                        reader@,
                        crate::base_geom::spec_geom_pos(*object, reader@),
                        imodels,
                        n_ts,
                    )->Ok_0;
                    &&& r->Ok_0.is_constant_identity == (spec_find_last_model(
                        hs,
                        ".isNotConstantIdentity"@,
                    ) < 0)
                    &&& r->Ok_0.is_constant == ({
                        &&& (spec_find_last_model(hs, ".vals"@) >= 0 ==> hs[spec_find_last_model(
                            hs,
                            ".vals"@,
                        )].2.1 == 0)
                        &&& (spec_find_last_model(hs, ".inherits"@) >= 0 ==> hs[
                        spec_find_last_model(hs, ".inherits"@)].2.1 == 0)
                    })
                })
            }),
            object.cp_reader is None ==> r is Err && r->Err_0 == OgawaError::ParsingError(
                ParsingError::IncompatibleSchema,
            ),
            r is Ok ==> r->Ok_0.wf(),
    {
        let properties = match load_geom_compound(object, reader, archive) {
            Ok(c) => c,
            Err(e) => {
                return Err(e);
            },
        };
        proof {
            crate::compound::lemma_find_last_model(
                properties.property_headers@,
                ".isNotConstantIdentity"@,
            );
            crate::compound::lemma_find_last_model(properties.property_headers@, ".vals"@);
            crate::compound::lemma_find_last_model(properties.property_headers@, ".inherits"@);
        }
        Self::new_from_properties(&properties, reader, archive)
    }

    /// Builds the schema from the geometry compound. The transform is a
    /// constant identity exactly when no `.isNotConstantIdentity` property
    /// exists; it is constant when the `.vals` and `.inherits` properties,
    /// where present, never change. Succeeds exactly when every present
    /// optional meets its demand; a compound `.vals` or a wrong-typed
    /// optional is an incompatible schema.
    #[verifier::rlimit(100)]
    pub fn new_from_properties(
        properties: &CompoundPropertyReader,
        reader: &ByteReader,
        archive: &Archive,
    ) -> (r: Result<XformSchema, OgawaError>)
        requires
            properties.wf(),
            properties.grounded(reader@),
            archive.wf(),
        ensures
            ({
                let outcome = spec_xform_err_at(
                    reader@,
                    properties.group.position,
                    crate::compound::spec_header_models(properties.property_headers@),
                    crate::metadata::spec_table_models(archive.indexed_meta_data@),
                    archive.time_samplings@.len() as int,
                );
                &&& (r is Ok <==> outcome is None)
                &&& (r is Err ==> Some(r->Err_0) == outcome)
            }),
            r is Ok ==> r->Ok_0.wf(),
            r is Ok ==> r->Ok_0.is_constant_identity == (spec_find_last(
                properties.property_headers@,
                ".isNotConstantIdentity"@,
            ) < 0),
            r is Ok ==> r->Ok_0.is_constant == {
                let hs = properties.property_headers@;
                &&& (spec_find_last(hs, ".vals"@) >= 0 ==> hs[spec_find_last(
                    hs,
                    ".vals"@,
                )].first_changed_index == 0)
                &&& (spec_find_last(hs, ".inherits"@) >= 0 ==> hs[spec_find_last(
                    hs,
                    ".inherits"@,
                )].first_changed_index == 0)
            },
    {
        proof {
            crate::compound::lemma_find_last_model(properties.property_headers@, ".vals"@);
            crate::compound::lemma_find_last_model(properties.property_headers@, ".inherits"@);
            crate::compound::lemma_find_last_model(
                properties.property_headers@,
                ".isNotConstantIdentity"@,
            );
        }
        let box_type = DataType { pod_type: PodType::F64, extent: 6 };
        let bool_type = DataType { pod_type: PodType::Boolean, extent: 1 };
        let child_bounds = match properties.load_optional(
            ".childBnds",
            PropertyType::Scalar,
            Some(&box_type),
            reader,
            &archive.indexed_meta_data,
            &archive.time_samplings,
        ) {
            Ok(None) => None,
            Ok(Some(PropertyReader::Scalar(p))) => Some(p),
            Ok(Some(_)) => {
                proof {
                    assert(false);
                }
                return Err(OgawaError::ParsingError(ParsingError::IncompatibleSchema));
            },
            Err(e) => {
                return Err(e);
            },
        };
        let inherits = match properties.load_optional(
            ".inherits",
            PropertyType::Scalar,
            Some(&bool_type),
            reader,
            &archive.indexed_meta_data,
            &archive.time_samplings,
        ) {
            Ok(None) => None,
            Ok(Some(PropertyReader::Scalar(p))) => Some(p),
            Ok(Some(_)) => {
                proof {
                    assert(false);
                }
                return Err(OgawaError::ParsingError(ParsingError::IncompatibleSchema));
            },
            Err(e) => {
                return Err(e);
            },
        };
        // `.vals` may be scalar or array, of any element type; a compound is
        // an incompatible schema
        let mut vals_constant = true;
        match properties.find_sub_property_index(".vals") {
            None => {},
            Some(index) => {
                let vals = match properties.load_sub_property(
                    index,
                    reader,
                    &archive.indexed_meta_data,
                    &archive.time_samplings,
                ) {
                    Ok(p) => p,
                    Err(e) => {
                        proof {
                            properties.lemma_sub_err_at(
                                reader@,
                                index as int,
                                crate::metadata::spec_table_models(archive.indexed_meta_data@),
                                archive.time_samplings@.len() as int,
                                Err(e),
                            );
                        }
                        return Err(e);
                    },
                };
                proof {
                    properties.lemma_sub_err_at(
                        reader@,
                        index as int,
                        crate::metadata::spec_table_models(archive.indexed_meta_data@),
                        archive.time_samplings@.len() as int,
                        Ok(vals),
                    );
                }
                vals_constant = match &vals {
                    PropertyReader::Array(a) => a.is_constant(),
                    PropertyReader::Scalar(p) => p.is_constant(),
                    PropertyReader::Compound(_) => {
                        return Err(OgawaError::ParsingError(ParsingError::IncompatibleSchema));
                    },
                };
            },
        }
        let inherits_constant: bool = match &inherits {
            Some(p) => p.is_constant(),
            None => true,
        };
        let is_constant = vals_constant && inherits_constant;
        let is_constant_identity = match properties.find_sub_property_index(
            ".isNotConstantIdentity",
        ) {
            Some(_) => false,
            None => true,
        };
        let arb_geometry_parameters = match properties.load_optional(
            ".arbGeomParams",
            PropertyType::Compound,
            None,
            reader,
            &archive.indexed_meta_data,
            &archive.time_samplings,
        ) {
            Ok(None) => None,
            Ok(Some(PropertyReader::Compound(c))) => Some(c),
            Ok(Some(_)) => {
                proof {
                    assert(false);
                }
                return Err(OgawaError::ParsingError(ParsingError::IncompatibleSchema));
            },
            Err(e) => {
                return Err(e);
            },
        };
        let user_properties = match properties.load_optional(
            ".userProperties",
            PropertyType::Compound,
            None,
            reader,
            &archive.indexed_meta_data,
            &archive.time_samplings,
        ) {
            Ok(None) => None,
            Ok(Some(PropertyReader::Compound(c))) => Some(c),
            Ok(Some(_)) => {
                proof {
                    assert(false);
                }
                return Err(OgawaError::ParsingError(ParsingError::IncompatibleSchema));
            },
            Err(e) => {
                return Err(e);
            },
        };
        Ok(
            XformSchema {
                child_bounds,
                arb_geometry_parameters,
                user_properties,
                is_constant_identity,
                is_constant,
            },
        )
    }

    pub fn is_constant(&self) -> (r: bool)
        ensures
            r == self.is_constant,
    {
        self.is_constant
    }

    pub fn is_constant_identity(&self) -> (r: bool)
        ensures
            r == self.is_constant_identity,
    {
        self.is_constant_identity
    }
}

} // verus!
