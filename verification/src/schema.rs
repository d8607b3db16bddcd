//! The schema classifier: reads an object's `schema` metadata token (falling
//! back to the token of its property root's first sub-compound) and builds
//! the typed view it names.
use vstd::prelude::*;
use crate::archive::Archive;
use crate::base_geom::BaseGeomSchema;
use crate::curves::CurvesSchema;
use crate::error::{OgawaError, ParsingError};
use crate::metadata::str_eq;
use crate::object::ObjectReader;
use crate::polymesh::PolyMeshSchema;
use crate::property::PropertyType;
use crate::reader::ByteReader;
use crate::xform::XformSchema;

verus! {

/// A typed view of an object, as named by its schema token.
#[derive(Debug)]
pub enum Schema {
    BaseGeom(Box<BaseGeomSchema>),
    Curves(Box<CurvesSchema>),
    Xform(Box<XformSchema>),
    PolyMesh(Box<PolyMeshSchema>),
}

/// The object's schema token: the `schema` entry of its own metadata, or,
/// failing that, of the metadata of its property root's first sub-compound.
pub open spec fn spec_schema_token(object: ObjectReader) -> Option<Seq<char>> {
    if object.header.meta_data.spec_map().contains_key("schema"@) {
        Some(object.header.meta_data.spec_map()["schema"@])
    } else {
        match object.cp_reader {
            Some(props) => if props.property_headers@.len() >= 1
                && props.property_headers@[0].property_type is Compound
                && props.property_headers@[0].meta_data.spec_map().contains_key("schema"@) {
                Some(props.property_headers@[0].meta_data.spec_map()["schema"@])
            } else {
                None
            },
            None => None,
        }
    }
}

/// Whether a token names a schema this decoder recognises but does not
/// build: subdivision surfaces, NURBS patches, face sets, points, lights
/// and cameras.
pub open spec fn spec_unsupported_token(tok: Seq<char>) -> bool {
    ||| tok == "AbcGeom_SubD_v1"@
    ||| tok == "AbcGeom_NuPatch_v2"@
    ||| tok == "AbcGeom_FaceSet_v1"@
    ||| tok == "AbcGeom_Points_v1"@
    ||| tok == "AbcGeom_Light_v1"@
    ||| tok == "AbcGeom_Camera_v1"@
}

impl Schema {
    /// Classifies an object by its schema token and builds the typed view:
    /// curves, generic geometry, transform or polygonal mesh. A recognised
    /// but unimplemented token is unsupported; an unknown or missing token
    /// is an incompatible schema.
    pub fn parse(object: &ObjectReader, reader: &ByteReader, archive: &Archive) -> (r: Result<
        Schema,
        OgawaError,
    >)
        requires
            object.wf(),
            object.grounded(reader@),
            archive.wf(),
        ensures
            spec_schema_token(*object) is None ==> r is Err && r->Err_0 == OgawaError::ParsingError(
                ParsingError::IncompatibleSchema,
            ),
            spec_schema_token(*object) matches Some(tok) ==> ({
                let imodels = crate::metadata::spec_table_models(archive.indexed_meta_data@);
                let n_ts = archive.time_samplings@.len() as int;
                &&& tok == "AbcGeom_Curve_v2"@ ==> ({
                    let outcome = crate::curves::spec_curves_object_err(
                        *object,
                        reader@,
                        imodels,
                        n_ts,
                    );
                    &&& (r is Ok <==> outcome is None)
                    &&& (r is Err ==> Some(r->Err_0) == outcome)
                    &&& (r is Ok ==> (r->Ok_0 matches Schema::Curves(c) && c.wf()))
                })
                &&& tok == "AbcGeom_GeomBase_v1"@ ==> ({
                    let outcome = crate::base_geom::spec_base_geom_object_err(
                        *object,
                        reader@,
                        imodels,
                        n_ts,
                    );
                    &&& (r is Ok <==> outcome is None)
                    &&& (r is Err ==> Some(r->Err_0) == outcome)
                    &&& (r is Ok ==> (r->Ok_0 matches Schema::BaseGeom(b) && b.wf()))
                })
                &&& tok == "AbcGeom_Xform_v3"@ ==> ({
                    let outcome = crate::xform::spec_xform_object_err(
                        *object,
                        reader@,
                        imodels,
                        n_ts,
                    );
                    &&& (r is Ok <==> outcome is None)
                    &&& (r is Err ==> Some(r->Err_0) == outcome)
                    &&& (r is Ok ==> (r->Ok_0 matches Schema::Xform(x) && x.wf()))
                })
                &&& tok == "AbcGeom_PolyMesh_v1"@ ==> ({
                    let outcome = crate::polymesh::spec_polymesh_object_err(
                        *object,
                        reader@,
                        imodels,
                        n_ts,
                    );
                    &&& (r is Ok <==> outcome is None)
                    &&& (r is Err ==> Some(r->Err_0) == outcome)
                    &&& (r is Ok ==> (r->Ok_0 matches Schema::PolyMesh(m) && m.wf()))
                })
                &&& spec_unsupported_token(tok) ==> r is Err && r->Err_0
                    == OgawaError::ParsingError(ParsingError::UnsupportedAlembicFile)
                &&& !(tok == "AbcGeom_Curve_v2"@ || tok == "AbcGeom_GeomBase_v1"@ || tok
                    == "AbcGeom_Xform_v3"@ || tok == "AbcGeom_PolyMesh_v1"@
                    || spec_unsupported_token(tok)) ==> r is Err && r->Err_0
                    == OgawaError::ParsingError(ParsingError::IncompatibleSchema)
            }),
    {
        proof {
            reveal_strlit("AbcGeom_Curve_v2");
            reveal_strlit("AbcGeom_GeomBase_v1");
            reveal_strlit("AbcGeom_Xform_v3");
            reveal_strlit("AbcGeom_PolyMesh_v1");
            reveal_strlit("AbcGeom_SubD_v1");
            reveal_strlit("AbcGeom_NuPatch_v2");
            reveal_strlit("AbcGeom_FaceSet_v1");
            reveal_strlit("AbcGeom_Points_v1");
            reveal_strlit("AbcGeom_Light_v1");
            reveal_strlit("AbcGeom_Camera_v1");
            // the recognised tokens are pairwise distinct: they differ in
            // length or in the character after the family prefix
            assert("AbcGeom_Curve_v2"@.len() == 16 && "AbcGeom_Curve_v2"@[8] == 'C');
            assert("AbcGeom_GeomBase_v1"@.len() == 19 && "AbcGeom_GeomBase_v1"@[8] == 'G');
            assert("AbcGeom_Xform_v3"@.len() == 16 && "AbcGeom_Xform_v3"@[8] == 'X');
            assert("AbcGeom_PolyMesh_v1"@.len() == 19 && "AbcGeom_PolyMesh_v1"@[8] == 'P');
            assert("AbcGeom_SubD_v1"@.len() == 15 && "AbcGeom_SubD_v1"@[8] == 'S');
            assert("AbcGeom_NuPatch_v2"@.len() == 18 && "AbcGeom_NuPatch_v2"@[8] == 'N');
            assert("AbcGeom_FaceSet_v1"@.len() == 18 && "AbcGeom_FaceSet_v1"@[8] == 'F');
            assert("AbcGeom_Points_v1"@.len() == 17 && "AbcGeom_Points_v1"@[8] == 'P');
            assert("AbcGeom_Light_v1"@.len() == 16 && "AbcGeom_Light_v1"@[8] == 'L');
            assert("AbcGeom_Camera_v1"@.len() == 17 && "AbcGeom_Camera_v1"@[8] == 'C');
        }
        let mut schema_type: Option<String> = object.header.meta_data.get("schema");
        if schema_type.is_none() {
            if let Some(props) = object.properties() {
                if props.sub_property_count() >= 1 {
                    let h = &props.property_headers[0];
                    if matches!(h.property_type, PropertyType::Compound) {
                        schema_type = h.meta_data.get("schema");
                    }
                }
            }
        }
        let token = match schema_type {
            Some(t) => t,
            None => {
                return Err(OgawaError::ParsingError(ParsingError::IncompatibleSchema));
            },
        };
        if str_eq(token.as_str(), "AbcGeom_Curve_v2") {
            match CurvesSchema::new_from_object_reader(object, reader, archive) {
                Ok(c) => Ok(Schema::Curves(Box::new(c))),
                Err(e) => Err(e),
            }
        } else if str_eq(token.as_str(), "AbcGeom_GeomBase_v1") {
            match BaseGeomSchema::new_from_object_reader(object, reader, archive) {
                Ok(b) => Ok(Schema::BaseGeom(Box::new(b))),
                Err(e) => Err(e),
            }
        } else if str_eq(token.as_str(), "AbcGeom_Xform_v3") {
            match XformSchema::new_from_object_reader(object, reader, archive) {
                Ok(x) => Ok(Schema::Xform(Box::new(x))),
                Err(e) => Err(e),
            }
        } else if str_eq(token.as_str(), "AbcGeom_PolyMesh_v1") {
            match PolyMeshSchema::new_from_object_reader(object, reader, archive) {
                Ok(m) => Ok(Schema::PolyMesh(Box::new(m))),
                Err(e) => Err(e),
            }
        } else if str_eq(token.as_str(), "AbcGeom_SubD_v1") || str_eq(
            token.as_str(),
            "AbcGeom_NuPatch_v2",
        ) || str_eq(token.as_str(), "AbcGeom_FaceSet_v1") || str_eq(
            token.as_str(),
            "AbcGeom_Points_v1",
        ) || str_eq(token.as_str(), "AbcGeom_Light_v1") || str_eq(
            token.as_str(),
            "AbcGeom_Camera_v1",
        ) {
            Err(OgawaError::ParsingError(ParsingError::UnsupportedAlembicFile))
        } else {
            Err(OgawaError::ParsingError(ParsingError::IncompatibleSchema))
        }
    }
}

} // verus!
