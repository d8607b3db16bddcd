//! End-to-end scenarios over hand-crafted archives.
use ogawa::{Archive, ByteReader, CompoundPropertyReader, DataType, GroupChunk, OgawaError};
use ogawa::{ParsingError, PodType, Schema};
use ogawa::{BasisType, CurvePeriodicity, CurveType, TopologyVariance};

const DATA_TAG: u64 = 1u64 << 63;

/// Builds archive bodies chunk by chunk; the 16-byte envelope header is
/// prepended at the end.
struct Arena {
    bytes: Vec<u8>,
}

impl Arena {
    fn new() -> Arena {
        Arena { bytes: Vec::new() }
    }

    fn pos(&self) -> u64 {
        16 + self.bytes.len() as u64
    }

    fn data(&mut self, payload: &[u8]) -> u64 {
        let p = self.pos();
        self.bytes.extend_from_slice(&(payload.len() as u64).to_le_bytes());
        self.bytes.extend_from_slice(payload);
        p | DATA_TAG
    }

    fn group(&mut self, children: &[u64]) -> u64 {
        let p = self.pos();
        self.bytes.extend_from_slice(&(children.len() as u64).to_le_bytes());
        for c in children {
            self.bytes.extend_from_slice(&c.to_le_bytes());
        }
        p
    }

    fn finish(self, root: u64, version: u16) -> Vec<u8> {
        let mut f = vec![0x4f, 0x67, 0x61, 0x77, 0x61, 0x00];
        f.extend_from_slice(&version.to_le_bytes());
        f.extend_from_slice(&root.to_le_bytes());
        f.extend_from_slice(&self.bytes);
        f
    }
}

/// An array payload: the 16-byte prefix then the element bytes.
fn array_payload(elems: &[u8]) -> Vec<u8> {
    let mut p = vec![0u8; 16];
    p.extend_from_slice(elems);
    p
}

fn build_empty_archive() -> Vec<u8> {
    let mut a = Arena::new();
    let v0 = a.data(&[1, 0, 0, 0]);
    let v1 = a.data(&[1, 0, 0, 0]);
    let root = a.group(&[v0, v1, 0, DATA_TAG, DATA_TAG, DATA_TAG]);
    a.finish(root, 1)
}

#[test]
fn empty_archive_decodes() {
    let reader = ByteReader::new(build_empty_archive());
    let archive = Archive::new(&reader).unwrap();
    assert_eq!(archive.alembic_file_version, 1);
    assert_eq!(archive.version, 1);
    assert_eq!(archive.ogawa_file_version, 1);
    assert_eq!(archive.time_samplings.len(), 1);
    assert_eq!(archive.indexed_meta_data.len(), 1);
    let root = archive.load_root_object(&reader).unwrap();
    assert_eq!(root.child_count(), 0);
    assert_eq!(root.header.name, "ABC");
    assert_eq!(root.header.full_name, "/");
}

#[test]
fn bad_magic_is_unsupported() {
    let mut bytes = build_empty_archive();
    bytes[0] = b'a';
    bytes[1] = b'b';
    bytes[2] = b'c';
    bytes[3] = b'd';
    bytes[4] = b'e';
    let reader = ByteReader::new(bytes);
    let err = Archive::new(&reader).unwrap_err();
    assert_eq!(err, OgawaError::ParsingError(ParsingError::UnsupportedAlembicFile));
}

#[test]
fn huge_file_version_is_unsupported() {
    let reader = ByteReader::new(Arena::new().finish(16, 9999));
    let err = Archive::new(&reader).unwrap_err();
    assert_eq!(err, OgawaError::ParsingError(ParsingError::UnsupportedAlembicFile));
}

#[test]
fn light_group_fetches_single_child() {
    let mut a = Arena::new();
    let mut subgroups = Vec::new();
    for _ in 0..12 {
        subgroups.push(a.group(&[DATA_TAG]));
    }
    let main = a.group(&subgroups);
    let bytes = a.finish(main, 1);
    let reader = ByteReader::new(bytes);
    let g = GroupChunk::load(main, true, &reader).unwrap();
    assert!(g.is_light());
    assert_eq!(g.child_count, 12);
    assert_eq!(g.children.len(), 0);
    let sub = g.load_group(&reader, 7, false).unwrap();
    assert_eq!(sub.position, subgroups[7]);
    assert_eq!(sub.child_count, 1);
    // an eager load of the same group materialises all twelve children
    let eager = GroupChunk::load(main, false, &reader).unwrap();
    assert!(!eager.is_light());
    assert_eq!(eager.children.len(), 12);
    assert_eq!(eager.children[7], subgroups[7]);
}

/// One property header with hint-width u8 fields, the all-constant marker
/// and metadata table entry 0.
fn prop_header(kind: u32, pod: u32, extent: u32, name: &str) -> Vec<u8> {
    let info: u32 = kind | (pod << 4) | (extent << 12) | 0x800;
    let mut h = info.to_le_bytes().to_vec();
    if kind != 0 {
        h.push(1); // next_sample_index
    }
    h.push(name.len() as u8);
    h.extend_from_slice(name.as_bytes());
    h
}

/// A compound sub-property header (no sample fields).
fn compound_header(name: &str) -> Vec<u8> {
    let mut h = 0u32.to_le_bytes().to_vec();
    h.push(name.len() as u8);
    h.extend_from_slice(name.as_bytes());
    h
}

/// Builds an archive holding one curves object named `curves01`; `uv_extent`
/// adds an optional `uv` array property with the given extent.
fn build_curves_archive(uv_extent: Option<u32>) -> Vec<u8> {
    build_object_archive(uv_extent, "AbcGeom_Curve_v2")
}

/// Builds an archive holding one object whose inline metadata carries the
/// given schema token.
fn build_object_archive(uv_extent: Option<u32>, token: &str) -> Vec<u8> {
    let mut a = Arena::new();
    // sample chunks and per-property groups
    let selfb_chunk = a.data(&array_payload(&[0u8; 48]));
    let selfb_group = a.group(&[selfb_chunk]);
    let mut p_elems = Vec::new();
    for _ in 0..18 {
        p_elems.extend_from_slice(&1.0f32.to_bits().to_le_bytes());
    }
    let p_chunk = a.data(&array_payload(&p_elems));
    let p_group = a.group(&[p_chunk]);
    let mut nv_elems = Vec::new();
    nv_elems.extend_from_slice(&3i32.to_le_bytes());
    nv_elems.extend_from_slice(&3i32.to_le_bytes());
    let nv_chunk = a.data(&array_payload(&nv_elems));
    let nv_group = a.group(&[nv_chunk]);
    let cbt_chunk = a.data(&array_payload(&[1, 0, 1]));
    let cbt_group = a.group(&[cbt_chunk]);
    let uv_group = uv_extent.map(|_| {
        let uv_chunk = a.data(&array_payload(&[0u8; 24]));
        a.group(&[uv_chunk])
    });
    // the geometry compound: bodies in header order, then the header block
    let mut hdrs = Vec::new();
    hdrs.extend(prop_header(1, 11, 6, ".selfBnds"));
    hdrs.extend(prop_header(2, 10, 3, "P"));
    hdrs.extend(prop_header(2, 6, 1, "nVertices"));
    hdrs.extend(prop_header(1, 1, 1, "curveBasisAndType"));
    if let Some(e) = uv_extent {
        hdrs.extend(prop_header(2, 10, e, "uv"));
    }
    let geom_hdr_chunk = a.data(&hdrs);
    let mut geom_children = vec![selfb_group, p_group, nv_group, cbt_group];
    if let Some(g) = uv_group {
        geom_children.push(g);
    }
    geom_children.push(geom_hdr_chunk);
    let geom_group = a.group(&geom_children);
    // the object's property root holds the one `.geom` compound
    let root_hdr_chunk = a.data(&compound_header(".geom"));
    let prop_root = a.group(&[geom_group, root_hdr_chunk]);
    let curves_obj = a.group(&[prop_root]);
    // the root object: empty property root, one child, its header block
    let mut oh = Vec::new();
    oh.extend_from_slice(&8u32.to_le_bytes());
    oh.extend_from_slice(b"curves01");
    oh.push(0xff);
    let meta = format!("schema={token}");
    oh.extend_from_slice(&(meta.len() as u32).to_le_bytes());
    oh.extend_from_slice(meta.as_bytes());
    oh.extend_from_slice(&[0u8; 32]);
    let oh_chunk = a.data(&oh);
    let root_obj = a.group(&[0, curves_obj, oh_chunk]);
    // archive fixtures
    let v0 = a.data(&[1, 0, 0, 0]);
    let v1 = a.data(&[1, 0, 0, 0]);
    let root = a.group(&[v0, v1, root_obj, DATA_TAG, DATA_TAG, DATA_TAG]);
    a.finish(root, 1)
}

#[test]
fn curves_schema_happy_path() {
    let reader = ByteReader::new(build_curves_archive(None));
    let archive = Archive::new(&reader).unwrap();
    let root = archive.load_root_object(&reader).unwrap();
    assert_eq!(root.child_count(), 1);
    assert_eq!(root.children[0].name, "curves01");
    assert_eq!(root.children[0].full_name, "/curves01");
    let obj = root.load_child(0, &reader, &archive.indexed_meta_data, &archive.time_samplings)
        .unwrap();
    assert_eq!(
        obj.header.meta_data.get("schema"),
        Some(String::from("AbcGeom_Curve_v2"))
    );
    let schema = Schema::parse(&obj, &reader, &archive).unwrap();
    let curves = match schema {
        Schema::Curves(c) => c,
        _ => panic!("expected a curves schema"),
    };
    let positions = curves.load_positions_sample(0, &reader).unwrap();
    assert_eq!(positions.len(), 6);
    assert_eq!(positions[0], [1.0f32.to_bits(); 3]);
    let nv = curves.load_n_vertices_sample(0, &reader).unwrap();
    assert_eq!(nv, vec![3, 3]);
    let (ct, cp, bt) = curves.load_curve_type_sample(0, &reader).unwrap();
    assert_eq!(ct, CurveType::Linear);
    assert_eq!(cp, CurvePeriodicity::NonPeriodic);
    assert_eq!(bt, BasisType::Bezier);
    assert_eq!(curves.topology_variance(), TopologyVariance::ConstantTopology);
    assert!(curves.is_constant());
    assert!(!curves.has_uv());
    assert!(!curves.has_knots());
}

#[test]
fn curves_schema_with_matching_uv() {
    let reader = ByteReader::new(build_curves_archive(Some(2)));
    let archive = Archive::new(&reader).unwrap();
    let root = archive.load_root_object(&reader).unwrap();
    let obj = root.load_child(0, &reader, &archive.indexed_meta_data, &archive.time_samplings)
        .unwrap();
    let schema = Schema::parse(&obj, &reader, &archive).unwrap();
    let curves = match schema {
        Schema::Curves(c) => c,
        _ => panic!("expected a curves schema"),
    };
    assert!(curves.has_uv());
    let uv = curves.load_uv_sample(0, &reader).unwrap().unwrap();
    assert_eq!(uv.len(), 3);
}

#[test]
fn wrong_typed_optional_property_is_incompatible() {
    let reader = ByteReader::new(build_curves_archive(Some(3)));
    let archive = Archive::new(&reader).unwrap();
    let root = archive.load_root_object(&reader).unwrap();
    let obj = root.load_child(0, &reader, &archive.indexed_meta_data, &archive.time_samplings)
        .unwrap();
    let err = Schema::parse(&obj, &reader, &archive).unwrap_err();
    assert_eq!(err, OgawaError::ParsingError(ParsingError::IncompatibleSchema));
}

#[test]
fn unknown_schema_token_is_incompatible() {
    // replace the token in the object header's inline metadata
    let bytes = build_curves_archive(None);
    let needle = b"schema=AbcGeom_Curve_v2";
    let pos = bytes
        .windows(needle.len())
        .position(|w| w == needle)
        .unwrap();
    let mut bytes = bytes;
    bytes[pos + 7] = b'X';
    let reader = ByteReader::new(bytes);
    let archive = Archive::new(&reader).unwrap();
    let root = archive.load_root_object(&reader).unwrap();
    let obj = root.load_child(0, &reader, &archive.indexed_meta_data, &archive.time_samplings)
        .unwrap();
    let err = Schema::parse(&obj, &reader, &archive).unwrap_err();
    assert_eq!(err, OgawaError::ParsingError(ParsingError::IncompatibleSchema));
}

#[test]
fn loading_same_child_twice_agrees() {
    let reader = ByteReader::new(build_curves_archive(None));
    let archive = Archive::new(&reader).unwrap();
    let root = archive.load_root_object(&reader).unwrap();
    let o1 = root.load_child(0, &reader, &archive.indexed_meta_data, &archive.time_samplings)
        .unwrap();
    let o2 = root.load_child(0, &reader, &archive.indexed_meta_data, &archive.time_samplings)
        .unwrap();
    assert_eq!(o1.header.name, o2.header.name);
    assert_eq!(o1.header.full_name, o2.header.full_name);
    assert_eq!(o1.child_count(), o2.child_count());
    let p1 = o1.properties().unwrap();
    let p2 = o2.properties().unwrap();
    assert_eq!(p1.sub_property_count(), p2.sub_property_count());
    for i in 0..p1.sub_property_count() {
        assert_eq!(p1.property_headers[i].name, p2.property_headers[i].name);
        assert_eq!(p1.property_headers[i].property_type, p2.property_headers[i].property_type);
        assert_eq!(p1.property_headers[i].data_type, p2.property_headers[i].data_type);
    }
}

#[test]
fn root_group_with_too_few_fixtures_is_invalid() {
    let mut a = Arena::new();
    let v0 = a.data(&[1, 0, 0, 0]);
    let root = a.group(&[v0, v0, 0, DATA_TAG]);
    let reader = ByteReader::new(a.finish(root, 1));
    let err = Archive::new(&reader).unwrap_err();
    assert_eq!(err, OgawaError::ParsingError(ParsingError::InvalidAlembicFile));
}

#[test]
fn truncated_archive_is_io_error() {
    let reader = ByteReader::new(vec![0x4f, 0x67, 0x61]);
    let err = Archive::new(&reader).unwrap_err();
    assert_eq!(err, OgawaError::IoError);
}

#[test]
fn recognised_unbuilt_schema_token_is_unsupported() {
    let reader = ByteReader::new(build_object_archive(None, "AbcGeom_SubD_v1"));
    let archive = Archive::new(&reader).unwrap();
    let root = archive.load_root_object(&reader).unwrap();
    let obj = root.load_child(0, &reader, &archive.indexed_meta_data, &archive.time_samplings)
        .unwrap();
    let err = Schema::parse(&obj, &reader, &archive).unwrap_err();
    assert_eq!(err, OgawaError::ParsingError(ParsingError::UnsupportedAlembicFile));
}

#[test]
fn generic_geometry_schema_reads_bounds() {
    let reader = ByteReader::new(build_object_archive(None, "AbcGeom_GeomBase_v1"));
    let archive = Archive::new(&reader).unwrap();
    let root = archive.load_root_object(&reader).unwrap();
    let obj = root.load_child(0, &reader, &archive.indexed_meta_data, &archive.time_samplings)
        .unwrap();
    let schema = Schema::parse(&obj, &reader, &archive).unwrap();
    let base = match schema {
        Schema::BaseGeom(b) => b,
        _ => panic!("expected a generic geometry schema"),
    };
    let bounds = base.load_bounds_sample(0, &reader).unwrap();
    assert_eq!(bounds.min.map(f64::from_bits), [0.0, 0.0, 0.0]);
    assert_eq!(bounds.max.map(f64::from_bits), [0.0, 0.0, 0.0]);
}

#[test]
fn root_metadata_reaches_the_root_object() {
    let mut a = Arena::new();
    let v0 = a.data(&[1, 0, 0, 0]);
    let v1 = a.data(&[1, 0, 0, 0]);
    let meta = a.data(b"app=editor;scene=main");
    let root = a.group(&[v0, v1, 0, meta, DATA_TAG, DATA_TAG]);
    let reader = ByteReader::new(a.finish(root, 1));
    let archive = Archive::new(&reader).unwrap();
    assert_eq!(archive.root_header.meta_data.get("app"), Some(String::from("editor")));
    assert_eq!(archive.root_header.meta_data.get("scene"), Some(String::from("main")));
    let root_object = archive.load_root_object(&reader).unwrap();
    assert_eq!(root_object.header.meta_data.get("app"), Some(String::from("editor")));
}

/// A property header carrying an explicit changed range.
fn ranged_prop_header(kind: u32, pod: u32, extent: u32, name: &str, next: u8, first: u8, last: u8) -> Vec<u8> {
    let info: u32 = kind | (pod << 4) | (extent << 12) | 0x200;
    let mut h = info.to_le_bytes().to_vec();
    h.push(next);
    h.push(first);
    h.push(last);
    h.push(name.len() as u8);
    h.extend_from_slice(name.as_bytes());
    h
}

/// Wraps a geometry compound (bodies plus header block) into a one-object
/// archive carrying the given schema token.
fn wrap_geom_archive(a: &mut Arena, geom_children: Vec<u64>, hdrs: Vec<u8>, token: &str) -> Vec<u8> {
    let mut a = std::mem::replace(a, Arena::new());
    let geom_hdr_chunk = a.data(&hdrs);
    let mut children = geom_children;
    children.push(geom_hdr_chunk);
    let geom_group = a.group(&children);
    let root_hdr_chunk = a.data(&compound_header(".geom"));
    let prop_root = a.group(&[geom_group, root_hdr_chunk]);
    let the_obj = a.group(&[prop_root]);
    let mut oh = Vec::new();
    oh.extend_from_slice(&4u32.to_le_bytes());
    oh.extend_from_slice(b"obj1");
    oh.push(0xff);
    let meta = format!("schema={token}");
    oh.extend_from_slice(&(meta.len() as u32).to_le_bytes());
    oh.extend_from_slice(meta.as_bytes());
    oh.extend_from_slice(&[0u8; 32]);
    let oh_chunk = a.data(&oh);
    let root_obj = a.group(&[0, the_obj, oh_chunk]);
    let v0 = a.data(&[1, 0, 0, 0]);
    let v1 = a.data(&[1, 0, 0, 0]);
    let root = a.group(&[v0, v1, root_obj, DATA_TAG, DATA_TAG, DATA_TAG]);
    a.finish(root, 1)
}

fn parse_single_object(bytes: Vec<u8>) -> (ByteReader, Archive) {
    let reader = ByteReader::new(bytes);
    let archive = Archive::new(&reader).unwrap();
    (reader, archive)
}

#[test]
fn transform_schema_derives_constancy() {
    // an animated `.vals` makes the transform non-constant
    let mut a = Arena::new();
    let vals_c0 = a.data(&array_payload(&0.0f64.to_le_bytes()));
    let vals_c1 = a.data(&array_payload(&1.0f64.to_le_bytes()));
    let vals_c2 = a.data(&array_payload(&2.0f64.to_le_bytes()));
    let vals_group = a.group(&[vals_c0, vals_c1, vals_c2]);
    let inh_chunk = a.data(&array_payload(&[1]));
    let inh_group = a.group(&[inh_chunk]);
    let mut hdrs = Vec::new();
    hdrs.extend(ranged_prop_header(1, 11, 1, ".vals", 3, 1, 1));
    hdrs.extend(prop_header(1, 0, 1, ".inherits"));
    let bytes = wrap_geom_archive(&mut a, vec![vals_group, inh_group], hdrs, "AbcGeom_Xform_v3");
    let (reader, archive) = parse_single_object(bytes);
    let root = archive.load_root_object(&reader).unwrap();
    let obj = root.load_child(0, &reader, &archive.indexed_meta_data, &archive.time_samplings)
        .unwrap();
    let schema = Schema::parse(&obj, &reader, &archive).unwrap();
    let xform = match schema {
        Schema::Xform(x) => x,
        _ => panic!("expected a transform schema"),
    };
    assert!(!xform.is_constant());
    assert!(xform.is_constant_identity());
    assert!(xform.child_bounds.is_none());
    assert!(xform.arb_geometry_parameters.is_none());
}

#[test]
fn transform_schema_without_properties_is_constant() {
    let mut a = Arena::new();
    let bytes = wrap_geom_archive(&mut a, Vec::new(), Vec::new(), "AbcGeom_Xform_v3");
    let (reader, archive) = parse_single_object(bytes);
    let root = archive.load_root_object(&reader).unwrap();
    let obj = root.load_child(0, &reader, &archive.indexed_meta_data, &archive.time_samplings)
        .unwrap();
    let schema = Schema::parse(&obj, &reader, &archive).unwrap();
    let xform = match schema {
        Schema::Xform(x) => x,
        _ => panic!("expected a transform schema"),
    };
    assert!(xform.is_constant());
    assert!(xform.is_constant_identity());
}

#[test]
fn polymesh_schema_reads_faces() {
    let mut a = Arena::new();
    let selfb_chunk = a.data(&array_payload(&[0u8; 48]));
    let selfb_group = a.group(&[selfb_chunk]);
    let mut p_elems = Vec::new();
    for _ in 0..12 {
        p_elems.extend_from_slice(&2.0f32.to_bits().to_le_bytes());
    }
    let p_chunk = a.data(&array_payload(&p_elems));
    let p_group = a.group(&[p_chunk]);
    let mut fi_elems = Vec::new();
    for v in [0i32, 1, 2, 3] {
        fi_elems.extend_from_slice(&v.to_le_bytes());
    }
    let fi_chunk = a.data(&array_payload(&fi_elems));
    let fi_group = a.group(&[fi_chunk]);
    let fc_chunk = a.data(&array_payload(&4i32.to_le_bytes()));
    let fc_group = a.group(&[fc_chunk]);
    let mut hdrs = Vec::new();
    hdrs.extend(prop_header(1, 11, 6, ".selfBnds"));
    hdrs.extend(prop_header(2, 10, 3, "P"));
    hdrs.extend(prop_header(2, 6, 1, ".faceIndices"));
    hdrs.extend(prop_header(2, 6, 1, ".faceCounts"));
    let bytes = wrap_geom_archive(
        &mut a,
        vec![selfb_group, p_group, fi_group, fc_group],
        hdrs,
        "AbcGeom_PolyMesh_v1",
    );
    let (reader, archive) = parse_single_object(bytes);
    let root = archive.load_root_object(&reader).unwrap();
    let obj = root.load_child(0, &reader, &archive.indexed_meta_data, &archive.time_samplings)
        .unwrap();
    let schema = Schema::parse(&obj, &reader, &archive).unwrap();
    let mesh = match schema {
        Schema::PolyMesh(m) => m,
        _ => panic!("expected a polygonal mesh schema"),
    };
    assert!(!mesh.has_normals());
    assert!(!mesh.has_uv());
    let vertices = mesh.load_vertices_sample(0, &reader).unwrap();
    assert_eq!(vertices.len(), 4);
    assert_eq!(vertices[0], [2.0f32.to_bits(); 3]);
    assert_eq!(mesh.load_faceindices_sample(0, &reader).unwrap(), vec![0, 1, 2, 3]);
    assert_eq!(mesh.load_facecounts_sample(0, &reader).unwrap(), vec![4]);
    let bounds = mesh.load_bounds_sample(0, &reader).unwrap();
    assert_eq!(bounds.min.map(f64::from_bits), [0.0, 0.0, 0.0]);
}

#[test]
fn too_short_bounds_sample_is_invalid() {
    // a `.selfBnds` sample with an empty element region holds no doubles
    let mut a = Arena::new();
    let selfb_chunk = a.data(&array_payload(&[]));
    let selfb_group = a.group(&[selfb_chunk]);
    let hdrs = prop_header(1, 11, 6, ".selfBnds");
    let bytes = wrap_geom_archive(&mut a, vec![selfb_group], hdrs, "AbcGeom_GeomBase_v1");
    let (reader, archive) = parse_single_object(bytes);
    let root = archive.load_root_object(&reader).unwrap();
    let obj = root.load_child(0, &reader, &archive.indexed_meta_data, &archive.time_samplings)
        .unwrap();
    let schema = Schema::parse(&obj, &reader, &archive).unwrap();
    let base = match schema {
        Schema::BaseGeom(b) => b,
        _ => panic!("expected a generic geometry schema"),
    };
    assert_eq!(
        base.load_bounds_sample(0, &reader).unwrap_err(),
        OgawaError::ParsingError(ParsingError::InvalidAlembicFile)
    );
}

#[test]
fn out_of_range_curve_type_byte_is_invalid() {
    // curveBasisAndType = [7, 0, 1]: 7 names no curve type
    let bytes = build_curves_archive(None);
    let needle: Vec<u8> = {
        let mut p = vec![0u8; 16];
        p.extend_from_slice(&[1, 0, 1]);
        let mut c = 19u64.to_le_bytes().to_vec();
        c.extend_from_slice(&p);
        c
    };
    let pos = bytes.windows(needle.len()).position(|w| w == needle).unwrap();
    let mut bytes = bytes;
    bytes[pos + 8 + 16] = 7;
    let reader = ByteReader::new(bytes);
    let archive = Archive::new(&reader).unwrap();
    let root = archive.load_root_object(&reader).unwrap();
    let obj = root.load_child(0, &reader, &archive.indexed_meta_data, &archive.time_samplings)
        .unwrap();
    let schema = Schema::parse(&obj, &reader, &archive).unwrap();
    let curves = match schema {
        Schema::Curves(c) => c,
        _ => panic!("expected a curves schema"),
    };
    assert_eq!(
        curves.load_curve_type_sample(0, &reader).unwrap_err(),
        OgawaError::ParsingError(ParsingError::InvalidAlembicFile)
    );
}

#[test]
fn checked_lookup_enforces_the_declared_type() {
    let reader = ByteReader::new(build_curves_archive(None));
    let archive = Archive::new(&reader).unwrap();
    let root = archive.load_root_object(&reader).unwrap();
    let obj = root.load_child(0, &reader, &archive.indexed_meta_data, &archive.time_samplings)
        .unwrap();
    let props = obj.properties().unwrap();
    let geom = CompoundPropertyReader::try_from(
        props
            .load_sub_property(0, &reader, &archive.indexed_meta_data, &archive.time_samplings)
            .unwrap(),
    )
    .unwrap();
    let f32x3 = DataType { pod_type: PodType::F32, extent: 3 };
    let found = geom
        .load_sub_property_by_name_checked(
            "P",
            &reader,
            &archive.indexed_meta_data,
            &archive.time_samplings,
            Some(&f32x3),
        )
        .unwrap();
    assert!(found.is_some());
    let wrong = DataType { pod_type: PodType::F32, extent: 2 };
    let err = geom
        .load_sub_property_by_name_checked(
            "P",
            &reader,
            &archive.indexed_meta_data,
            &archive.time_samplings,
            Some(&wrong),
        )
        .unwrap_err();
    assert_eq!(err, OgawaError::ParsingError(ParsingError::IncompatibleSchema));
    let absent = geom
        .load_sub_property_by_name(
            "missing",
            &reader,
            &archive.indexed_meta_data,
            &archive.time_samplings,
        )
        .unwrap();
    assert!(absent.is_none());
}
