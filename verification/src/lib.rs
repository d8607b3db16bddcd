//! A verified, read-only decoder for the Ogawa archive format: a hierarchical
//! binary container for animated geometric scene data. The archive is a graph
//! of group and data chunks addressed by tagged absolute offsets; objects carry
//! typed property trees with time-indexed, deduplicated samples, and a schema
//! layer recognises typed object shapes atop the generic tree.
use vstd::prelude::*;

pub mod archive;
pub mod base_geom;
pub mod chunks;
pub mod compound;
pub mod curves;
pub mod endian;
pub mod error;
pub mod metadata;
pub mod object;
pub mod text;
pub mod time_sampling;
pub mod typed_array;
pub mod xform;
pub mod pod;
pub mod polymesh;
pub mod property;
pub mod reader;
pub mod samples;
pub mod schema;

pub use archive::Archive;
pub use base_geom::{BaseGeomSchema, BoundingBox};
pub use chunks::{address_from_child, is_data, is_empty_data, is_empty_group, is_group};
pub use chunks::{Chunk, DataChunk, GroupChunk};
pub use compound::{CompoundPropertyReader, PropertyReader};
pub use curves::{BasisType, CurvePeriodicity, CurvesSchema, CurveType, TopologyVariance};
pub use error::{InternalError, OgawaError, ParsingError, UserError};
pub use metadata::MetaData;
pub use object::{ObjectHeader, ObjectReader};
pub use pod::{chunk_vector_by_2, chunk_vector_by_3, chunk_vector_by_4};
pub use pod::{DataType, PodArray, PodType};
pub use polymesh::PolyMeshSchema;
pub use property::{ArrayPropertyReader, PropertyHeader, PropertyType, ScalarPropertyReader};
pub use reader::ByteReader;
pub use schema::Schema;
pub use time_sampling::{TimeSampling, TimeSamplingType};
pub use xform::XformSchema;

verus! {

} // verus!
