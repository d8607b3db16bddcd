//! Unit tests for the individual decoding layers.
use ogawa::{
    address_from_child, chunk_vector_by_2, chunk_vector_by_3, chunk_vector_by_4, is_data,
    is_empty_data, is_empty_group, is_group, ByteReader, DataChunk, DataType, GroupChunk, MetaData,
    OgawaError, ParsingError, PodArray, PodType, PropertyHeader, PropertyType,
    ScalarPropertyReader, UserError,
};
use ogawa::metadata::read_indexed_meta_data;
use ogawa::time_sampling::{
    read_time_samplings_and_max, ACYCLIC_NUM_SAMPLES, ACYCLIC_TIME_PER_CYCLE_BITS,
};

const DATA_TAG: u64 = 1u64 << 63;

fn data_chunk(bytes: &mut Vec<u8>, payload: &[u8]) -> u64 {
    if bytes.is_empty() {
        // position 0 is the empty-chunk sentinel; keep real chunks off it
        bytes.extend_from_slice(&[0u8; 8]);
    }
    let p = bytes.len() as u64;
    bytes.extend_from_slice(&(payload.len() as u64).to_le_bytes());
    bytes.extend_from_slice(payload);
    p | DATA_TAG
}

fn array_payload(elems: &[u8]) -> Vec<u8> {
    let mut p = vec![0u8; 16];
    p.extend_from_slice(elems);
    p
}

#[test]
fn offset_tags_partition() {
    for v in [0u64, 1, 7, DATA_TAG, DATA_TAG | 99, u64::MAX, 0x7fff_ffff_ffff_ffff] {
        assert!(is_group(v) != is_data(v));
        assert_eq!(address_from_child(v), v & 0x7fff_ffff_ffff_ffff);
        if is_group(v) {
            assert_eq!(address_from_child(v), v);
        }
    }
    assert!(is_empty_group(0));
    assert!(!is_empty_group(1));
    assert!(is_empty_data(DATA_TAG));
    assert!(!is_empty_data(DATA_TAG | 1));
    assert!(is_group(0));
    assert!(is_data(DATA_TAG));
}

#[test]
fn byte_reader_reads_little_endian() {
    let reader = ByteReader::new(vec![0x01, 0x02, 0x03, 0x04, 0x05, 0x06, 0x07, 0x08]);
    assert_eq!(reader.size(), 8);
    assert_eq!(reader.read_u8_at(0).unwrap(), 0x01);
    assert_eq!(reader.read_u16_at(0).unwrap(), 0x0201);
    assert_eq!(reader.read_u32_at(0).unwrap(), 0x04030201);
    assert_eq!(reader.read_u64_at(0).unwrap(), 0x0807060504030201);
    assert_eq!(reader.read_u32_at(4).unwrap(), 0x08070605);
    assert_eq!(reader.read_u64_at(1).unwrap_err(), OgawaError::IoError);
    assert_eq!(reader.read_exact_at(6, 2).unwrap(), vec![0x07, 0x08]);
}

#[test]
fn pod_tags_are_total() {
    let mut members = 0;
    for v in 0u32..=255 {
        match PodType::try_from_u32(v) {
            Ok(p) => {
                assert_eq!(p.tag(), v);
                members += 1;
            },
            Err(e) => {
                assert_eq!(e, OgawaError::ParsingError(ParsingError::UnsupportedAlembicFile));
            },
        }
    }
    assert_eq!(members, 15);
    assert_eq!(PodType::try_from_u32(127).unwrap(), PodType::Unknown);
    assert_eq!(PodType::try_from_u32(10).unwrap(), PodType::F32);
}

#[test]
fn chunking_regroups_and_checks_divisibility() {
    let v = vec![1u32, 2, 3, 4, 5, 6];
    assert_eq!(chunk_vector_by_2(v.clone()).unwrap(), vec![[1, 2], [3, 4], [5, 6]]);
    assert_eq!(chunk_vector_by_3(v.clone()).unwrap(), vec![[1, 2, 3], [4, 5, 6]]);
    assert!(chunk_vector_by_4(v).is_err());
    assert_eq!(chunk_vector_by_4(vec![1u8, 2, 3, 4]).unwrap(), vec![[1, 2, 3, 4]]);
}

#[test]
fn metadata_round_trip() {
    let md = MetaData::deserialize("b=2;a=1;c=");
    assert_eq!(md.len(), 3);
    assert_eq!(md.get("a"), Some(String::from("1")));
    assert_eq!(md.get("b"), Some(String::from("2")));
    assert_eq!(md.get("c"), Some(String::from("")));
    assert_eq!(md.get("d"), None);
    let text = md.serialize();
    assert_eq!(text, "a=1;b=2;c=");
    let again = MetaData::deserialize(&text);
    assert_eq!(again.len(), 3);
    assert_eq!(again.get("a"), Some(String::from("1")));
    assert_eq!(again.get("b"), Some(String::from("2")));
    assert_eq!(again.get("c"), Some(String::from("")));
    assert_eq!(again.serialize(), text);
}

#[test]
fn metadata_last_binding_wins() {
    let md = MetaData::deserialize("k=1;k=2");
    assert_eq!(md.len(), 1);
    assert_eq!(md.get("k"), Some(String::from("2")));
}

#[test]
fn metadata_value_may_hold_equals_sign() {
    let md = MetaData::deserialize("k=a=b");
    assert_eq!(md.get("k"), Some(String::from("a=b")));
    let text = md.serialize();
    let again = MetaData::deserialize(&text);
    assert_eq!(again.get("k"), Some(String::from("a=b")));
}

#[test]
fn metadata_token_without_assignment_binds_nothing() {
    let md = MetaData::deserialize("flag;k=v");
    assert_eq!(md.len(), 1);
    assert_eq!(md.get("k"), Some(String::from("v")));
    assert_eq!(md.get("flag"), None);
}

#[test]
fn metadata_empty_text_is_empty() {
    let md = MetaData::deserialize("");
    assert_eq!(md.len(), 0);
    assert_eq!(md.serialize(), "");
}

#[test]
fn indexed_metadata_table_decodes() {
    let mut bytes = Vec::new();
    let mut block = Vec::new();
    let entry = b"a=1";
    block.push(entry.len() as u8);
    block.extend_from_slice(entry);
    // a trailing entry whose length exactly consumes the remainder is empty
    block.push(2);
    block.extend_from_slice(&[9, 9]);
    let tag = data_chunk(&mut bytes, &block);
    let reader = ByteReader::new(bytes);
    let chunk = DataChunk::load(tag, &reader).unwrap();
    let table = read_indexed_meta_data(&chunk, &reader).unwrap();
    assert_eq!(table.len(), 3);
    assert_eq!(table[0].len(), 0);
    assert_eq!(table[1].get("a"), Some(String::from("1")));
    assert_eq!(table[2].len(), 0);
}

#[test]
fn time_samplings_decode_cyclic_and_acyclic() {
    let mut block = Vec::new();
    // a cyclic sampling: two samples per cycle of one second
    block.extend_from_slice(&5u32.to_le_bytes());
    block.extend_from_slice(&1.0f64.to_le_bytes());
    block.extend_from_slice(&2u32.to_le_bytes());
    block.extend_from_slice(&0.0f64.to_le_bytes());
    block.extend_from_slice(&0.5f64.to_le_bytes());
    // an acyclic sampling, marked by the sentinel cycle duration
    block.extend_from_slice(&7u32.to_le_bytes());
    block.extend_from_slice(&(f64::MAX / 32.0).to_le_bytes());
    block.extend_from_slice(&1u32.to_le_bytes());
    block.extend_from_slice(&3.25f64.to_le_bytes());
    let mut bytes = Vec::new();
    let tag = data_chunk(&mut bytes, &block);
    let reader = ByteReader::new(bytes);
    let chunk = DataChunk::load(tag, &reader).unwrap();
    let (samplings, maxima) = read_time_samplings_and_max(&chunk, &reader).unwrap();
    assert_eq!(samplings.len(), 2);
    assert_eq!(maxima, vec![5, 7]);
    assert_eq!(samplings[0].sampling_type.num_samples_per_cycle, 2);
    assert_eq!(samplings[0].sampling_type.time_per_cycle, 1.0f64.to_bits());
    assert_eq!(samplings[0].samples, vec![0.0f64.to_bits(), 0.5f64.to_bits()]);
    assert_eq!(samplings[1].sampling_type.num_samples_per_cycle, ACYCLIC_NUM_SAMPLES);
    assert_eq!(samplings[1].sampling_type.time_per_cycle, ACYCLIC_TIME_PER_CYCLE_BITS);
    assert_eq!(f64::from_bits(ACYCLIC_TIME_PER_CYCLE_BITS), f64::MAX / 32.0);
    assert_eq!(samplings[1].samples, vec![3.25f64.to_bits()]);
}

#[test]
fn typed_array_decodes_numeric_payloads() {
    let mut elems = Vec::new();
    for v in [1.0f32, -2.5, 0.25] {
        elems.extend_from_slice(&v.to_bits().to_le_bytes());
    }
    let mut bytes = Vec::new();
    let tag = data_chunk(&mut bytes, &array_payload(&elems));
    let reader = ByteReader::new(bytes);
    let chunk = DataChunk::load(tag, &reader).unwrap();
    let dt = DataType { pod_type: PodType::F32, extent: 3 };
    match chunk.read_pod_array(&dt, &reader).unwrap() {
        PodArray::F32(v) => {
            assert_eq!(v.len(), 3);
            assert_eq!(f32::from_bits(v[0]), 1.0);
            assert_eq!(f32::from_bits(v[1]), -2.5);
            assert_eq!(f32::from_bits(v[2]), 0.25);
        },
        _ => panic!("expected an f32 array"),
    }
    let dt_i16 = DataType { pod_type: PodType::I16, extent: 1 };
    let mut bytes2 = Vec::new();
    let tag2 = data_chunk(&mut bytes2, &array_payload(&[0xfe, 0xff, 0x02, 0x00]));
    let reader2 = ByteReader::new(bytes2);
    let chunk2 = DataChunk::load(tag2, &reader2).unwrap();
    match chunk2.read_pod_array(&dt_i16, &reader2).unwrap() {
        PodArray::I16(v) => assert_eq!(v, vec![-2, 2]),
        _ => panic!("expected an i16 array"),
    }
}

#[test]
fn typed_array_size_must_divide_into_elements() {
    // 20 element bytes do not divide into (F32, 3) elements of 12 bytes
    let mut bytes = Vec::new();
    let tag = data_chunk(&mut bytes, &array_payload(&[0u8; 20]));
    let reader = ByteReader::new(bytes);
    let chunk = DataChunk::load(tag, &reader).unwrap();
    let dt = DataType { pod_type: PodType::F32, extent: 3 };
    assert_eq!(
        chunk.read_pod_array(&dt, &reader).unwrap_err(),
        OgawaError::ParsingError(ParsingError::InvalidAlembicFile)
    );
    // 24 element bytes do
    let mut bytes2 = Vec::new();
    let tag2 = data_chunk(&mut bytes2, &array_payload(&[0u8; 24]));
    let reader2 = ByteReader::new(bytes2);
    let chunk2 = DataChunk::load(tag2, &reader2).unwrap();
    match chunk2.read_pod_array(&dt, &reader2).unwrap() {
        PodArray::F32(v) => assert_eq!(v.len(), 6),
        _ => panic!("expected an f32 array"),
    }
}

#[test]
fn typed_array_rejects_unsupported_element_types() {
    let mut bytes = Vec::new();
    let tag = data_chunk(&mut bytes, &array_payload(&[0u8; 4]));
    let reader = ByteReader::new(bytes);
    let chunk = DataChunk::load(tag, &reader).unwrap();
    for pod in [PodType::Boolean, PodType::WString, PodType::Unknown] {
        let dt = DataType { pod_type: pod, extent: 1 };
        assert_eq!(
            chunk.read_pod_array(&dt, &reader).unwrap_err(),
            OgawaError::ParsingError(ParsingError::UnsupportedAlembicFile)
        );
    }
}

#[test]
fn typed_array_decodes_null_separated_strings() {
    let mut payload_tail = Vec::new();
    payload_tail.extend_from_slice(b"hello\0world\0tail");
    let mut bytes = Vec::new();
    let tag = data_chunk(&mut bytes, &array_payload(&payload_tail));
    let reader = ByteReader::new(bytes);
    let chunk = DataChunk::load(tag, &reader).unwrap();
    let dt = DataType { pod_type: PodType::String, extent: 1 };
    match chunk.read_pod_array(&dt, &reader).unwrap() {
        PodArray::String(v) => {
            // the unterminated tail does not form a string
            assert_eq!(v, vec![String::from("hello"), String::from("world")]);
        },
        _ => panic!("expected a string array"),
    }
}

#[test]
fn short_typed_array_payload_is_invalid() {
    let mut bytes = Vec::new();
    let tag = data_chunk(&mut bytes, &[0u8; 8]);
    let reader = ByteReader::new(bytes);
    let chunk = DataChunk::load(tag, &reader).unwrap();
    let dt = DataType { pod_type: PodType::U8, extent: 1 };
    assert_eq!(
        chunk.read_pod_array(&dt, &reader).unwrap_err(),
        OgawaError::ParsingError(ParsingError::InvalidAlembicFile)
    );
}

fn scalar_header(pod: PodType, next: u32, first: u32, last: u32) -> PropertyHeader {
    PropertyHeader {
        name: String::from("p"),
        property_type: PropertyType::Scalar,
        meta_data: MetaData { tokens: Vec::new() },
        data_type: DataType { pod_type: pod, extent: 1 },
        is_scalar_like: true,
        is_homogenous: false,
        next_sample_index: next,
        first_changed_index: first,
        last_changed_index: last,
        time_sampling_index: 0,
    }
}

fn u8_of(arr: PodArray) -> Vec<u8> {
    match arr {
        PodArray::U8(v) => v,
        _ => panic!("expected a u8 array"),
    }
}

#[test]
fn deduplicated_samples_remap() {
    let mut bytes = Vec::new();
    let c0 = data_chunk(&mut bytes, &array_payload(&[10]));
    let c1 = data_chunk(&mut bytes, &array_payload(&[20]));
    let c2 = data_chunk(&mut bytes, &array_payload(&[30]));
    let gpos = bytes.len() as u64;
    bytes.extend_from_slice(&3u64.to_le_bytes());
    for c in [c0, c1, c2] {
        bytes.extend_from_slice(&c.to_le_bytes());
    }
    let reader = ByteReader::new(bytes);
    let group = GroupChunk::load(gpos, false, &reader).unwrap();
    let header = scalar_header(PodType::U8, 5, 2, 3);
    assert_eq!(header.map_index(0), 0);
    assert_eq!(header.map_index(1), 0);
    assert_eq!(header.map_index(2), 1);
    assert_eq!(header.map_index(3), 2);
    assert_eq!(header.map_index(4), 2);
    let scalar = ScalarPropertyReader::new(group, header);
    assert_eq!(scalar.sample_count(), 5);
    assert!(!scalar.is_constant());
    let s0 = u8_of(scalar.load_sample(0, &reader).unwrap());
    let s1 = u8_of(scalar.load_sample(1, &reader).unwrap());
    let s2 = u8_of(scalar.load_sample(2, &reader).unwrap());
    let s3 = u8_of(scalar.load_sample(3, &reader).unwrap());
    let s4 = u8_of(scalar.load_sample(4, &reader).unwrap());
    assert_eq!(s0, vec![10]);
    assert_eq!(s0, s1);
    assert_eq!(s2, vec![20]);
    assert_eq!(s3, vec![30]);
    assert_eq!(s3, s4);
    assert_eq!(
        scalar.load_sample(5, &reader).unwrap_err(),
        OgawaError::UserError(UserError::OutOfBounds)
    );
    assert_eq!(scalar.sample_size(0, &reader).unwrap(), 17);
}

#[test]
fn constant_property_loads_the_same_bytes_everywhere() {
    let mut bytes = Vec::new();
    let c0 = data_chunk(&mut bytes, &array_payload(&[42]));
    let gpos = bytes.len() as u64;
    bytes.extend_from_slice(&1u64.to_le_bytes());
    bytes.extend_from_slice(&c0.to_le_bytes());
    let reader = ByteReader::new(bytes);
    let group = GroupChunk::load(gpos, false, &reader).unwrap();
    let scalar = ScalarPropertyReader::new(group, scalar_header(PodType::U8, 4, 0, 0));
    assert!(scalar.is_constant());
    let s0 = u8_of(scalar.load_sample(0, &reader).unwrap());
    for i in 1..4 {
        assert_eq!(u8_of(scalar.load_sample(i, &reader).unwrap()), s0);
    }
}

#[test]
fn data_chunk_wrong_kind_is_refused() {
    let mut bytes = Vec::new();
    let d = data_chunk(&mut bytes, &[1, 2, 3]);
    let gpos = bytes.len() as u64;
    bytes.extend_from_slice(&2u64.to_le_bytes());
    bytes.extend_from_slice(&d.to_le_bytes());
    bytes.extend_from_slice(&0u64.to_le_bytes());
    let reader = ByteReader::new(bytes);
    let group = GroupChunk::load(gpos, false, &reader).unwrap();
    assert!(matches!(
        group.load_group(&reader, 0, false).unwrap_err(),
        OgawaError::InternalError(ogawa::InternalError::DataChunkReadAsGroupChunk)
    ));
    assert!(matches!(
        group.load_data(&reader, 1).unwrap_err(),
        OgawaError::InternalError(ogawa::InternalError::GroupChunkReadAsDataChunk)
    ));
    assert!(matches!(
        group.load_data(&reader, 7).unwrap_err(),
        OgawaError::InternalError(ogawa::InternalError::OutOfBounds)
    ));
    let chunk = group.load_data(&reader, 0).unwrap();
    assert_eq!(chunk.size, 3);
    assert_eq!(chunk.read(0, 3, &reader).unwrap(), vec![1, 2, 3]);
}

#[test]
fn invalid_utf8_string_payload_fails() {
    let mut bytes = Vec::new();
    let tag = data_chunk(&mut bytes, &array_payload(&[0xff, 0xfe, 0x00]));
    let reader = ByteReader::new(bytes);
    let chunk = DataChunk::load(tag, &reader).unwrap();
    let dt = DataType { pod_type: PodType::String, extent: 1 };
    assert_eq!(
        chunk.read_pod_array(&dt, &reader).unwrap_err(),
        OgawaError::ParsingError(ParsingError::FromUtf8Error)
    );
}
