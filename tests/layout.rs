use mupattern_zarr::{
    chunk_key, crop_zattrs_json, decode_u16_le, encode_u16_le, encode_u64_le, sum_uint16_array,
    zarray_document, ArrayMetadata, BoundingBox, DType, ValidationError, ZAttrs,
};
use serde_json::Value;

fn parse(bytes: &[u8]) -> Value {
    serde_json::from_slice(bytes).expect("valid JSON")
}

fn u64_list(v: &Value) -> Vec<u64> {
    v.as_array().expect("array").iter().map(|x| x.as_u64().expect("integer")).collect()
}

#[test]
fn chunk_key_joins_coordinates_with_dots() {
    assert_eq!(chunk_key(&[2, 0, 5]), b"2.0.5".to_vec());
    assert_eq!(chunk_key(&[0]), b"0".to_vec());
    assert_eq!(chunk_key(&[]), Vec::<u8>::new());
    assert_eq!(chunk_key(&[10, 305]), b"10.305".to_vec());
    assert_eq!(chunk_key(&[u64::MAX]), b"18446744073709551615".to_vec());
}

#[test]
fn chunk_keys_of_distinct_coordinates_differ() {
    assert_ne!(chunk_key(&[1, 23]), chunk_key(&[12, 3]));
    assert_ne!(chunk_key(&[0, 1]), chunk_key(&[1, 0]));
    assert_ne!(chunk_key(&[11, 1]), chunk_key(&[1, 11]));
}

#[test]
fn metadata_record_reads_back() {
    let doc = zarray_document(vec![3, 7, 1000], vec![1, 7, 64], DType::U16).unwrap();
    let v = parse(&doc);
    assert_eq!(u64_list(&v["shape"]), vec![3, 7, 1000]);
    assert_eq!(u64_list(&v["chunks"]), vec![1, 7, 64]);
    assert_eq!(v["dtype"], Value::from("<u2"));
    assert_eq!(v["zarr_format"], Value::from(2));
    assert!(v["compressor"].is_null());
    assert!(v["fill_value"].is_null());
    assert_eq!(v["order"], Value::from("C"));
    assert_eq!(v.as_object().unwrap().len(), 7);

    let doc = zarray_document(vec![5, 2, 1], vec![1, 1, 1], DType::F64).unwrap();
    let v = parse(&doc);
    assert_eq!(u64_list(&v["shape"]), vec![5, 2, 1]);
    assert_eq!(v["dtype"], Value::from("<f8"));
}

#[test]
fn metadata_record_exact_text() {
    let doc = zarray_document(vec![1, 1, 1, 100, 100], vec![1, 1, 1, 50, 50], DType::U16).unwrap();
    assert_eq!(
        String::from_utf8(doc).unwrap(),
        "{\"zarr_format\":2,\"shape\":[1,1,1,100,100],\"chunks\":[1,1,1,50,50],\"dtype\":\"<u2\",\"compressor\":null,\"fill_value\":null,\"order\":\"C\"}"
    );
}

#[test]
fn metadata_accessors_keep_the_description() {
    let m = ArrayMetadata::new(vec![4, 9], vec![2, 3], DType::F64).unwrap();
    assert_eq!(m.shape(), &vec![4, 9]);
    assert_eq!(m.chunks(), &vec![2, 3]);
    assert_eq!(m.dtype(), DType::F64);
    assert_eq!(m.to_json(), zarray_document(vec![4, 9], vec![2, 3], DType::F64).unwrap());
    assert_eq!(DType::U16.width(), 2);
    assert_eq!(DType::F64.width(), 8);
    assert_eq!(DType::F64.code(), "<f8");
}

#[test]
fn zero_dimension_is_refused() {
    assert_eq!(
        zarray_document(vec![0, 5], vec![1, 5], DType::U16),
        Err(ValidationError::ZeroDimension)
    );
    assert_eq!(
        zarray_document(vec![4, 5], vec![1, 0], DType::U16),
        Err(ValidationError::ZeroDimension)
    );
    assert!(ArrayMetadata::new(vec![0], vec![1], DType::F64).is_err());
}

#[test]
fn rank_mismatch_is_refused() {
    assert_eq!(
        zarray_document(vec![4, 5, 6], vec![1, 5], DType::U16),
        Err(ValidationError::RankMismatch)
    );
    assert_eq!(
        zarray_document(vec![0, 5, 6], vec![1, 5], DType::F64),
        Err(ValidationError::RankMismatch)
    );
}

#[test]
fn empty_shape_is_valid() {
    let doc = zarray_document(vec![], vec![], DType::F64).unwrap();
    let v = parse(&doc);
    assert_eq!(u64_list(&v["shape"]), Vec::<u64>::new());
}

#[test]
fn checked_chunk_key_respects_the_grid() {
    let m = ArrayMetadata::new(vec![1, 1, 1, 100, 100], vec![1, 1, 1, 50, 50], DType::U16).unwrap();
    assert_eq!(m.checked_chunk_key(&[0, 0, 0, 1, 1]), Ok(b"0.0.0.1.1".to_vec()));
    assert_eq!(m.checked_chunk_key(&[0, 0, 0, 2, 0]), Err(ValidationError::CoordinateOutOfRange));
    assert_eq!(m.checked_chunk_key(&[1, 0, 0, 0, 0]), Err(ValidationError::CoordinateOutOfRange));
    assert_eq!(m.checked_chunk_key(&[0, 0, 1, 1]), Err(ValidationError::CoordinateRank));
    assert_eq!(
        m.checked_chunk_key(&[0, 0, 0, 0, u64::MAX]),
        Err(ValidationError::CoordinateOutOfRange)
    );
    let edge = ArrayMetadata::new(vec![101], vec![50], DType::U16).unwrap();
    assert_eq!(edge.checked_chunk_key(&[2]), Ok(b"2".to_vec()));
    assert_eq!(edge.checked_chunk_key(&[3]), Err(ValidationError::CoordinateOutOfRange));
}

#[test]
fn u16_payload_is_little_endian() {
    assert_eq!(encode_u16_le(&[0x0102, 7, 0xffff, 256]), vec![2, 1, 7, 0, 255, 255, 0, 1]);
    assert_eq!(encode_u16_le(&[]), Vec::<u8>::new());
}

#[test]
fn u16_payload_round_trips() {
    let values: Vec<u16> = vec![0, 1, 255, 256, 4660, 65535, 7, 7];
    let bytes = encode_u16_le(&values);
    assert_eq!(bytes.len(), 2 * values.len());
    let grouped: Vec<u16> = bytes.chunks(2).map(|p| u16::from_le_bytes([p[0], p[1]])).collect();
    assert_eq!(grouped, values);
    assert_eq!(decode_u16_le(&bytes), Some(values));
    assert_eq!(decode_u16_le(&[1, 2, 3]), None);
    assert_eq!(decode_u16_le(&[]), Some(vec![]));
}

#[test]
fn same_payload_encodes_identically() {
    let values: Vec<u16> = (0..300u16).map(|i| i.wrapping_mul(977)).collect();
    assert_eq!(encode_u16_le(&values), encode_u16_le(&values));
}

#[test]
fn float_cell_payload_is_little_endian() {
    let x: f64 = 1234.5;
    assert_eq!(encode_u64_le(x.to_bits()), x.to_le_bytes().to_vec());
    assert_eq!(encode_u64_le(0x0102030405060708), vec![8, 7, 6, 5, 4, 3, 2, 1]);
    assert_eq!(encode_u64_le(0), vec![0; 8]);
}

#[test]
fn crop_sidecar_reads_back() {
    let bytes = crop_zattrs_json(10, 20, 30, 40);
    let v = parse(&bytes);
    assert_eq!(v["bbox"]["x"], Value::from(10));
    assert_eq!(v["bbox"]["y"], Value::from(20));
    assert_eq!(v["bbox"]["w"], Value::from(30));
    assert_eq!(v["bbox"]["h"], Value::from(40));
    let names: Vec<&str> =
        v["axis_names"].as_array().unwrap().iter().map(|n| n.as_str().unwrap()).collect();
    assert_eq!(names, vec!["t", "c", "z", "y", "x"]);
    assert_eq!(
        String::from_utf8(bytes).unwrap(),
        "{\"axis_names\":[\"t\",\"c\",\"z\",\"y\",\"x\"],\"bbox\":{\"x\":10,\"y\":20,\"w\":30,\"h\":40}}"
    );
}

#[test]
fn crop_sidecar_extreme_values() {
    let b = BoundingBox { x: 0, y: u32::MAX, w: 1, h: 9 };
    let v = parse(&ZAttrs::Crop(b).to_json());
    assert_eq!(v["bbox"]["x"], Value::from(0));
    assert_eq!(v["bbox"]["y"], Value::from(u32::MAX));
}

#[test]
fn background_sidecar_text() {
    let bytes = ZAttrs::Background.to_json();
    assert_eq!(
        String::from_utf8(bytes).unwrap(),
        "{\"axis_names\":[\"t\",\"c\",\"z\"],\"description\":\"Median of pixels outside all crop bounding boxes\"}"
    );
}

#[test]
fn end_to_end_crop_array() {
    let doc = zarray_document(vec![1, 1, 1, 100, 100], vec![1, 1, 1, 50, 50], DType::U16).unwrap();
    assert_eq!(u64_list(&parse(&doc)["chunks"]), vec![1, 1, 1, 50, 50]);
    let m = ArrayMetadata::new(vec![1, 1, 1, 100, 100], vec![1, 1, 1, 50, 50], DType::U16).unwrap();
    let key = m.checked_chunk_key(&[0, 0, 0, 1, 1]).unwrap();
    assert_eq!(String::from_utf8(key).unwrap(), "0.0.0.1.1");
    let payload = encode_u16_le(&vec![7u16; 2500]);
    assert_eq!(payload.len(), 5000);
    assert!(payload.chunks(2).all(|p| p == [7, 0]));
}

#[test]
fn sum_of_samples() {
    assert_eq!(sum_uint16_array(&[]), 0);
    assert_eq!(sum_uint16_array(&[1, 2, 3]), 6);
    assert_eq!(sum_uint16_array(&[65535, 65535, 2]), 131072);
    assert_eq!(sum_uint16_array(&vec![65535u16; 10000]), 655_350_000);
}
