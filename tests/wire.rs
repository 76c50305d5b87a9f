use ballista_python::varint::{read_varint, write_varint};
use ballista_python::wire::{UdfProto, Volatility};

fn record(volatility: Volatility, types: Vec<Vec<u8>>, ret: Vec<u8>, blob: Vec<u8>) -> UdfProto {
    UdfProto::try_from_udf(&volatility, &types, &ret, blob)
}

#[test]
fn varint_small_and_multi_byte() {
    let mut buf = Vec::new();
    write_varint(&mut buf, 1);
    write_varint(&mut buf, 300);
    assert_eq!(buf, vec![0x01, 0xac, 0x02]);
    assert_eq!(read_varint(&buf, 0), Some((1, 1)));
    assert_eq!(read_varint(&buf, 1), Some((300, 3)));
}

#[test]
fn varint_largest_value() {
    let mut buf = Vec::new();
    write_varint(&mut buf, u64::MAX);
    assert_eq!(buf.len(), 10);
    assert_eq!(buf[9], 0x01);
    assert_eq!(read_varint(&buf, 0), Some((u64::MAX, 10)));
}

#[test]
fn varint_truncated_or_too_large() {
    assert_eq!(read_varint(&[0x80, 0x80], 0), None);
    assert_eq!(read_varint(&[], 0), None);
    let too_large = [0xff, 0xff, 0xff, 0xff, 0xff, 0xff, 0xff, 0xff, 0xff, 0x02];
    assert_eq!(read_varint(&too_large, 0), None);
}

#[test]
fn encodes_fields_in_tag_order() {
    let r = record(Volatility::Immutable, vec![vec![1, 2]], vec![3], vec![9, 9]);
    assert_eq!(
        r.encode_to_vec(),
        vec![0x08, 0x01, 0x12, 0x02, 0x01, 0x02, 0x1a, 0x01, 0x03, 0x2a, 0x02, 0x09, 0x09]
    );
}

#[test]
fn omits_default_volatility_and_empty_blob() {
    let r = record(Volatility::Volatile, vec![], vec![], vec![]);
    assert_eq!(r.encode_to_vec(), vec![0x1a, 0x00]);
}

#[test]
fn encode_appends_to_existing_bytes() {
    let r = record(Volatility::Stable, vec![], vec![7], vec![]);
    let mut buf = vec![0xee];
    r.encode(&mut buf);
    assert_eq!(buf, vec![0xee, 0x08, 0x02, 0x1a, 0x01, 0x07]);
}

#[test]
fn decodes_what_it_encodes() {
    let types = vec![vec![0x6a, 0x00], vec![], vec![5; 200]];
    let r = record(Volatility::Stable, types.clone(), vec![0x6a, 0x00], vec![1, 2, 3]);
    let d = UdfProto::decode(&r.encode_to_vec()).expect("well formed");
    assert_eq!(d.volatility, Volatility::Stable);
    assert_eq!(d.input_types, types);
    assert_eq!(d.result_type, Some(vec![0x6a, 0x00]));
    assert_eq!(d.blob, vec![1, 2, 3]);
}

#[test]
fn empty_buffer_is_the_default_record() {
    let d = UdfProto::decode(&[]).expect("empty is well formed");
    assert_eq!(d.volatility, Volatility::Volatile);
    assert!(d.input_types.is_empty());
    assert_eq!(d.result_type, None);
    assert!(d.blob.is_empty());
}

#[test]
fn skips_unknown_fields_and_reads_any_order() {
    // blob, unknown varint (tag 9), unknown fixed32 (tag 6), volatility
    let bytes = [0x2a, 0x01, 0x07, 0x48, 0x05, 0x35, 1, 2, 3, 4, 0x08, 0x01];
    let d = UdfProto::decode(&bytes).expect("well formed");
    assert_eq!(d.volatility, Volatility::Immutable);
    assert_eq!(d.blob, vec![7]);
}

#[test]
fn unknown_volatility_code_reads_as_volatile() {
    let d = UdfProto::decode(&[0x08, 0x07]).expect("well formed");
    assert_eq!(d.volatility, Volatility::Volatile);
}

#[test]
fn repeated_result_type_merges() {
    let d = UdfProto::decode(&[0x1a, 0x01, 0x0a, 0x1a, 0x02, 0x0b, 0x0c]).expect("well formed");
    assert_eq!(d.result_type, Some(vec![0x0a, 0x0b, 0x0c]));
}

#[test]
fn rejects_malformed_buffers() {
    // length runs past the end
    assert!(UdfProto::decode(&[0x2a, 0x05, 0x01]).is_none());
    // key cut short
    assert!(UdfProto::decode(&[0x80]).is_none());
    // tag 0
    assert!(UdfProto::decode(&[0x02, 0x00]).is_none());
    // volatility written length-prefixed
    assert!(UdfProto::decode(&[0x0a, 0x00]).is_none());
    // blob written as a varint
    assert!(UdfProto::decode(&[0x28, 0x01]).is_none());
    // group wire type
    assert!(UdfProto::decode(&[0x4b]).is_none());
    // fixed64 cut short
    assert!(UdfProto::decode(&[0x49, 1, 2, 3]).is_none());
}

#[test]
fn every_strict_prefix_of_a_record_ending_mid_field_is_rejected() {
    let r = record(Volatility::Immutable, vec![vec![1, 2, 3]], vec![4, 5], vec![6; 10]);
    let bytes = r.encode_to_vec();
    let boundaries = [0usize, 2, 7, 11, bytes.len()];
    for n in 0..bytes.len() {
        let decoded = UdfProto::decode(&bytes[..n]);
        assert_eq!(decoded.is_some(), boundaries.contains(&n), "prefix of {}", n);
    }
}

#[test]
fn volatility_codes() {
    assert_eq!(Volatility::Volatile.code(), 0);
    assert_eq!(Volatility::Immutable.code(), 1);
    assert_eq!(Volatility::Stable.code(), 2);
    assert_eq!(Volatility::from_code(2), Volatility::Stable);
    assert_eq!(Volatility::from_code(1), Volatility::Immutable);
    assert_eq!(Volatility::from_code(0), Volatility::Volatile);
}
