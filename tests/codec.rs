use ballista_python::codec::{try_decode_udf, try_encode_udf, CodecError, UdfPayload};
use ballista_python::udf::PythonUDF;
use ballista_python::wire::Volatility;

// Stands for the serialized type descriptor of a 64-bit float.
fn float64() -> Vec<u8> {
    vec![0x6a, 0x00]
}

#[test]
fn empty_payload_goes_to_inner_codec() {
    assert!(matches!(try_decode_udf(&[]), Ok(UdfPayload::Inner)));
}

#[test]
fn malformed_payload_is_a_deserialization_error() {
    assert!(matches!(try_decode_udf(&[0x12, 0x09, 0x01]), Err(CodecError::Deserialization)));
    assert!(matches!(try_decode_udf(&[0xff]), Err(CodecError::Deserialization)));
}

#[test]
fn foreign_function_round_trip_keeps_metadata() {
    let func: Vec<u8> = b"serialized to_miles".to_vec();
    let udf = PythonUDF::new("to_miles".to_string(), vec![float64()], float64(), Volatility::Volatile, func);

    let mut buf = Vec::new();
    try_encode_udf(&udf.volatility(), udf.input_types(), udf.return_type(), udf.func().clone(), &mut buf);
    assert!(!buf.is_empty());

    let record = match try_decode_udf(&buf) {
        Ok(UdfPayload::Foreign(r)) => r,
        _ => panic!("expected a foreign function"),
    };
    let decoded = PythonUDF::new(
        udf.name().to_string(),
        record.input_types,
        record.result_type.expect("result type written"),
        record.volatility,
        record.blob,
    );
    assert_eq!(decoded.name(), "to_miles");
    assert_eq!(decoded.input_types(), udf.input_types());
    assert_eq!(decoded.return_type(), udf.return_type());
    assert_eq!(decoded.volatility(), Volatility::Volatile);
    assert_eq!(decoded.func(), udf.func());
}

#[test]
fn foreign_payload_with_no_types_is_not_empty() {
    let mut buf = Vec::new();
    try_encode_udf(&Volatility::Volatile, &[], &[], vec![], &mut buf);
    assert_eq!(buf, vec![0x1a, 0x00]);
    match try_decode_udf(&buf) {
        Ok(UdfPayload::Foreign(r)) => {
            assert_eq!(r.result_type, Some(vec![]));
            assert!(r.input_types.is_empty());
        }
        _ => panic!("expected a foreign function"),
    }
}

#[test]
fn encoding_appends_after_existing_bytes() {
    let mut buf = vec![1, 2, 3];
    try_encode_udf(&Volatility::Immutable, &[vec![4]], &[5], vec![6], &mut buf);
    assert_eq!(buf, vec![1, 2, 3, 0x08, 0x01, 0x12, 0x01, 4, 0x1a, 0x01, 5, 0x2a, 0x01, 6]);
}
