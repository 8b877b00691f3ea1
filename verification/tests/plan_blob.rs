use ciborium::value::Value;
use columnar_bridge::error::BridgeError;
use columnar_bridge::plan::PlanTerm;
use columnar_bridge::plan::decode_plan;
use columnar_bridge::plan::encode_plan;

fn sample_plan() -> PlanTerm {
    PlanTerm::Array(vec![
        PlanTerm::UInt(7),
        PlanTerm::UInt(1000),
        PlanTerm::NInt(41),
        PlanTerm::Text(String::from("scan").into_bytes()),
        PlanTerm::Bytes(vec![0, 1, 2, 255]),
        PlanTerm::Array(vec![PlanTerm::Bool(true), PlanTerm::Bool(false), PlanTerm::Null]),
    ])
}

#[test]
fn plan_blob_round_trips() {
    let plan = sample_plan();
    let blob = encode_plan(&plan);
    let back = decode_plan(&blob).expect("an emitted blob must decode");
    assert_eq!(back, sample_plan());
}

#[test]
fn scalar_plans_round_trip() {
    for plan in [
        PlanTerm::UInt(0),
        PlanTerm::UInt(23),
        PlanTerm::UInt(24),
        PlanTerm::UInt(255),
        PlanTerm::UInt(256),
        PlanTerm::UInt(65535),
        PlanTerm::UInt(65536),
        PlanTerm::UInt(u64::MAX),
        PlanTerm::NInt(0),
        PlanTerm::NInt(u64::MAX),
        PlanTerm::Bytes(vec![]),
        PlanTerm::Text(vec![]),
        PlanTerm::Array(vec![]),
        PlanTerm::Bool(true),
        PlanTerm::Bool(false),
        PlanTerm::Null,
    ] {
        let blob = encode_plan(&plan);
        let back = decode_plan(&blob).unwrap();
        assert_eq!(back, plan);
    }
}

#[test]
fn corrupted_blob_fails_with_the_version_skew_error() {
    let plan = sample_plan();
    let mut blob = encode_plan(&plan);
    // Truncate the blob: a corrupted transfer.
    blob.truncate(blob.len() - 3);
    let err = decode_plan(&blob).unwrap_err();
    assert!(matches!(err, BridgeError::PlanDecode { .. }));
    let msg = err.message();
    assert!(msg.contains("mismatched versions"));
    assert!(!msg.is_empty());
}

#[test]
fn reserved_headers_and_trailing_bytes_are_rejected() {
    // A reserved header width.
    let err = decode_plan(&vec![0x1f]).unwrap_err();
    assert!(matches!(err, BridgeError::PlanDecode { .. }));
    // An unsupported item kind.
    let err = decode_plan(&vec![0xf9, 0x3c, 0x00]).unwrap_err();
    assert!(matches!(err, BridgeError::PlanDecode { .. }));
    // Trailing garbage after a complete term.
    let err = decode_plan(&vec![0x01, 0x02]).unwrap_err();
    assert!(matches!(err, BridgeError::PlanDecode { .. }));
    // The empty blob.
    let err = decode_plan(&vec![]).unwrap_err();
    assert!(matches!(err, BridgeError::PlanDecode { .. }));
}

fn to_ciborium(t: &PlanTerm) -> Value {
    match t {
        PlanTerm::UInt(n) => Value::Integer((*n).into()),
        PlanTerm::NInt(n) => {
            let v: i128 = -1 - (*n as i128);
            Value::Integer(v.try_into().expect("fits a CBOR integer"))
        }
        PlanTerm::Bytes(b) => Value::Bytes(b.clone()),
        PlanTerm::Text(b) => Value::Text(String::from_utf8(b.clone()).expect("test text is UTF-8")),
        PlanTerm::Array(ts) => Value::Array(ts.iter().map(to_ciborium).collect()),
        PlanTerm::Bool(b) => Value::Bool(*b),
        PlanTerm::Null => Value::Null,
    }
}

#[test]
fn emitted_blobs_are_read_back_by_an_independent_reader() {
    let plan = sample_plan();
    let blob = encode_plan(&plan);
    let value: Value = ciborium::de::from_reader(blob.as_slice())
        .expect("an independent reader must accept the blob");
    assert_eq!(value, to_ciborium(&plan));
}

#[test]
fn blobs_written_by_an_independent_writer_decode() {
    let value = to_ciborium(&sample_plan());
    let mut blob: Vec<u8> = Vec::new();
    ciborium::ser::into_writer(&value, &mut blob).expect("serialization must succeed");
    let back = decode_plan(&blob).expect("an independently written blob must decode");
    assert_eq!(back, sample_plan());
}
