use columnar_bridge::codec::decode_bare;
use columnar_bridge::codec::encode_schema;
use columnar_bridge::codec::decode_dtype;
use columnar_bridge::codec::encode_dtype;
use columnar_bridge::codec::parse_ordering;
use columnar_bridge::codec::parse_time_unit;
use columnar_bridge::dtype::CategoricalOrdering;
use columnar_bridge::dtype::Schema;
use columnar_bridge::dtype::DataType;
use columnar_bridge::dtype::Field;
use columnar_bridge::dtype::TimeUnit;
use columnar_bridge::dtype::UnknownKind;
use columnar_bridge::dtype::materialize_unknown;
use columnar_bridge::error::BridgeError;
use columnar_bridge::host::HostArg;
use columnar_bridge::host::HostDType;
use columnar_bridge::host::HostField;

fn round_trip(dt: DataType) -> DataType {
    let encoded = encode_dtype(&dt);
    decode_dtype(&encoded).expect("decode of an encoded type must succeed")
}

#[test]
fn primitive_types_round_trip() {
    assert_eq!(round_trip(DataType::Int8), DataType::Int8);
    assert_eq!(round_trip(DataType::Int16), DataType::Int16);
    assert_eq!(round_trip(DataType::Int32), DataType::Int32);
    assert_eq!(round_trip(DataType::Int64), DataType::Int64);
    assert_eq!(round_trip(DataType::UInt8), DataType::UInt8);
    assert_eq!(round_trip(DataType::UInt16), DataType::UInt16);
    assert_eq!(round_trip(DataType::UInt32), DataType::UInt32);
    assert_eq!(round_trip(DataType::UInt64), DataType::UInt64);
    assert_eq!(round_trip(DataType::Float32), DataType::Float32);
    assert_eq!(round_trip(DataType::Float64), DataType::Float64);
    assert_eq!(round_trip(DataType::Boolean), DataType::Boolean);
    assert_eq!(round_trip(DataType::Utf8), DataType::Utf8);
    assert_eq!(round_trip(DataType::Binary), DataType::Binary);
    assert_eq!(round_trip(DataType::Date), DataType::Date);
    assert_eq!(round_trip(DataType::Time), DataType::Time);
    assert_eq!(round_trip(DataType::Null), DataType::Null);
    assert_eq!(
        round_trip(DataType::Unknown(UnknownKind::Any)),
        DataType::Unknown(UnknownKind::Any)
    );
}

#[test]
fn parameterized_types_round_trip() {
    let dt = DataType::Datetime(TimeUnit::Nanoseconds, Some(String::from("UTC")));
    assert_eq!(round_trip(dt), DataType::Datetime(TimeUnit::Nanoseconds, Some(String::from("UTC"))));

    let dt = DataType::Datetime(TimeUnit::Milliseconds, None);
    assert_eq!(round_trip(dt), DataType::Datetime(TimeUnit::Milliseconds, None));

    let dt = DataType::Duration(TimeUnit::Microseconds);
    assert_eq!(round_trip(dt), DataType::Duration(TimeUnit::Microseconds));

    let dt = DataType::Decimal(Some(18), Some(4));
    assert_eq!(round_trip(dt), DataType::Decimal(Some(18), Some(4)));

    let dt = DataType::Decimal(None, Some(2));
    assert_eq!(round_trip(dt), DataType::Decimal(None, Some(2)));

    let dt = DataType::List(Box::new(DataType::Int32));
    assert_eq!(round_trip(dt), DataType::List(Box::new(DataType::Int32)));

    let dt = DataType::Array(Box::new(DataType::Boolean), 4);
    assert_eq!(round_trip(dt), DataType::Array(Box::new(DataType::Boolean), 4));

    let dt = DataType::Categorical(None, CategoricalOrdering::Lexical);
    assert_eq!(round_trip(dt), DataType::Categorical(None, CategoricalOrdering::Lexical));

    let dt = DataType::Enum(
        vec![String::from("a"), String::from("b")],
        CategoricalOrdering::Physical,
    );
    assert_eq!(
        round_trip(dt),
        DataType::Enum(vec![String::from("a"), String::from("b")], CategoricalOrdering::Physical)
    );
}

#[test]
fn nested_struct_round_trips() {
    let dt = DataType::Struct(vec![
        Field { name: String::from("id"), dtype: DataType::Int64 },
        Field {
            name: String::from("tags"),
            dtype: DataType::List(Box::new(DataType::Utf8)),
        },
        Field {
            name: String::from("inner"),
            dtype: DataType::Struct(vec![Field {
                name: String::from("when"),
                dtype: DataType::Datetime(TimeUnit::Microseconds, None),
            }]),
        },
    ]);
    let expected = DataType::Struct(vec![
        Field { name: String::from("id"), dtype: DataType::Int64 },
        Field {
            name: String::from("tags"),
            dtype: DataType::List(Box::new(DataType::Utf8)),
        },
        Field {
            name: String::from("inner"),
            dtype: DataType::Struct(vec![Field {
                name: String::from("when"),
                dtype: DataType::Datetime(TimeUnit::Microseconds, None),
            }]),
        },
    ]);
    assert_eq!(round_trip(dt), expected);
}

#[test]
fn bare_identifiers_decode_to_defaults() {
    assert_eq!(
        decode_bare("List").unwrap(),
        DataType::List(Box::new(DataType::Null))
    );
    assert_eq!(
        decode_bare("Array").unwrap(),
        DataType::Array(Box::new(DataType::Null), 0)
    );
    assert_eq!(decode_bare("Struct").unwrap(), DataType::Struct(vec![]));
    assert_eq!(
        decode_bare("Datetime").unwrap(),
        DataType::Datetime(TimeUnit::Microseconds, None)
    );
    assert_eq!(
        decode_bare("Duration").unwrap(),
        DataType::Duration(TimeUnit::Microseconds)
    );
    assert_eq!(decode_bare("Decimal").unwrap(), DataType::Decimal(None, None));
    assert_eq!(
        decode_bare("Categorical").unwrap(),
        DataType::Categorical(None, CategoricalOrdering::Physical)
    );
    assert_eq!(
        decode_bare("Enum").unwrap(),
        DataType::Enum(vec![], CategoricalOrdering::Physical)
    );
    assert_eq!(decode_bare("Int8").unwrap(), DataType::Int8);
    assert_eq!(decode_bare("String").unwrap(), DataType::Utf8);
    assert_eq!(decode_bare("Unknown").unwrap(), DataType::Unknown(UnknownKind::Any));
}

#[test]
fn bare_decode_is_not_bijective() {
    // A bare class decodes to its default-parameter variant; re-encoding that
    // variant yields a parameterized instance, not the bare class again.
    let decoded = decode_dtype(&HostDType::Class(String::from("List"))).unwrap();
    let reencoded = encode_dtype(&decoded);
    assert_ne!(reencoded, HostDType::Class(String::from("List")));
    match reencoded {
        HostDType::Instance(id, args) => {
            assert_eq!(id, "List");
            assert_eq!(args.len(), 1);
        }
        HostDType::Class(_) => panic!("expected a parameterized instance"),
    }
}

#[test]
fn unknown_placeholders_materialize_on_encode() {
    assert_eq!(
        encode_dtype(&DataType::Unknown(UnknownKind::Int(5))),
        HostDType::Instance(String::from("Int32"), vec![])
    );
    assert_eq!(
        encode_dtype(&DataType::Unknown(UnknownKind::Int(1_i64 << 40))),
        HostDType::Instance(String::from("Int64"), vec![])
    );
    assert_eq!(
        encode_dtype(&DataType::Unknown(UnknownKind::Float)),
        HostDType::Instance(String::from("Float64"), vec![])
    );
    assert_eq!(
        encode_dtype(&DataType::Unknown(UnknownKind::Str)),
        HostDType::Instance(String::from("String"), vec![])
    );
    assert_eq!(materialize_unknown(UnknownKind::Int(-7)), DataType::Int32);
    assert_eq!(materialize_unknown(UnknownKind::Int(i64::MAX)), DataType::Int64);
}

#[test]
fn time_and_null_encode_as_bare_classes() {
    assert_eq!(encode_dtype(&DataType::Time), HostDType::Class(String::from("Time")));
    assert_eq!(encode_dtype(&DataType::Null), HostDType::Class(String::from("Null")));
}

#[test]
fn unknown_identifier_is_an_unsupported_type_error() {
    let err = decode_dtype(&HostDType::Class(String::from("NotAType"))).unwrap_err();
    match &err {
        BridgeError::UnsupportedType { identifier } => assert_eq!(identifier, "NotAType"),
        other => panic!("expected an unsupported-type error, got {:?}", other),
    }
    assert!(err.message().contains("NotAType"));

    let err = decode_dtype(&HostDType::Instance(String::from("NotAType"), vec![])).unwrap_err();
    assert!(err.message().contains("NotAType"));
}

#[test]
fn object_type_is_refused_on_decode() {
    let err = decode_dtype(&HostDType::Instance(String::from("Object"), vec![])).unwrap_err();
    match &err {
        BridgeError::UnsupportedType { identifier } => assert_eq!(identifier, "Object"),
        other => panic!("expected an unsupported-type error, got {:?}", other),
    }
    let err = decode_dtype(&HostDType::Class(String::from("Object"))).unwrap_err();
    assert!(err.message().contains("Object"));
}

#[test]
fn invalid_time_unit_code_is_rejected() {
    assert_eq!(parse_time_unit("ns").unwrap(), TimeUnit::Nanoseconds);
    assert_eq!(parse_time_unit("us").unwrap(), TimeUnit::Microseconds);
    assert_eq!(parse_time_unit("ms").unwrap(), TimeUnit::Milliseconds);
    let err = parse_time_unit("sec").unwrap_err();
    match &err {
        BridgeError::InvalidTimeUnit { code } => assert_eq!(code, "sec"),
        other => panic!("expected an invalid-time-unit error, got {:?}", other),
    }
    assert!(err.message().contains("sec"));
    assert_eq!(TimeUnit::Nanoseconds.code(), "ns");
    assert_eq!(TimeUnit::Microseconds.code(), "us");
    assert_eq!(TimeUnit::Milliseconds.code(), "ms");
}

#[test]
fn invalid_ordering_mode_is_rejected() {
    assert_eq!(parse_ordering("physical").unwrap(), CategoricalOrdering::Physical);
    assert_eq!(parse_ordering("lexical").unwrap(), CategoricalOrdering::Lexical);
    let err = parse_ordering("alphabetical").unwrap_err();
    match &err {
        BridgeError::InvalidOrdering { value } => assert_eq!(value, "alphabetical"),
        other => panic!("expected an invalid-ordering error, got {:?}", other),
    }
    assert!(err.message().contains("alphabetical"));
}

#[test]
fn malformed_parameters_are_rejected() {
    // Datetime with the wrong argument shape.
    let err = decode_dtype(&HostDType::Instance(String::from("Datetime"), vec![])).unwrap_err();
    assert!(matches!(err, BridgeError::MalformedArguments { .. }));

    // Datetime with an out-of-set time unit code.
    let err = decode_dtype(&HostDType::Instance(
        String::from("Datetime"),
        vec![
            HostArg::StrVal(String::from("weeks")),
            HostArg::OptStr(None),
        ],
    ))
    .unwrap_err();
    assert!(matches!(err, BridgeError::InvalidTimeUnit { .. }));

    // Decimal without an explicit scale.
    let err = decode_dtype(&HostDType::Instance(
        String::from("Decimal"),
        vec![HostArg::OptUInt(Some(10)), HostArg::OptUInt(None)],
    ))
    .unwrap_err();
    assert!(matches!(err, BridgeError::MalformedArguments { .. }));
}

#[test]
fn nested_decode_error_propagates_from_a_field() {
    let host = HostDType::Instance(
        String::from("Struct"),
        vec![HostArg::FieldObjs(vec![HostField {
            name: String::from("bad"),
            dtype: HostDType::Class(String::from("NotAType")),
        }])],
    );
    let err = decode_dtype(&host).unwrap_err();
    assert!(err.message().contains("NotAType"));
}

#[test]
fn boundary_safety_spots_the_internal_variant() {
    assert!(DataType::Int8.boundary_safe());
    assert!(!DataType::BinaryOffset.boundary_safe());
    let nested = DataType::Struct(vec![Field {
        name: String::from("x"),
        dtype: DataType::List(Box::new(DataType::BinaryOffset)),
    }]);
    assert!(!nested.boundary_safe());
}

#[test]
fn schema_encodes_names_and_types_in_order() {
    let schema = Schema {
        fields: vec![
            Field { name: String::from("id"), dtype: DataType::UInt32 },
            Field { name: String::from("name"), dtype: DataType::Utf8 },
            Field {
                name: String::from("when"),
                dtype: DataType::Datetime(TimeUnit::Nanoseconds, None),
            },
        ],
    };
    let encoded = encode_schema(&schema);
    assert_eq!(encoded.len(), 3);
    assert_eq!(encoded[0].name, "id");
    assert_eq!(encoded[0].dtype, HostDType::Instance(String::from("UInt32"), vec![]));
    assert_eq!(encoded[1].name, "name");
    assert_eq!(encoded[1].dtype, HostDType::Instance(String::from("String"), vec![]));
    assert_eq!(encoded[2].name, "when");
    match &encoded[2].dtype {
        HostDType::Instance(id, args) => {
            assert_eq!(id, "Datetime");
            assert_eq!(args[0], HostArg::StrVal(String::from("ns")));
            assert_eq!(args[1], HostArg::OptStr(None));
        }
        other => panic!("expected a parameterized instance, got {:?}", other),
    }
}
