use columnar_bridge::chunk::Cell;
use columnar_bridge::chunk::Chunk;
use columnar_bridge::dtype::CategoricalOrdering;
use columnar_bridge::dtype::DataType;
use columnar_bridge::error::BridgeError;
use columnar_bridge::host::HostDType;
use columnar_bridge::series::CompatLevel;
use columnar_bridge::series::Series;
use columnar_bridge::series::SeriesExport;
use columnar_bridge::series::decode_series;
use columnar_bridge::series::encode_series;
use columnar_bridge::series::negotiate_compat_level;
use columnar_bridge::series::rechunk;
use columnar_bridge::table::Table;
use columnar_bridge::table::table_columns;
use columnar_bridge::table::table_from_columns;

fn int_series(name: &str, values: Vec<Cell>) -> Series {
    Series {
        name: String::from(name),
        dtype: DataType::Int64,
        chunks: vec![Chunk { cells: values }],
    }
}

#[test]
fn one_chunk_integer_series_round_trips_with_null() {
    // A one-chunk integer series named "x" with logical values [1, 2, null, 4].
    let s = int_series(
        "x",
        vec![Cell::Int(1), Cell::Int(2), Cell::Null, Cell::Int(4)],
    );
    let export = encode_series(s, Some(1));
    assert_eq!(export.name, "x");
    assert_eq!(export.data.length, 4);
    assert_eq!(export.data.null_count, 1);
    let back = decode_series(export).expect("import of an export must succeed");
    assert_eq!(back.name, "x");
    assert_eq!(back.dtype, DataType::Int64);
    assert_eq!(back.chunks.len(), 1);
    let cells = &back.chunks[0].cells;
    assert_eq!(cells.len(), 4);
    assert_eq!(cells[0], Cell::Int(1));
    assert_eq!(cells[1], Cell::Int(2));
    assert_eq!(cells[2], Cell::Null);
    assert_eq!(cells[3], Cell::Int(4));
}

#[test]
fn nested_and_text_series_round_trip_preserving_null_positions() {
    let s = Series {
        name: String::from("nested"),
        dtype: DataType::List(Box::new(DataType::Utf8)),
        chunks: vec![Chunk {
            cells: vec![
                Cell::List(vec![Cell::Text(String::from("a")), Cell::Null]),
                Cell::Null,
                Cell::List(vec![]),
            ],
        }],
    };
    let export = encode_series(s, None);
    let back = decode_series(export).unwrap();
    assert_eq!(back.name, "nested");
    assert_eq!(back.dtype, DataType::List(Box::new(DataType::Utf8)));
    let cells = &back.chunks[0].cells;
    assert_eq!(cells.len(), 3);
    assert_eq!(
        cells[0],
        Cell::List(vec![Cell::Text(String::from("a")), Cell::Null])
    );
    assert_eq!(cells[1], Cell::Null);
    assert_eq!(cells[2], Cell::List(vec![]));
}

#[test]
fn float_bits_cross_the_boundary_untouched() {
    let bits = 0x4049_0fdb_u32;
    let s = Series {
        name: String::from("f"),
        dtype: DataType::Float32,
        chunks: vec![Chunk { cells: vec![Cell::F32Bits(bits), Cell::Null] }],
    };
    let back = decode_series(encode_series(s, Some(1))).unwrap();
    assert_eq!(back.chunks[0].cells[0], Cell::F32Bits(bits));
    assert_eq!(back.chunks[0].cells[1], Cell::Null);
}

#[test]
fn rechunk_concatenates_chunks_in_order() {
    let s = Series {
        name: String::from("r"),
        dtype: DataType::Int32,
        chunks: vec![
            Chunk { cells: vec![Cell::Int(1), Cell::Int(2)] },
            Chunk { cells: vec![] },
            Chunk { cells: vec![Cell::Null, Cell::Int(3)] },
        ],
    };
    let single = rechunk(s);
    assert_eq!(single.name, "r");
    assert_eq!(single.chunks.len(), 1);
    assert_eq!(
        single.chunks[0].cells,
        vec![Cell::Int(1), Cell::Int(2), Cell::Null, Cell::Int(3)]
    );
}

#[test]
fn compat_level_negotiation_follows_the_probe() {
    assert_eq!(negotiate_compat_level(None).get_level(), 0);
    assert_eq!(negotiate_compat_level(Some(0)).get_level(), 0);
    assert_eq!(negotiate_compat_level(Some(1)).get_level(), 1);
    assert_eq!(negotiate_compat_level(Some(99)).get_level(), 1);
    assert!(CompatLevel::with_level(2).is_none());
    assert_eq!(CompatLevel::oldest().get_level(), 0);
    assert_eq!(CompatLevel::newest().get_level(), 1);
}

#[test]
fn export_negotiates_the_declared_compat_level() {
    let s = int_series("c", vec![Cell::Int(9)]);
    let export = encode_series(s, None);
    assert_eq!(export.compat.get_level(), 0);
    let s = int_series("c", vec![Cell::Int(9)]);
    let export = encode_series(s, Some(7));
    assert_eq!(export.compat.get_level(), 1);
}

#[test]
fn mismatched_payload_fails_with_a_conversion_error() {
    let export = SeriesExport {
        name: String::from("bad"),
        compat: CompatLevel::oldest(),
        schema: columnar_bridge::chunk::SchemaDescriptor {
            dtype_repr: HostDType::Instance(String::from("Int8"), vec![]),
        },
        data: columnar_bridge::chunk::DataDescriptor {
            length: 1,
            null_count: 0,
            offset: 0,
            cells: vec![Cell::Int(300)],
        },
    };
    let err = decode_series(export).unwrap_err();
    assert!(matches!(err, BridgeError::Conversion { .. }));
    assert!(err.message().contains("Int8"));
}

#[test]
fn unreadable_schema_descriptor_fails_with_its_own_error() {
    let export = SeriesExport {
        name: String::from("bad"),
        compat: CompatLevel::oldest(),
        schema: columnar_bridge::chunk::SchemaDescriptor {
            dtype_repr: HostDType::Class(String::from("NotAType")),
        },
        data: columnar_bridge::chunk::DataDescriptor {
            length: 0,
            null_count: 0,
            offset: 0,
            cells: vec![],
        },
    };
    let err = decode_series(export).unwrap_err();
    assert!(err.message().contains("NotAType"));
}

#[test]
fn export_import_cycle_runs_ten_thousand_times() {
    // Each cycle moves the payload across the boundary and back; ownership is
    // transferred by move, so no cycle can double-release or leak it.
    let mut s = int_series(
        "x",
        vec![Cell::Int(1), Cell::Int(2), Cell::Null, Cell::Int(4)],
    );
    for _ in 0..10_000 {
        let export = encode_series(s, Some(1));
        s = decode_series(export).unwrap();
    }
    assert_eq!(s.name, "x");
    assert_eq!(
        s.chunks[0].cells,
        vec![Cell::Int(1), Cell::Int(2), Cell::Null, Cell::Int(4)]
    );
}

#[test]
fn table_round_trip_preserves_column_order_names_and_values() {
    let a = int_series("a", vec![Cell::Int(1), Cell::Int(2)]);
    let b = Series {
        name: String::from("b"),
        dtype: DataType::Utf8,
        chunks: vec![Chunk {
            cells: vec![Cell::Text(String::from("x")), Cell::Null],
        }],
    };
    let c = Series {
        name: String::from("c"),
        dtype: DataType::Boolean,
        chunks: vec![Chunk { cells: vec![Cell::Bool(true), Cell::Bool(false)] }],
    };
    let t = table_from_columns(vec![a, b, c]).expect("equal heights must build");
    let cols = table_columns(t);
    assert_eq!(cols.len(), 3);
    assert_eq!(cols[0].name, "a");
    assert_eq!(cols[1].name, "b");
    assert_eq!(cols[2].name, "c");
    assert_eq!(cols[0].chunks[0].cells, vec![Cell::Int(1), Cell::Int(2)]);
    assert_eq!(
        cols[1].chunks[0].cells,
        vec![Cell::Text(String::from("x")), Cell::Null]
    );
    assert_eq!(cols[2].dtype, DataType::Boolean);
}

#[test]
fn mismatched_column_lengths_fail_before_construction() {
    let a = int_series("a", vec![Cell::Int(1), Cell::Int(2)]);
    let b = int_series("b", vec![Cell::Int(1)]);
    let err = table_from_columns(vec![a, b]).unwrap_err();
    match err {
        BridgeError::LengthMismatch { expected, found } => {
            assert_eq!(expected, 2);
            assert_eq!(found, 1);
        }
        other => panic!("expected a length mismatch, got {:?}", other),
    }
}

#[test]
fn empty_table_builds() {
    let t = table_from_columns(vec![]).unwrap();
    assert_eq!(table_columns(t).len(), 0);
    let t2 = Table { columns: vec![] };
    assert_eq!(table_columns(t2).len(), 0);
}

#[test]
fn multi_chunk_series_height_counts_all_chunks() {
    let a = Series {
        name: String::from("a"),
        dtype: DataType::Int32,
        chunks: vec![
            Chunk { cells: vec![Cell::Int(1)] },
            Chunk { cells: vec![Cell::Int(2), Cell::Int(3)] },
        ],
    };
    let b = int_series("b", vec![Cell::Int(1), Cell::Int(2), Cell::Int(3)]);
    let t = table_from_columns(vec![a, b]).expect("three rows each");
    assert_eq!(table_columns(t).len(), 2);
}

#[test]
fn enum_codes_must_index_the_categories() {
    let dtype = DataType::Enum(
        vec![String::from("red"), String::from("green")],
        CategoricalOrdering::Physical,
    );
    let good = Series {
        name: String::from("color"),
        dtype,
        chunks: vec![Chunk { cells: vec![Cell::UInt(0), Cell::UInt(1), Cell::Null] }],
    };
    let back = decode_series(encode_series(good, Some(1))).unwrap();
    assert_eq!(back.chunks[0].cells, vec![Cell::UInt(0), Cell::UInt(1), Cell::Null]);

    // A dictionary code past the category vector cannot be imported.
    let export = SeriesExport {
        name: String::from("color"),
        compat: CompatLevel::newest(),
        schema: columnar_bridge::chunk::SchemaDescriptor {
            dtype_repr: HostDType::Instance(
                String::from("Enum"),
                vec![columnar_bridge::host::HostArg::Categories(vec![
                    String::from("red"),
                    String::from("green"),
                ])],
            ),
        },
        data: columnar_bridge::chunk::DataDescriptor {
            length: 1,
            null_count: 0,
            offset: 0,
            cells: vec![Cell::UInt(2)],
        },
    };
    let err = decode_series(export).unwrap_err();
    assert!(matches!(err, BridgeError::Conversion { .. }));
}
