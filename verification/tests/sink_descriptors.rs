use parquet::basic::{Compression, Repetition};
use parquet::schema::types::ColumnPath;
use sqlite2parquet::sink::{
    has_unique_names, sink_schema, writer_properties, SchemaError, SinkError,
};
use sqlite2parquet::{Column, Encoding, LogicalType, PhysicalType, TimeType, TimeUnit};

fn plan(name: &str, physical_type: PhysicalType, logical_type: Option<LogicalType>) -> Column {
    Column {
        name: name.to_string(),
        required: false,
        physical_type,
        logical_type,
        encoding: None,
        dictionary: false,
        query: format!("SELECT {} FROM t ORDER BY rowid", name),
    }
}

fn physical_types() -> Vec<PhysicalType> {
    vec![
        PhysicalType::Boolean,
        PhysicalType::Int32,
        PhysicalType::Int64,
        PhysicalType::Float,
        PhysicalType::Double,
        PhysicalType::ByteArray,
        PhysicalType::FixedLenByteArray(16),
        PhysicalType::FixedLenByteArray(0),
        PhysicalType::FixedLenByteArray(-1),
    ]
}

fn logical_types() -> Vec<Option<LogicalType>> {
    let mut all = vec![
        None,
        Some(LogicalType::String),
        Some(LogicalType::KeyValueMap),
        Some(LogicalType::List),
        Some(LogicalType::Enum),
        Some(LogicalType::Date),
        Some(LogicalType::Json),
        Some(LogicalType::Bson),
        Some(LogicalType::Uuid),
        Some(LogicalType::Unknown),
    ];
    for unit in [TimeUnit::Millis, TimeUnit::Micros, TimeUnit::Nanos] {
        for utc in [false, true] {
            all.push(Some(LogicalType::Time(TimeType { utc, unit })));
            all.push(Some(LogicalType::Timestamp(TimeType { utc, unit })));
        }
    }
    for bit_width in [8, 16, 32, 64] {
        for is_signed in [false, true] {
            all.push(Some(LogicalType::Integer { bit_width, is_signed }));
        }
    }
    all
}

/// What the contract of the descriptor says of when a column has one.
fn accepted(physical: PhysicalType, logical: Option<LogicalType>) -> bool {
    let length_ok = !matches!(physical, PhysicalType::FixedLenByteArray(n) if n <= 0);
    length_ok && logical.map_or(true, |l| l.annotates(physical))
}

#[test]
fn sink_takes_exactly_the_columns_it_is_said_to_take() {
    for physical in physical_types() {
        for logical in logical_types() {
            let col = plan("c", physical, logical);
            let result = col.as_parquet();
            assert_eq!(
                result.is_ok(),
                accepted(physical, logical),
                "{:?} with {:?}: {:?}",
                physical,
                logical,
                result
            );
        }
    }
}

#[test]
fn exactly_the_sound_plans_have_a_descriptor() {
    for physical in physical_types() {
        for logical in logical_types() {
            let col = plan("c", physical, logical);
            assert_eq!(col.as_parquet().is_ok(), col.is_well_formed());
        }
    }
}

#[test]
fn fixed_length_that_is_not_positive_is_refused() {
    for length in [0, -1, i32::MIN] {
        for logical in logical_types() {
            let col = plan("c", PhysicalType::FixedLenByteArray(length), logical);
            assert_eq!(col.as_parquet(), Err(SchemaError::NonPositiveLength { length }));
        }
        let odd = Some(LogicalType::Integer { bit_width: 7, is_signed: true });
        let col = plan("c", PhysicalType::FixedLenByteArray(length), odd);
        assert_eq!(col.as_parquet(), Err(SchemaError::NonPositiveLength { length }));
    }
    assert!(plan("c", PhysicalType::FixedLenByteArray(1), None).as_parquet().is_ok());
}

#[test]
fn unsupported_integer_width_is_refused_before_the_sink() {
    for bit_width in [-8i8, 0, 7, 24, 33, 48, 127] {
        for physical in physical_types() {
            if matches!(physical, PhysicalType::FixedLenByteArray(n) if n <= 0) {
                continue;
            }
            let col = plan("c", physical, Some(LogicalType::Integer { bit_width, is_signed: true }));
            assert_eq!(col.as_parquet(), Err(SchemaError::UnsupportedWidth { bit_width }));
        }
    }
}

#[test]
fn refusal_carries_the_sinks_message() {
    let col = plan("c", PhysicalType::Int32, Some(LogicalType::String));
    match col.as_parquet() {
        Err(SchemaError::Refused { message }) => assert!(!message.is_empty()),
        other => panic!("unexpected: {:?}", other),
    }
    let col = plan("c", PhysicalType::Double, Some(LogicalType::Uuid));
    match col.as_parquet() {
        Err(SchemaError::Refused { message }) => assert!(message.contains("DOUBLE")),
        other => panic!("unexpected: {:?}", other),
    }
}

#[test]
fn descriptor_carries_the_plan() {
    let mut col = plan(
        "first_timestamp",
        PhysicalType::Int64,
        Some(LogicalType::Timestamp(TimeType { utc: true, unit: TimeUnit::Nanos })),
    );
    col.required = true;
    let t = col.as_parquet().unwrap();
    assert!(t.is_primitive());
    assert_eq!(t.name(), "first_timestamp");
    assert_eq!(t.get_physical_type(), parquet::basic::Type::INT64);
    assert_eq!(t.get_basic_info().repetition(), Repetition::REQUIRED);
    assert_eq!(
        t.get_basic_info().logical_type(),
        Some(parquet::basic::LogicalType::Timestamp {
            is_adjusted_to_u_t_c: true,
            unit: parquet::basic::TimeUnit::NANOS(Default::default()),
        })
    );
}

#[test]
fn descriptor_of_each_physical_type() {
    let expected = [
        (PhysicalType::Boolean, parquet::basic::Type::BOOLEAN, 0),
        (PhysicalType::Int32, parquet::basic::Type::INT32, 0),
        (PhysicalType::Int64, parquet::basic::Type::INT64, 0),
        (PhysicalType::Float, parquet::basic::Type::FLOAT, 0),
        (PhysicalType::Double, parquet::basic::Type::DOUBLE, 0),
        (PhysicalType::ByteArray, parquet::basic::Type::BYTE_ARRAY, 0),
        (PhysicalType::FixedLenByteArray(12), parquet::basic::Type::FIXED_LEN_BYTE_ARRAY, 12),
    ];
    for (physical, sink_type, length) in expected {
        let t = plan("c", physical, None).as_parquet().unwrap();
        assert_eq!(t.get_physical_type(), sink_type);
        assert_eq!(t.get_basic_info().repetition(), Repetition::OPTIONAL);
        assert_eq!(t.get_basic_info().logical_type(), None);
        match t {
            parquet::schema::types::Type::PrimitiveType { type_length, .. } => {
                assert_eq!(type_length, length)
            }
            _ => panic!("not a primitive type"),
        }
    }
}

#[test]
fn descriptor_of_each_logical_type() {
    let cases = vec![
        (PhysicalType::ByteArray, LogicalType::String, parquet::basic::LogicalType::String),
        (PhysicalType::ByteArray, LogicalType::Enum, parquet::basic::LogicalType::Enum),
        (PhysicalType::ByteArray, LogicalType::Json, parquet::basic::LogicalType::Json),
        (PhysicalType::ByteArray, LogicalType::Bson, parquet::basic::LogicalType::Bson),
        (PhysicalType::Int32, LogicalType::Date, parquet::basic::LogicalType::Date),
        (PhysicalType::Int32, LogicalType::Unknown, parquet::basic::LogicalType::Unknown),
        (PhysicalType::FixedLenByteArray(16), LogicalType::Uuid, parquet::basic::LogicalType::Uuid),
        (
            PhysicalType::Int32,
            LogicalType::Time(TimeType { utc: false, unit: TimeUnit::Millis }),
            parquet::basic::LogicalType::Time {
                is_adjusted_to_u_t_c: false,
                unit: parquet::basic::TimeUnit::MILLIS(Default::default()),
            },
        ),
        (
            PhysicalType::Int64,
            LogicalType::Time(TimeType { utc: true, unit: TimeUnit::Micros }),
            parquet::basic::LogicalType::Time {
                is_adjusted_to_u_t_c: true,
                unit: parquet::basic::TimeUnit::MICROS(Default::default()),
            },
        ),
        (
            PhysicalType::Int64,
            LogicalType::Timestamp(TimeType { utc: false, unit: TimeUnit::Millis }),
            parquet::basic::LogicalType::Timestamp {
                is_adjusted_to_u_t_c: false,
                unit: parquet::basic::TimeUnit::MILLIS(Default::default()),
            },
        ),
        (
            PhysicalType::Int32,
            LogicalType::Integer { bit_width: 16, is_signed: false },
            parquet::basic::LogicalType::Integer { bit_width: 16, is_signed: false },
        ),
        (
            PhysicalType::Int64,
            LogicalType::Integer { bit_width: 64, is_signed: true },
            parquet::basic::LogicalType::Integer { bit_width: 64, is_signed: true },
        ),
    ];
    for (physical, logical, sink_logical) in cases {
        let t = plan("c", physical, Some(logical)).as_parquet().unwrap();
        assert_eq!(t.get_basic_info().logical_type(), Some(sink_logical));
    }
}

#[test]
fn schema_with_an_unsound_plan_names_it() {
    let cols = vec![
        plan("a", PhysicalType::Int32, None),
        plan("h", PhysicalType::FixedLenByteArray(0), None),
    ];
    assert_eq!(
        sink_schema("t", &cols),
        Err(SinkError { column: 1, error: SchemaError::NonPositiveLength { length: 0 } })
    );
}

#[test]
fn schema_groups_the_columns_in_plan_order() {
    let cols = vec![
        plan("category", PhysicalType::ByteArray, Some(LogicalType::String)),
        plan("n", PhysicalType::Int32, None),
        plan("id", PhysicalType::FixedLenByteArray(16), Some(LogicalType::Uuid)),
    ];
    let schema = sink_schema("my_table", &cols).unwrap();
    assert!(schema.is_group());
    assert_eq!(schema.name(), "my_table");
    let fields = schema.get_fields();
    assert_eq!(fields.len(), 3);
    assert_eq!(fields[0].name(), "category");
    assert_eq!(fields[1].name(), "n");
    assert_eq!(fields[2].name(), "id");
    assert_eq!(fields[2].get_physical_type(), parquet::basic::Type::FIXED_LEN_BYTE_ARRAY);
}

#[test]
fn schema_of_no_columns() {
    let schema = sink_schema("empty", &Vec::new()).unwrap();
    assert!(schema.is_group());
    assert!(schema.get_fields().is_empty());
}

#[test]
fn schema_names_the_first_refused_column() {
    let cols = vec![
        plan("a", PhysicalType::Int32, None),
        plan("b", PhysicalType::Int32, Some(LogicalType::Json)),
        plan("c", PhysicalType::Int32, Some(LogicalType::Integer { bit_width: 5, is_signed: true })),
    ];
    match sink_schema("t", &cols) {
        Err(SinkError { column, error: SchemaError::Refused { .. } }) => assert_eq!(column, 1),
        other => panic!("unexpected: {:?}", other),
    }
    let cols = vec![
        plan("c", PhysicalType::Int32, Some(LogicalType::Integer { bit_width: 5, is_signed: true })),
        plan("b", PhysicalType::Int32, Some(LogicalType::Json)),
    ];
    assert_eq!(
        sink_schema("t", &cols),
        Err(SinkError { column: 0, error: SchemaError::UnsupportedWidth { bit_width: 5 } })
    );
}

#[test]
fn properties_carry_dictionary_and_encoding_per_column() {
    let mut a = plan("a", PhysicalType::Int64, None);
    a.encoding = Some(Encoding::DeltaBinaryPacked);
    a.dictionary = false;
    let mut b = plan("b", PhysicalType::ByteArray, None);
    b.dictionary = true;
    let mut c = plan("c", PhysicalType::ByteArray, None);
    c.encoding = Some(Encoding::DeltaByteArray);
    c.dictionary = true;
    let props = writer_properties(&vec![a, b, c]).unwrap();
    let path = |name: &str| ColumnPath::new(vec![name.to_string()]);
    assert_eq!(props.encoding(&path("a")), Some(parquet::basic::Encoding::DELTA_BINARY_PACKED));
    assert!(!props.dictionary_enabled(&path("a")));
    assert_eq!(props.encoding(&path("b")), None);
    assert!(props.dictionary_enabled(&path("b")));
    assert_eq!(props.encoding(&path("c")), Some(parquet::basic::Encoding::DELTA_BYTE_ARRAY));
    assert!(props.dictionary_enabled(&path("c")));
    assert_eq!(props.compression(&path("a")), Compression::ZSTD);
    assert_eq!(props.compression(&path("other")), Compression::ZSTD);
}

#[test]
fn properties_take_each_explicit_encoding() {
    let cases = [
        (Encoding::Plain, parquet::basic::Encoding::PLAIN),
        (Encoding::Rle, parquet::basic::Encoding::RLE),
        (Encoding::BitPacked, parquet::basic::Encoding::BIT_PACKED),
        (Encoding::DeltaBinaryPacked, parquet::basic::Encoding::DELTA_BINARY_PACKED),
        (Encoding::DeltaLengthByteArray, parquet::basic::Encoding::DELTA_LENGTH_BYTE_ARRAY),
        (Encoding::DeltaByteArray, parquet::basic::Encoding::DELTA_BYTE_ARRAY),
        (Encoding::ByteStreamSplit, parquet::basic::Encoding::BYTE_STREAM_SPLIT),
    ];
    for (encoding, sink_encoding) in cases {
        let mut col = plan("x", PhysicalType::Int32, None);
        col.encoding = Some(encoding);
        let props = writer_properties(&vec![col]).unwrap();
        assert_eq!(props.encoding(&ColumnPath::new(vec!["x".to_string()])), Some(sink_encoding));
    }
}

#[test]
fn later_plan_of_the_same_name_stands() {
    let mut first = plan("a", PhysicalType::Int64, None);
    first.dictionary = true;
    first.encoding = Some(Encoding::Plain);
    let mut second = plan("a", PhysicalType::Int64, None);
    second.dictionary = false;
    let props = writer_properties(&vec![first, second]).unwrap();
    let path = ColumnPath::new(vec!["a".to_string()]);
    assert!(!props.dictionary_enabled(&path));
    assert_eq!(props.encoding(&path), Some(parquet::basic::Encoding::PLAIN));
}

#[test]
fn dictionary_encoding_as_explicit_encoding_is_refused() {
    let a = plan("a", PhysicalType::Int64, None);
    let mut b = plan("b", PhysicalType::Int64, None);
    b.encoding = Some(Encoding::RleDictionary);
    match writer_properties(&vec![a, b]) {
        Err(e) => assert_eq!(e, SinkError { column: 1, error: SchemaError::DictionaryAsEncoding }),
        Ok(_) => panic!("the dictionary-backed encoding was taken"),
    }
}

#[test]
fn shared_names_are_found() {
    let a = plan("a", PhysicalType::Int64, None);
    let b = plan("b", PhysicalType::Int64, None);
    assert!(has_unique_names(&Vec::new()));
    assert!(has_unique_names(&vec![a.clone()]));
    assert!(has_unique_names(&vec![a.clone(), b.clone()]));
    assert!(!has_unique_names(&vec![a.clone(), b.clone(), a.clone()]));
    assert!(!has_unique_names(&vec![b.clone(), b]));
}
