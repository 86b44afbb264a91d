use sqlite2parquet::infer::{
    bounds_query, column_info, column_query, declared_type, dictionary_for, family, infer_column,
    infer_schema, integer_width, length_warning, logical_type_for, null_count_query,
    physical_type_for, probes_for, required_for, sample_query, table_info_query, warning_message,
    ColumnInfo, ColumnStats, SourceColumn, TypeFamily, Warning,
};
use sqlite2parquet::{LogicalType, PhysicalType, TimeType, TimeUnit};

fn stats() -> ColumnStats {
    ColumnStats { null_count: 0, min: None, max: None, sample_distinct: 0, sample_rows: 0 }
}

fn info(name: &str, type_string: &str, not_null: bool) -> ColumnInfo {
    column_info(name.to_string(), type_string, not_null).unwrap()
}

#[test]
fn declared_type_without_annotation() {
    let d = declared_type("integer").unwrap();
    assert_eq!(d.name, "integer");
    assert_eq!(d.length, None);
    let e = declared_type("").unwrap();
    assert_eq!(e.name, "");
    assert_eq!(e.length, None);
}

#[test]
fn declared_type_with_annotation() {
    let d = declared_type("VARCHAR(20)").unwrap();
    assert_eq!(d.name, "VARCHAR");
    assert_eq!(d.length, Some(20));
    let b = declared_type("blob[16]").unwrap();
    assert_eq!(b.name, "blob");
    assert_eq!(b.length, Some(16));
    let signed = declared_type("BLOB(-3)").unwrap();
    assert_eq!(signed.length, Some(-3));
    let plus = declared_type("BLOB(+7)").unwrap();
    assert_eq!(plus.length, Some(7));
    let mixed = declared_type("BLOB[5)").unwrap();
    assert_eq!(mixed.length, Some(5));
    let zeros = declared_type("X(007)").unwrap();
    assert_eq!(zeros.length, Some(7));
    let max = declared_type("X(2147483647)").unwrap();
    assert_eq!(max.length, Some(2147483647));
    let min = declared_type("X(-2147483648)").unwrap();
    assert_eq!(min.length, Some(-2147483648));
}

#[test]
fn declared_type_splits_at_the_first_bracket() {
    assert!(declared_type("A(1)(2)").is_none());
    let d = declared_type("\u{e9}t\u{e9}(3)").unwrap();
    assert_eq!(d.name, "\u{e9}t\u{e9}");
    assert_eq!(d.length, Some(3));
}

#[test]
fn malformed_annotations_are_refused() {
    assert!(declared_type("VARCHAR(20").is_none());
    assert!(declared_type("VARCHAR(").is_none());
    assert!(declared_type("VARCHAR()").is_none());
    assert!(declared_type("VARCHAR(x)").is_none());
    assert!(declared_type("VARCHAR(-)").is_none());
    assert!(declared_type("VARCHAR(1 )").is_none());
    assert!(declared_type("DECIMAL(10,2)").is_none());
    assert!(declared_type("X(2147483648)").is_none());
    assert!(declared_type("X(-2147483649)").is_none());
    assert!(declared_type("X(99999999999999999999999)").is_none());
    assert!(declared_type("X(1)Y").is_none());
}

#[test]
fn column_info_upper_cases_the_type_name() {
    let i = info("c", "varchar(20)", true);
    assert_eq!(i.name, "c");
    assert_eq!(i.declared_name, "VARCHAR");
    assert_eq!(i.declared_len, Some(20));
    assert!(i.not_null);
    let j = info("d", "Integer", false);
    assert_eq!(j.declared_name, "INTEGER");
    assert_eq!(j.declared_len, None);
    assert!(!j.not_null);
    assert!(column_info("e".to_string(), "blob(", false).is_none());
}

#[test]
fn families_of_known_type_names() {
    assert_eq!(family("BOOL"), TypeFamily::Boolean);
    assert_eq!(family("BOOLEAN"), TypeFamily::Boolean);
    assert_eq!(family("DATE"), TypeFamily::Date);
    assert_eq!(family("TIME"), TypeFamily::Time);
    assert_eq!(family("DATETIME"), TypeFamily::Timestamp);
    assert_eq!(family("TIMESTAMP"), TypeFamily::Timestamp);
    assert_eq!(family("UUID"), TypeFamily::Uuid);
    assert_eq!(family("INTERVAL"), TypeFamily::Interval);
    assert_eq!(family("BIGINT"), TypeFamily::Integer);
    assert_eq!(family("SMALLINT"), TypeFamily::Integer);
    assert_eq!(family("NUM"), TypeFamily::Integer);
    assert_eq!(family("NUMBER"), TypeFamily::Integer);
    assert_eq!(family("INT"), TypeFamily::Integer);
    assert_eq!(family("INTEGER"), TypeFamily::Integer);
    assert_eq!(family("INT8"), TypeFamily::Integer);
    assert_eq!(family("TEXT"), TypeFamily::Text);
    assert_eq!(family("CHAR"), TypeFamily::Text);
    assert_eq!(family("VARCHAR"), TypeFamily::Text);
    assert_eq!(family("NVARCHAR"), TypeFamily::Text);
    assert_eq!(family("BLOB"), TypeFamily::Binary);
    assert_eq!(family("BINARY"), TypeFamily::Binary);
    assert_eq!(family("VARBINARY"), TypeFamily::Binary);
    assert_eq!(family("JSON"), TypeFamily::Json);
    assert_eq!(family("BSON"), TypeFamily::Bson);
    assert_eq!(family("FLOAT"), TypeFamily::Float);
    assert_eq!(family("REAL"), TypeFamily::Double);
    assert_eq!(family("DOUBLE"), TypeFamily::Double);
}

#[test]
fn families_of_unknown_type_names() {
    assert_eq!(family("MONEY"), TypeFamily::Unknown);
    assert_eq!(family(""), TypeFamily::Unknown);
    assert_eq!(family("bool"), TypeFamily::Unknown);
    assert_eq!(family("IN"), TypeFamily::Unknown);
    assert_eq!(family("TINYINT"), TypeFamily::Unknown);
    assert_eq!(family("DOUBLE PRECISION"), TypeFamily::Unknown);
}

#[test]
fn required_follows_declaration_or_data() {
    assert!(required_for(true, 0));
    assert!(required_for(true, 17));
    assert!(required_for(false, 0));
    assert!(!required_for(false, 1));
    assert!(!required_for(false, u64::MAX));
}

#[test]
fn integer_width_at_the_32_bit_boundary() {
    assert_eq!(integer_width(Some(1), Some(2147483647)), PhysicalType::Int32);
    assert_eq!(integer_width(Some(1), Some(2147483648)), PhysicalType::Int64);
    assert_eq!(integer_width(Some(-2147483648), Some(0)), PhysicalType::Int32);
    assert_eq!(integer_width(Some(-2147483649), Some(0)), PhysicalType::Int64);
    assert_eq!(integer_width(None, None), PhysicalType::Int32);
    assert_eq!(integer_width(None, Some(i64::MAX)), PhysicalType::Int64);
    assert_eq!(integer_width(Some(i64::MIN), None), PhysicalType::Int64);
}

#[test]
fn physical_types_by_family() {
    let t = |f, len| physical_type_for(f, len, Some(-5), Some(5));
    assert_eq!(t(TypeFamily::Boolean, None), PhysicalType::Boolean);
    assert_eq!(t(TypeFamily::Date, None), PhysicalType::Int32);
    assert_eq!(t(TypeFamily::Time, None), PhysicalType::Int64);
    assert_eq!(t(TypeFamily::Timestamp, None), PhysicalType::Int64);
    assert_eq!(t(TypeFamily::Uuid, None), PhysicalType::FixedLenByteArray(16));
    assert_eq!(t(TypeFamily::Uuid, Some(20)), PhysicalType::FixedLenByteArray(16));
    assert_eq!(t(TypeFamily::Interval, None), PhysicalType::FixedLenByteArray(12));
    assert_eq!(t(TypeFamily::Integer, None), PhysicalType::Int32);
    assert_eq!(t(TypeFamily::Text, Some(15)), PhysicalType::ByteArray);
    assert_eq!(t(TypeFamily::Binary, None), PhysicalType::ByteArray);
    assert_eq!(t(TypeFamily::Binary, Some(32)), PhysicalType::FixedLenByteArray(32));
    assert_eq!(t(TypeFamily::Json, None), PhysicalType::ByteArray);
    assert_eq!(t(TypeFamily::Bson, None), PhysicalType::ByteArray);
    assert_eq!(t(TypeFamily::Float, None), PhysicalType::Float);
    assert_eq!(t(TypeFamily::Double, None), PhysicalType::Double);
    assert_eq!(t(TypeFamily::Unknown, None), PhysicalType::ByteArray);
    assert_eq!(
        physical_type_for(TypeFamily::Integer, None, Some(0), Some(1 << 40)),
        PhysicalType::Int64
    );
}

#[test]
fn logical_types_by_family() {
    assert_eq!(logical_type_for(TypeFamily::Text), Some(LogicalType::String));
    assert_eq!(logical_type_for(TypeFamily::Date), Some(LogicalType::Date));
    assert_eq!(
        logical_type_for(TypeFamily::Time),
        Some(LogicalType::Time(TimeType { utc: false, unit: TimeUnit::Nanos }))
    );
    assert_eq!(
        logical_type_for(TypeFamily::Timestamp),
        Some(LogicalType::Timestamp(TimeType { utc: true, unit: TimeUnit::Nanos }))
    );
    assert_eq!(logical_type_for(TypeFamily::Uuid), Some(LogicalType::Uuid));
    assert_eq!(logical_type_for(TypeFamily::Json), Some(LogicalType::Json));
    assert_eq!(logical_type_for(TypeFamily::Bson), Some(LogicalType::Bson));
    assert_eq!(logical_type_for(TypeFamily::Boolean), None);
    assert_eq!(logical_type_for(TypeFamily::Integer), None);
    assert_eq!(logical_type_for(TypeFamily::Binary), None);
    assert_eq!(logical_type_for(TypeFamily::Interval), None);
    assert_eq!(logical_type_for(TypeFamily::Float), None);
    assert_eq!(logical_type_for(TypeFamily::Double), None);
    assert_eq!(logical_type_for(TypeFamily::Unknown), None);
}

#[test]
fn dictionary_at_the_uniqueness_threshold() {
    assert!(dictionary_for(PhysicalType::ByteArray, 250, 1000));
    assert!(!dictionary_for(PhysicalType::ByteArray, 999, 1000));
    assert!(!dictionary_for(PhysicalType::ByteArray, 750, 1000));
    assert!(dictionary_for(PhysicalType::ByteArray, 749, 1000));
    assert!(!dictionary_for(PhysicalType::Int64, 3, 4));
    assert!(dictionary_for(PhysicalType::Int64, 2, 4));
    assert!(!dictionary_for(PhysicalType::Int64, 1, 1));
    assert!(dictionary_for(PhysicalType::Int64, 0, 1));
}

#[test]
fn dictionary_is_off_for_empty_samples_and_booleans() {
    assert!(!dictionary_for(PhysicalType::ByteArray, 0, 0));
    assert!(!dictionary_for(PhysicalType::Boolean, 1, 1000));
    assert!(!dictionary_for(PhysicalType::Boolean, 0, 0));
}

#[test]
fn dictionary_decision_does_not_overflow() {
    assert!(!dictionary_for(PhysicalType::Int64, u64::MAX, u64::MAX));
    assert!(dictionary_for(PhysicalType::Int64, u64::MAX / 2, u64::MAX));
}

#[test]
fn dictionary_follows_the_ratio() {
    assert_eq!(
        dictionary_for(PhysicalType::Int32, 1, 4),
        dictionary_for(PhysicalType::Int32, 250, 1000)
    );
    assert_eq!(
        dictionary_for(PhysicalType::Int32, 3, 4),
        dictionary_for(PhysicalType::Int32, 750, 1000)
    );
}

#[test]
fn length_annotations_are_reconciled() {
    assert_eq!(length_warning(None, PhysicalType::ByteArray), None);
    assert_eq!(length_warning(None, PhysicalType::FixedLenByteArray(16)), None);
    assert_eq!(
        length_warning(Some(15), PhysicalType::ByteArray),
        Some(Warning::IgnoredLength { length: 15 })
    );
    assert_eq!(
        length_warning(Some(20), PhysicalType::FixedLenByteArray(16)),
        Some(Warning::OverriddenLength { declared: 20, inferred: 16 })
    );
    assert_eq!(length_warning(Some(16), PhysicalType::FixedLenByteArray(16)), None);
}

#[test]
fn warnings_read_as_messages() {
    assert_eq!(warning_message("MONEY", Warning::UnknownType), "Unknown type: MONEY");
    assert_eq!(
        warning_message("TEXT", Warning::IgnoredLength { length: 15 }),
        "Ignoring length annotation: TEXT[15]"
    );
    assert_eq!(
        warning_message("UUID", Warning::OverriddenLength { declared: 20, inferred: 16 }),
        "Overriding length annotation: UUID[20] -> UUID[16]"
    );
    assert_eq!(
        warning_message("X", Warning::IgnoredLength { length: -2147483648 }),
        "Ignoring length annotation: X[-2147483648]"
    );
    assert_eq!(
        warning_message("X", Warning::IgnoredLength { length: 0 }),
        "Ignoring length annotation: X[0]"
    );
}

#[test]
fn statements_for_the_source() {
    assert_eq!(column_query("a", "t"), "SELECT a FROM t ORDER BY rowid");
    assert_eq!(table_info_query("t"), "SELECT * FROM pragma_table_info('t')");
    assert_eq!(null_count_query("a", "t"), "SELECT COUNT(*) FROM t WHERE a IS NULL");
    assert_eq!(bounds_query("a", "t"), "SELECT MIN(a), MAX(a) FROM t");
    assert_eq!(
        sample_query("a", "t"),
        "SELECT COUNT(DISTINCT a), COUNT(*) FROM (SELECT a FROM t ORDER BY RANDOM() LIMIT 1000)"
    );
}

#[test]
fn probes_depend_on_the_declaration() {
    let p = probes_for(&info("a", "INTEGER", false));
    assert!(p.null_count && p.bounds && p.sample);
    let q = probes_for(&info("a", "bool", true));
    assert!(!q.null_count && !q.bounds && !q.sample);
    let r = probes_for(&info("a", "text", true));
    assert!(!r.null_count && !r.bounds && r.sample);
}

#[test]
fn unknown_type_yields_byte_array_and_warning() {
    let inferred = infer_column("t", &info("price", "MONEY", false), stats());
    assert_eq!(inferred.column.physical_type, PhysicalType::ByteArray);
    assert_eq!(inferred.column.logical_type, None);
    assert_eq!(inferred.warnings, vec![Warning::UnknownType]);
    let annotated = infer_column("t", &info("price", "money(10)", false), stats());
    assert_eq!(annotated.column.physical_type, PhysicalType::ByteArray);
    assert_eq!(
        annotated.warnings,
        vec![Warning::UnknownType, Warning::IgnoredLength { length: 10 }]
    );
}

#[test]
fn inferred_plan_of_a_text_column() {
    let s = ColumnStats { null_count: 3, min: None, max: None, sample_distinct: 10, sample_rows: 1000 };
    let inferred = infer_column("my_table", &info("category", "TEXT", false), s);
    let col = inferred.column;
    assert_eq!(col.name, "category");
    assert!(!col.required);
    assert_eq!(col.physical_type, PhysicalType::ByteArray);
    assert_eq!(col.logical_type, Some(LogicalType::String));
    assert_eq!(col.encoding, None);
    assert!(col.dictionary);
    assert_eq!(col.query, "SELECT category FROM my_table ORDER BY rowid");
    assert!(inferred.warnings.is_empty());
    assert!(col.is_well_formed());
}

#[test]
fn inferred_plan_of_an_integer_column() {
    let narrow = ColumnStats { null_count: 0, min: Some(1), max: Some(2147483647), sample_distinct: 1000, sample_rows: 1000 };
    let a = infer_column("t", &info("n", "INTEGER", false), narrow).column;
    assert!(a.required);
    assert_eq!(a.physical_type, PhysicalType::Int32);
    assert!(!a.dictionary);
    let wide = ColumnStats { max: Some(2147483648), ..narrow };
    let b = infer_column("t", &info("n", "INTEGER", false), wide).column;
    assert_eq!(b.physical_type, PhysicalType::Int64);
}

#[test]
fn declared_not_null_is_trusted() {
    let s = ColumnStats { null_count: 5, ..stats() };
    assert!(infer_column("t", &info("a", "TEXT", true), s).column.required);
    assert!(!infer_column("t", &info("a", "TEXT", false), s).column.required);
}

#[test]
fn conventional_lengths_win_over_annotations() {
    let u = infer_column("t", &info("id", "uuid(20)", true), stats());
    assert_eq!(u.column.physical_type, PhysicalType::FixedLenByteArray(16));
    assert_eq!(u.column.logical_type, Some(LogicalType::Uuid));
    assert_eq!(u.warnings, vec![Warning::OverriddenLength { declared: 20, inferred: 16 }]);
    let i = infer_column("t", &info("span", "INTERVAL[12]", true), stats());
    assert_eq!(i.column.physical_type, PhysicalType::FixedLenByteArray(12));
    assert!(i.warnings.is_empty());
    let b = infer_column("t", &info("h", "BLOB[32]", true), stats());
    assert_eq!(b.column.physical_type, PhysicalType::FixedLenByteArray(32));
    assert!(b.warnings.is_empty());
    let t = infer_column("t", &info("s", "TEXT[15]", true), stats());
    assert_eq!(t.column.physical_type, PhysicalType::ByteArray);
    assert_eq!(t.warnings, vec![Warning::IgnoredLength { length: 15 }]);
}

#[test]
fn binary_with_a_non_positive_length_is_not_sound() {
    let b = infer_column("t", &info("h", "BLOB[0]", true), stats());
    assert_eq!(b.column.physical_type, PhysicalType::FixedLenByteArray(0));
    assert!(!b.column.is_well_formed());
}

#[test]
fn schema_keeps_the_source_column_order() {
    let columns = vec![
        SourceColumn { info: info("a", "BOOL", true), stats: stats() },
        SourceColumn { info: info("b", "DATETIME", false), stats: ColumnStats { null_count: 1, ..stats() } },
        SourceColumn { info: info("c", "REAL", false), stats: stats() },
    ];
    let schema = infer_schema("t", &columns);
    assert_eq!(schema.len(), 3);
    assert_eq!(schema[0].column.name, "a");
    assert_eq!(schema[0].column.physical_type, PhysicalType::Boolean);
    assert_eq!(schema[1].column.name, "b");
    assert_eq!(schema[1].column.physical_type, PhysicalType::Int64);
    assert!(!schema[1].column.required);
    assert_eq!(
        schema[1].column.logical_type,
        Some(LogicalType::Timestamp(TimeType { utc: true, unit: TimeUnit::Nanos }))
    );
    assert_eq!(schema[2].column.physical_type, PhysicalType::Double);
    assert!(schema[2].column.required);
    assert!(infer_schema("t", &Vec::new()).is_empty());
}
