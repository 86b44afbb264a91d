//! Schema inference: from the declared type of a source column and statistics
//! sampled from its data to a column plan.

use crate::schema::{Column, ColumnView, LogicalType, PhysicalType, TimeType, TimeUnit};
use crate::text::{
    ascii_chars, int_digits, parse_i32, parse_i32_in, push_decimal, starts_with, str_eq,
    str_starts_with, to_uppercase, uppercase_of,
};
use vstd::prelude::*;
use vstd::string::*;

verus! {

/// Whether `c` opens a length annotation.
pub open spec fn is_open_bracket(c: char) -> bool {
    c == '[' || c == '('
}

/// Whether `c` closes a length annotation.
pub open spec fn is_close_bracket(c: char) -> bool {
    c == ']' || c == ')'
}

/// Whether `k` is where the length annotation of `s` begins: the index of its
/// first opening bracket, or the length of `s` where it has none.
pub open spec fn is_annotation_start(s: Seq<char>, k: int) -> bool {
    &&& 0 <= k <= s.len()
    &&& forall|j: int| 0 <= j < k ==> !is_open_bracket(#[trigger] s[j])
    &&& k < s.len() ==> is_open_bracket(s[k])
}

/// Where the length annotation of `s` begins.
pub open spec fn annotation_start(s: Seq<char>) -> int {
    choose|k: int| is_annotation_start(s, k)
}

/// A declared type has exactly one place where its annotation begins.
pub proof fn lemma_annotation_start(s: Seq<char>, k: int)
    requires
        is_annotation_start(s, k),
    ensures
        annotation_start(s) == k,
{
    let c = annotation_start(s);
    assert(is_annotation_start(s, c));
    if c < k {
        assert(!is_open_bracket(s[c]));
    } else if k < c {
        assert(!is_open_bracket(s[k]));
    }
}

/// The base name and the length annotation that the declared type `s` holds:
/// the text before the first opening bracket, and the number between that
/// bracket and a closing bracket at the very end. `None` where an annotation
/// is opened but is not a number followed by one closing bracket.
pub open spec fn parse_declared(s: Seq<char>) -> Option<(Seq<char>, Option<i32>)> {
    let k = annotation_start(s);
    if k == s.len() {
        Some((s, None))
    } else {
        let inner = s.subrange(k + 1, s.len() as int);
        if inner.len() > 0 && is_close_bracket(inner.last()) {
            match parse_i32(inner.drop_last()) {
                Some(n) => Some((s.take(k), Some(n))),
                None => None,
            }
        } else {
            None
        }
    }
}

/// A declared column type, split into its base name and length annotation.
#[derive(Debug, Clone)]
pub struct DeclaredType {
    /// The base name as written.
    pub name: String,
    /// The annotated length, where one is given.
    pub length: Option<i32>,
}

/// Splits a declared type such as `VARCHAR(20)` or `BLOB[16]` into its base
/// name and length annotation.
pub fn declared_type(type_string: &str) -> (r: Option<DeclaredType>)
    ensures
        match parse_declared(type_string@) {
            Some((name, length)) => r is Some && r->0.name@ == name && r->0.length == length,
            None => r is None,
        },
{
    let n: usize = type_string.unicode_len();
    let mut k: usize = 0;
    let mut found = false;
    while k < n && !found
        invariant
            n == type_string@.len(),
            k <= n,
            forall|j: int| 0 <= j < k ==> !is_open_bracket(#[trigger] type_string@[j]),
            found ==> k < n && is_open_bracket(type_string@[k as int]),
        decreases n - k + if found { 0int } else { 1int },
    {
        let c = type_string.get_char(k);
        if c == '[' || c == '(' {
            found = true;
        } else {
            k += 1;
        }
    }
    proof {
        lemma_annotation_start(type_string@, k as int);
    }
    if k == n {
        return Some(DeclaredType { name: type_string.to_owned(), length: None });
    }
    if k + 1 == n {
        return None;
    }
    let last = type_string.get_char(n - 1);
    let ghost inner = type_string@.subrange(k + 1, n as int);
    assert(inner.last() == last);
    if last != ']' && last != ')' {
        return None;
    }
    assert(inner.drop_last() =~= type_string@.subrange(k + 1, n - 1));
    match parse_i32_in(type_string, k + 1, n - 1) {
        Some(length) => {
            let name = type_string.substring_char(0, k).to_owned();
            assert(type_string@.take(k as int) =~= type_string@.subrange(0, k as int));
            Some(DeclaredType { name, length: Some(length) })
        },
        None => None,
    }
}

/// What the source declares of one column.
#[derive(Debug, Clone)]
pub struct ColumnInfo {
    /// The column's name.
    pub name: String,
    /// The base name of its declared type, in upper case.
    pub declared_name: String,
    /// The length annotation of its declared type.
    pub declared_len: Option<i32>,
    /// Whether the column is declared NOT NULL.
    pub not_null: bool,
}

/// Builds the description of a column from its entry in the source's table
/// metadata. `None` where the declared type carries a malformed annotation.
pub fn column_info(name: String, type_string: &str, not_null: bool) -> (r: Option<ColumnInfo>)
    ensures
        match parse_declared(type_string@) {
            Some((base, length)) => {
                &&& r is Some
                &&& r->0.name@ == name@
                &&& r->0.declared_name@ == uppercase_of(base)
                &&& r->0.declared_len == length
                &&& r->0.not_null == not_null
            },
            None => r is None,
        },
{
    match declared_type(type_string) {
        Some(declared) => Some(
            ColumnInfo {
                name,
                declared_name: to_uppercase(declared.name.as_str()),
                declared_len: declared.length,
                not_null,
            },
        ),
        None => None,
    }
}

/// The kinds of declared type that inference tells apart.
#[derive(Debug, PartialEq, Eq, Clone, Copy, Structural)]
pub enum TypeFamily {
    Boolean,
    Date,
    Time,
    Timestamp,
    Uuid,
    Interval,
    Integer,
    Text,
    Binary,
    Json,
    Bson,
    Float,
    Double,
    Unknown,
}

/// The family of an upper-case type name. `INTERVAL` is an interval although
/// it begins with `INT`; every other name that begins with `INT` is an
/// integer.
pub open spec fn spec_family(name: Seq<char>) -> TypeFamily {
    if name == "BOOL"@ || name == "BOOLEAN"@ {
        TypeFamily::Boolean
    } else if name == "DATE"@ {
        TypeFamily::Date
    } else if name == "TIME"@ {
        TypeFamily::Time
    } else if name == "DATETIME"@ || name == "TIMESTAMP"@ {
        TypeFamily::Timestamp
    } else if name == "UUID"@ {
        TypeFamily::Uuid
    } else if name == "INTERVAL"@ {
        TypeFamily::Interval
    } else if name == "BIGINT"@ || name == "SMALLINT"@ || name == "NUM"@ || name == "NUMBER"@
        || starts_with(name, "INT"@) {
        TypeFamily::Integer
    } else if name == "TEXT"@ || name == "CHAR"@ || name == "VARCHAR"@ || name == "NVARCHAR"@ {
        TypeFamily::Text
    } else if name == "BLOB"@ || name == "BINARY"@ || name == "VARBINARY"@ {
        TypeFamily::Binary
    } else if name == "JSON"@ {
        TypeFamily::Json
    } else if name == "BSON"@ {
        TypeFamily::Bson
    } else if name == "FLOAT"@ {
        TypeFamily::Float
    } else if name == "REAL"@ || name == "DOUBLE"@ {
        TypeFamily::Double
    } else {
        TypeFamily::Unknown
    }
}

/// The family of an upper-case type name.
pub fn family(name: &str) -> (r: TypeFamily)
    ensures
        r == spec_family(name@),
{
    if str_eq(name, "BOOL") || str_eq(name, "BOOLEAN") {
        TypeFamily::Boolean
    } else if str_eq(name, "DATE") {
        TypeFamily::Date
    } else if str_eq(name, "TIME") {
        TypeFamily::Time
    } else if str_eq(name, "DATETIME") || str_eq(name, "TIMESTAMP") {
        TypeFamily::Timestamp
    } else if str_eq(name, "UUID") {
        TypeFamily::Uuid
    } else if str_eq(name, "INTERVAL") {
        TypeFamily::Interval
    } else if str_eq(name, "BIGINT") || str_eq(name, "SMALLINT") || str_eq(name, "NUM") || str_eq(
        name,
        "NUMBER",
    ) || str_starts_with(name, "INT") {
        TypeFamily::Integer
    } else if str_eq(name, "TEXT") || str_eq(name, "CHAR") || str_eq(name, "VARCHAR") || str_eq(
        name,
        "NVARCHAR",
    ) {
        TypeFamily::Text
    } else if str_eq(name, "BLOB") || str_eq(name, "BINARY") || str_eq(name, "VARBINARY") {
        TypeFamily::Binary
    } else if str_eq(name, "JSON") {
        TypeFamily::Json
    } else if str_eq(name, "BSON") {
        TypeFamily::Bson
    } else if str_eq(name, "FLOAT") {
        TypeFamily::Float
    } else if str_eq(name, "REAL") || str_eq(name, "DOUBLE") {
        TypeFamily::Double
    } else {
        TypeFamily::Unknown
    }
}

/// Statistics gathered from a column's data.
#[derive(Debug, PartialEq, Eq, Clone, Copy, Structural)]
pub struct ColumnStats {
    /// Number of NULL cells over the whole table. Not consulted for a column
    /// that is declared NOT NULL.
    pub null_count: u64,
    /// Smallest value of the column, where it has one. Consulted for integer
    /// columns only.
    pub min: Option<i64>,
    /// Largest value of the column, where it has one. Consulted for integer
    /// columns only.
    pub max: Option<i64>,
    /// Number of distinct values among the sampled rows.
    pub sample_distinct: u64,
    /// Number of sampled rows.
    pub sample_rows: u64,
}

/// A column is required where it is declared so, or where its data holds no
/// NULL.
pub open spec fn spec_required(not_null: bool, null_count: u64) -> bool {
    not_null || null_count == 0
}

/// Whether the column is required.
pub fn required_for(not_null: bool, null_count: u64) -> (r: bool)
    ensures
        r == spec_required(not_null, null_count),
        r && !not_null ==> null_count == 0,
        !r ==> null_count >= 1,
{
    not_null || null_count == 0
}

/// The narrowest integer type that holds every value between `min` and
/// `max`; an absent bound counts as zero.
pub open spec fn spec_integer_width(min: Option<i64>, max: Option<i64>) -> PhysicalType {
    let lo: i64 = if min is Some { min->0 } else { 0 };
    let hi: i64 = if max is Some { max->0 } else { 0 };
    if hi <= i32::MAX && lo >= i32::MIN {
        PhysicalType::Int32
    } else {
        PhysicalType::Int64
    }
}

/// The narrowest integer type that holds every value between `min` and `max`.
pub fn integer_width(min: Option<i64>, max: Option<i64>) -> (r: PhysicalType)
    ensures
        r == spec_integer_width(min, max),
{
    let lo: i64 = match min {
        Some(v) => v,
        None => 0,
    };
    let hi: i64 = match max {
        Some(v) => v,
        None => 0,
    };
    if hi <= 2147483647 && lo >= -2147483648 {
        PhysicalType::Int32
    } else {
        PhysicalType::Int64
    }
}

/// The physical type for a column of the given family, length annotation and
/// value bounds.
pub open spec fn spec_physical_type(
    family: TypeFamily,
    declared_len: Option<i32>,
    min: Option<i64>,
    max: Option<i64>,
) -> PhysicalType {
    match family {
        TypeFamily::Boolean => PhysicalType::Boolean,
        TypeFamily::Date => PhysicalType::Int32,
        TypeFamily::Time => PhysicalType::Int64,
        TypeFamily::Timestamp => PhysicalType::Int64,
        TypeFamily::Uuid => PhysicalType::FixedLenByteArray(16),
        TypeFamily::Interval => PhysicalType::FixedLenByteArray(12),
        TypeFamily::Integer => spec_integer_width(min, max),
        TypeFamily::Text => PhysicalType::ByteArray,
        TypeFamily::Binary => match declared_len {
            Some(len) => PhysicalType::FixedLenByteArray(len),
            None => PhysicalType::ByteArray,
        },
        TypeFamily::Json => PhysicalType::ByteArray,
        TypeFamily::Bson => PhysicalType::ByteArray,
        TypeFamily::Float => PhysicalType::Float,
        TypeFamily::Double => PhysicalType::Double,
        TypeFamily::Unknown => PhysicalType::ByteArray,
    }
}

/// The physical type for a column of the given family, length annotation and
/// value bounds.
pub fn physical_type_for(
    family: TypeFamily,
    declared_len: Option<i32>,
    min: Option<i64>,
    max: Option<i64>,
) -> (r: PhysicalType)
    ensures
        r == spec_physical_type(family, declared_len, min, max),
{
    match family {
        TypeFamily::Boolean => PhysicalType::Boolean,
        TypeFamily::Date => PhysicalType::Int32,
        TypeFamily::Time => PhysicalType::Int64,
        TypeFamily::Timestamp => PhysicalType::Int64,
        TypeFamily::Uuid => PhysicalType::FixedLenByteArray(16),
        TypeFamily::Interval => PhysicalType::FixedLenByteArray(12),
        TypeFamily::Integer => integer_width(min, max),
        TypeFamily::Text => PhysicalType::ByteArray,
        TypeFamily::Binary => match declared_len {
            Some(len) => PhysicalType::FixedLenByteArray(len),
            None => PhysicalType::ByteArray,
        },
        TypeFamily::Json => PhysicalType::ByteArray,
        TypeFamily::Bson => PhysicalType::ByteArray,
        TypeFamily::Float => PhysicalType::Float,
        TypeFamily::Double => PhysicalType::Double,
        TypeFamily::Unknown => PhysicalType::ByteArray,
    }
}

/// The logical type that a family of declared types carries.
pub open spec fn spec_logical_type(family: TypeFamily) -> Option<LogicalType> {
    match family {
        TypeFamily::Text => Some(LogicalType::String),
        TypeFamily::Date => Some(LogicalType::Date),
        TypeFamily::Time => Some(LogicalType::Time(TimeType { utc: false, unit: TimeUnit::Nanos })),
        TypeFamily::Timestamp => Some(
            LogicalType::Timestamp(TimeType { utc: true, unit: TimeUnit::Nanos }),
        ),
        TypeFamily::Uuid => Some(LogicalType::Uuid),
        TypeFamily::Json => Some(LogicalType::Json),
        TypeFamily::Bson => Some(LogicalType::Bson),
        _ => None,
    }
}

/// The logical type that a family of declared types carries.
pub fn logical_type_for(family: TypeFamily) -> (r: Option<LogicalType>)
    ensures
        r == spec_logical_type(family),
{
    match family {
        TypeFamily::Text => Some(LogicalType::String),
        TypeFamily::Date => Some(LogicalType::Date),
        TypeFamily::Time => Some(LogicalType::Time(TimeType { utc: false, unit: TimeUnit::Nanos })),
        TypeFamily::Timestamp => Some(
            LogicalType::Timestamp(TimeType { utc: true, unit: TimeUnit::Nanos }),
        ),
        TypeFamily::Uuid => Some(LogicalType::Uuid),
        TypeFamily::Json => Some(LogicalType::Json),
        TypeFamily::Bson => Some(LogicalType::Bson),
        _ => None,
    }
}

/// A dictionary page is requested for a non-boolean column whose sample is
/// not empty and holds fewer than three distinct values for every four rows.
pub open spec fn spec_dictionary(
    physical_type: PhysicalType,
    sample_distinct: u64,
    sample_rows: u64,
) -> bool {
    &&& !(physical_type is Boolean)
    &&& sample_rows > 0
    &&& 4 * sample_distinct < 3 * sample_rows
}

/// Whether a dictionary page is requested for the column.
pub fn dictionary_for(physical_type: PhysicalType, sample_distinct: u64, sample_rows: u64) -> (r:
    bool)
    ensures
        r == spec_dictionary(physical_type, sample_distinct, sample_rows),
{
    match physical_type {
        PhysicalType::Boolean => false,
        _ => {
            let distinct: u128 = sample_distinct as u128;
            let rows: u128 = sample_rows as u128;
            sample_rows > 0 && 4 * distinct < 3 * rows
        },
    }
}

/// A finding of inference that does not stop it.
#[derive(Debug, PartialEq, Eq, Clone, Copy, Structural)]
pub enum Warning {
    /// The declared type is not known; the column is stored as a byte array.
    UnknownType,
    /// The declared type carries a length, the physical type has none; the
    /// annotation is dropped.
    IgnoredLength { length: i32 },
    /// The declared length and the length of the physical type differ; the
    /// physical type's length stands.
    OverriddenLength { declared: i32, inferred: i32 },
}

/// The warning that reconciling a length annotation with the physical type
/// gives rise to.
pub open spec fn spec_length_warning(
    declared_len: Option<i32>,
    physical_type: PhysicalType,
) -> Option<Warning> {
    match (declared_len, physical_type.spec_len()) {
        (Some(length), None) => Some(Warning::IgnoredLength { length }),
        (Some(declared), Some(inferred)) => if declared != inferred {
            Some(Warning::OverriddenLength { declared, inferred })
        } else {
            None
        },
        _ => None,
    }
}

/// The warning that reconciling a length annotation with the physical type
/// gives rise to.
pub fn length_warning(declared_len: Option<i32>, physical_type: PhysicalType) -> (r: Option<
    Warning,
>)
    ensures
        r == spec_length_warning(declared_len, physical_type),
{
    match (declared_len, physical_type.len()) {
        (Some(length), None) => Some(Warning::IgnoredLength { length }),
        (Some(declared), Some(inferred)) => if declared != inferred {
            Some(Warning::OverriddenLength { declared, inferred })
        } else {
            None
        },
        _ => None,
    }
}

/// The warnings of one column, in the order in which they arise: first the
/// unknown type, then the length annotation.
pub open spec fn spec_warnings(
    family: TypeFamily,
    declared_len: Option<i32>,
    physical_type: PhysicalType,
) -> Seq<Warning> {
    let unknown = if family is Unknown {
        seq![Warning::UnknownType]
    } else {
        Seq::<Warning>::empty()
    };
    match spec_length_warning(declared_len, physical_type) {
        Some(w) => unknown.push(w),
        None => unknown,
    }
}

/// The text of a warning about a column whose declared type is
/// `declared_name`.
pub open spec fn spec_warning_message(declared_name: Seq<char>, warning: Warning) -> Seq<char> {
    match warning {
        Warning::UnknownType => "Unknown type: "@ + declared_name,
        Warning::IgnoredLength { length } => "Ignoring length annotation: "@ + declared_name
            + "["@ + ascii_chars(int_digits(length as int)) + "]"@,
        Warning::OverriddenLength { declared, inferred } => "Overriding length annotation: "@
            + declared_name + "["@ + ascii_chars(int_digits(declared as int)) + "] -> "@
            + declared_name + "["@ + ascii_chars(int_digits(inferred as int)) + "]"@,
    }
}

/// The text of a warning about a column whose declared type is
/// `declared_name`.
pub fn warning_message(declared_name: &str, warning: Warning) -> (r: String)
    ensures
        r@ == spec_warning_message(declared_name@, warning),
{
    match warning {
        Warning::UnknownType => {
            let mut out = String::from_str("Unknown type: ");
            out.append(declared_name);
            out
        },
        Warning::IgnoredLength { length } => {
            let mut out = String::from_str("Ignoring length annotation: ");
            out.append(declared_name);
            out.append("[");
            push_decimal(&mut out, length as i64);
            out.append("]");
            out
        },
        Warning::OverriddenLength { declared, inferred } => {
            let mut out = String::from_str("Overriding length annotation: ");
            out.append(declared_name);
            out.append("[");
            push_decimal(&mut out, declared as i64);
            out.append("] -> ");
            out.append(declared_name);
            out.append("[");
            push_decimal(&mut out, inferred as i64);
            out.append("]");
            out
        },
    }
}

/// The statement that yields the values of column `name` of `table`, one row
/// each, in the table's stable row order.
pub open spec fn spec_column_query(name: Seq<char>, table: Seq<char>) -> Seq<char> {
    "SELECT "@ + name + " FROM "@ + table + " ORDER BY rowid"@
}

/// The statement that yields the values of column `name` of `table` in the
/// table's stable row order, so that the cursors of two columns stand on the
/// same row at the same position.
pub fn column_query(name: &str, table: &str) -> (r: String)
    ensures
        r@ == spec_column_query(name@, table@),
{
    let mut out = String::from_str("SELECT ");
    out.append(name);
    out.append(" FROM ");
    out.append(table);
    out.append(" ORDER BY rowid");
    out
}

/// The statement that lists the columns of `table` as the source declares
/// them.
pub fn table_info_query(table: &str) -> (r: String)
    ensures
        r@ == "SELECT * FROM pragma_table_info('"@ + table@ + "')"@,
{
    let mut out = String::from_str("SELECT * FROM pragma_table_info('");
    out.append(table);
    out.append("')");
    out
}

/// The statement that counts the NULL cells of column `name` of `table`.
pub fn null_count_query(name: &str, table: &str) -> (r: String)
    ensures
        r@ == "SELECT COUNT(*) FROM "@ + table@ + " WHERE "@ + name@ + " IS NULL"@,
{
    let mut out = String::from_str("SELECT COUNT(*) FROM ");
    out.append(table);
    out.append(" WHERE ");
    out.append(name);
    out.append(" IS NULL");
    out
}

/// The statement that yields the smallest and the largest value of column
/// `name` of `table`.
pub fn bounds_query(name: &str, table: &str) -> (r: String)
    ensures
        r@ == "SELECT MIN("@ + name@ + "), MAX("@ + name@ + ") FROM "@ + table@,
{
    let mut out = String::from_str("SELECT MIN(");
    out.append(name);
    out.append("), MAX(");
    out.append(name);
    out.append(") FROM ");
    out.append(table);
    out
}

/// The statement that draws up to a thousand rows of `table` at random and
/// yields how many distinct values of column `name` they hold, and how many
/// rows were drawn.
pub fn sample_query(name: &str, table: &str) -> (r: String)
    ensures
        r@ == "SELECT COUNT(DISTINCT "@ + name@ + "), COUNT(*) FROM (SELECT "@ + name@ + " FROM "@
            + table@ + " ORDER BY RANDOM() LIMIT 1000)"@,
{
    let mut out = String::from_str("SELECT COUNT(DISTINCT ");
    out.append(name);
    out.append("), COUNT(*) FROM (SELECT ");
    out.append(name);
    out.append(" FROM ");
    out.append(table);
    out.append(" ORDER BY RANDOM() LIMIT 1000)");
    out
}

/// Which statistics inference consults for a column.
#[derive(Debug, PartialEq, Eq, Clone, Copy, Structural)]
pub struct Probes {
    /// The count of NULL cells.
    pub null_count: bool,
    /// The smallest and the largest value.
    pub bounds: bool,
    /// The sample of distinct values.
    pub sample: bool,
}

/// Which statistics inference consults for a column: the NULL count unless
/// the column is declared NOT NULL, the bounds for integers, the sample for
/// all but booleans.
pub open spec fn spec_probes(declared_name: Seq<char>, not_null: bool) -> Probes {
    Probes {
        null_count: !not_null,
        bounds: spec_family(declared_name) is Integer,
        sample: !(spec_family(declared_name) is Boolean),
    }
}

/// Which statistics inference consults for the column.
pub fn probes_for(info: &ColumnInfo) -> (r: Probes)
    ensures
        r == spec_probes(info.declared_name@, info.not_null),
{
    let fam = family(info.declared_name.as_str());
    Probes {
        null_count: !info.not_null,
        bounds: matches!(fam, TypeFamily::Integer),
        sample: !matches!(fam, TypeFamily::Boolean),
    }
}

/// The plan for a column of `table`, from what the source declares of it and
/// from its statistics. No explicit encoding is chosen.
pub open spec fn spec_column(
    table: Seq<char>,
    name: Seq<char>,
    declared_name: Seq<char>,
    declared_len: Option<i32>,
    not_null: bool,
    stats: ColumnStats,
) -> ColumnView {
    let family = spec_family(declared_name);
    let physical_type = spec_physical_type(family, declared_len, stats.min, stats.max);
    ColumnView {
        name,
        required: spec_required(not_null, stats.null_count),
        physical_type,
        logical_type: spec_logical_type(family),
        encoding: None,
        dictionary: spec_dictionary(physical_type, stats.sample_distinct, stats.sample_rows),
        query: spec_column_query(name, table),
    }
}

/// A column plan together with the warnings that inferring it gave rise to.
#[derive(Debug, Clone)]
pub struct InferredColumn {
    pub column: Column,
    pub warnings: Vec<Warning>,
}

/// Infers the plan for one column of `table`.
pub fn infer_column(table: &str, info: &ColumnInfo, stats: ColumnStats) -> (r: InferredColumn)
    ensures
        r.column@ == spec_column(
            table@,
            info.name@,
            info.declared_name@,
            info.declared_len,
            info.not_null,
            stats,
        ),
        r.warnings@ == spec_warnings(
            spec_family(info.declared_name@),
            info.declared_len,
            r.column.physical_type,
        ),
{
    let fam = family(info.declared_name.as_str());
    let required = required_for(info.not_null, stats.null_count);
    let physical_type = physical_type_for(fam, info.declared_len, stats.min, stats.max);
    let mut warnings: Vec<Warning> = Vec::new();
    if matches!(fam, TypeFamily::Unknown) {
        warnings.push(Warning::UnknownType);
    }
    match length_warning(info.declared_len, physical_type) {
        Some(w) => {
            warnings.push(w);
        },
        None => {},
    }
    let logical_type = logical_type_for(fam);
    let dictionary = dictionary_for(physical_type, stats.sample_distinct, stats.sample_rows);
    let query = column_query(info.name.as_str(), table);
    let column = Column {
        name: info.name.clone(),
        required,
        physical_type,
        logical_type,
        encoding: None,
        dictionary,
        query,
    };
    assert(warnings@ =~= spec_warnings(fam, info.declared_len, physical_type));
    InferredColumn { column, warnings }
}

/// A source column with the statistics gathered for it.
#[derive(Debug, Clone)]
pub struct SourceColumn {
    pub info: ColumnInfo,
    pub stats: ColumnStats,
}

/// Infers a plan for every column of `table`, in the source's column order.
pub fn infer_schema(table: &str, columns: &Vec<SourceColumn>) -> (r: Vec<InferredColumn>)
    ensures
        r.len() == columns.len(),
        forall|i: int|
            0 <= i < columns.len() ==> {
                &&& (#[trigger] r[i]).column@ == spec_column(
                    table@,
                    columns[i].info.name@,
                    columns[i].info.declared_name@,
                    columns[i].info.declared_len,
                    columns[i].info.not_null,
                    columns[i].stats,
                )
                &&& r[i].warnings@ == spec_warnings(
                    spec_family(columns[i].info.declared_name@),
                    columns[i].info.declared_len,
                    r[i].column.physical_type,
                )
            },
{
    let mut out: Vec<InferredColumn> = Vec::new();
    let mut i: usize = 0;
    while i < columns.len()
        invariant
            i <= columns.len(),
            out.len() == i,
            forall|j: int|
                0 <= j < i ==> {
                    &&& (#[trigger] out[j]).column@ == spec_column(
                        table@,
                        columns[j].info.name@,
                        columns[j].info.declared_name@,
                        columns[j].info.declared_len,
                        columns[j].info.not_null,
                        columns[j].stats,
                    )
                    &&& out[j].warnings@ == spec_warnings(
                        spec_family(columns[j].info.declared_name@),
                        columns[j].info.declared_len,
                        out[j].column.physical_type,
                    )
                },
        decreases columns.len() - i,
    {
        let inferred = infer_column(table, &columns[i].info, columns[i].stats);
        out.push(inferred);
        i += 1;
    }
    out
}

/// A column that is inferred to be required without being declared NOT NULL
/// holds no NULL in its data.
pub proof fn lemma_required_column_holds_no_null(
    table: Seq<char>,
    name: Seq<char>,
    declared_name: Seq<char>,
    declared_len: Option<i32>,
    not_null: bool,
    stats: ColumnStats,
)
    requires
        spec_column(table, name, declared_name, declared_len, not_null, stats).required,
        !not_null,
    ensures
        stats.null_count == 0,
{
}

/// A column that is inferred to be optional is not declared NOT NULL, and
/// its data holds at least one NULL.
pub proof fn lemma_optional_column_holds_null(
    table: Seq<char>,
    name: Seq<char>,
    declared_name: Seq<char>,
    declared_len: Option<i32>,
    not_null: bool,
    stats: ColumnStats,
)
    requires
        !spec_column(table, name, declared_name, declared_len, not_null, stats).required,
    ensures
        !not_null,
        stats.null_count >= 1,
{
}

/// The dictionary decision depends on the sample through its uniqueness
/// ratio alone: two samples with the same ratio of distinct values to rows
/// are decided alike.
pub proof fn lemma_dictionary_follows_ratio(
    physical_type: PhysicalType,
    distinct_a: u64,
    rows_a: u64,
    distinct_b: u64,
    rows_b: u64,
)
    requires
        rows_a > 0,
        rows_b > 0,
        distinct_a * rows_b == distinct_b * rows_a,
    ensures
        spec_dictionary(physical_type, distinct_a, rows_a) == spec_dictionary(
            physical_type,
            distinct_b,
            rows_b,
        ),
{
    let da = distinct_a as int;
    let ra = rows_a as int;
    let db = distinct_b as int;
    let rb = rows_b as int;
    assert((4 * da < 3 * ra) == (4 * db < 3 * rb)) by (nonlinear_arith)
        requires
            ra > 0,
            rb > 0,
            da >= 0,
            db >= 0,
            da * rb == db * ra,
    ;
}

/// A uniqueness ratio of exactly three quarters, or more, disables the
/// dictionary; a smaller one enables it for every column but a boolean one.
pub proof fn lemma_dictionary_threshold(
    physical_type: PhysicalType,
    sample_distinct: u64,
    sample_rows: u64,
)
    requires
        sample_rows > 0,
    ensures
        4 * sample_distinct >= 3 * sample_rows ==> !spec_dictionary(
            physical_type,
            sample_distinct,
            sample_rows,
        ),
        4 * sample_distinct < 3 * sample_rows && !(physical_type is Boolean) ==> spec_dictionary(
            physical_type,
            sample_distinct,
            sample_rows,
        ),
{
}

/// An integer column is stored in 32 bits exactly where its smallest and its
/// largest value both fit, and in 64 bits otherwise.
pub proof fn lemma_integer_width_fits(min: i64, max: i64)
    ensures
        spec_integer_width(Some(min), Some(max)) is Int32 <==> i32::MIN <= min && max <= i32::MAX,
        spec_integer_width(Some(min), Some(max)) is Int32 || spec_integer_width(
            Some(min),
            Some(max),
        ) is Int64,
{
}

/// Further rows never narrow an integer column: where its values need 64
/// bits, so do the values of any column whose bounds lie no closer together.
pub proof fn lemma_wider_bounds_never_narrow(min: i64, max: i64, wider_min: i64, wider_max: i64)
    requires
        wider_min <= min,
        max <= wider_max,
        spec_integer_width(Some(min), Some(max)) is Int64,
    ensures
        spec_integer_width(Some(wider_min), Some(wider_max)) is Int64,
{
}

/// A declared type that is not known does not stop inference: the column is
/// a byte array without a logical type, and the first warning says so.
pub proof fn lemma_unknown_type_is_byte_array(
    table: Seq<char>,
    name: Seq<char>,
    declared_name: Seq<char>,
    declared_len: Option<i32>,
    not_null: bool,
    stats: ColumnStats,
)
    requires
        spec_family(declared_name) is Unknown,
    ensures
        spec_column(table, name, declared_name, declared_len, not_null, stats).physical_type
            == PhysicalType::ByteArray,
        spec_column(table, name, declared_name, declared_len, not_null, stats).logical_type is None,
        spec_warnings(spec_family(declared_name), declared_len, PhysicalType::ByteArray).len() >= 1,
        spec_warnings(spec_family(declared_name), declared_len, PhysicalType::ByteArray)[0]
            == Warning::UnknownType,
{
}

/// A length annotation never overrides a length that the physical type has
/// by convention: where the two differ, the physical type's length stands
/// and a warning names both.
pub proof fn lemma_inferred_length_stands(
    family: TypeFamily,
    declared_len: Option<i32>,
    min: Option<i64>,
    max: Option<i64>,
)
    requires
        family is Uuid || family is Interval,
    ensures
        spec_physical_type(family, declared_len, min, max).spec_len() == Some(
            if family is Uuid {
                16i32
            } else {
                12i32
            },
        ),
        declared_len is Some && declared_len != spec_physical_type(
            family,
            declared_len,
            min,
            max,
        ).spec_len() ==> spec_length_warning(
            declared_len,
            spec_physical_type(family, declared_len, min, max),
        ) is Some,
{
}

/// Every inferred plan is sound, but for a binary column whose length
/// annotation is not positive.
pub proof fn lemma_inferred_column_is_well_formed(
    table: Seq<char>,
    name: Seq<char>,
    declared_name: Seq<char>,
    declared_len: Option<i32>,
    not_null: bool,
    stats: ColumnStats,
)
    ensures
        spec_column(table, name, declared_name, declared_len, not_null, stats).well_formed() <==> !(
        spec_family(declared_name) is Binary && declared_len is Some && declared_len->0 <= 0),
{
}

/// Statistics that inference does not consult for a column do not change its
/// plan.
pub proof fn lemma_unprobed_statistics_are_ignored(
    table: Seq<char>,
    name: Seq<char>,
    declared_name: Seq<char>,
    declared_len: Option<i32>,
    not_null: bool,
    a: ColumnStats,
    b: ColumnStats,
)
    requires
        spec_probes(declared_name, not_null).null_count ==> a.null_count == b.null_count,
        spec_probes(declared_name, not_null).bounds ==> a.min == b.min && a.max == b.max,
        spec_probes(declared_name, not_null).sample ==> a.sample_distinct == b.sample_distinct
            && a.sample_rows == b.sample_rows,
    ensures
        spec_column(table, name, declared_name, declared_len, not_null, a) == spec_column(
            table,
            name,
            declared_name,
            declared_len,
            not_null,
            b,
        ),
{
}

} // verus!
