//! The columnar sink's native descriptors: column plans as the schema and
//! the writer properties that the sink is opened with.

use crate::schema::{Column, ColumnView, Encoding, LogicalType, PhysicalType, TimeUnit};
use parquet::basic::Compression;
use parquet::basic::Encoding as SinkEncoding;
use parquet::basic::LogicalType as SinkLogicalType;
use parquet::basic::Repetition;
use parquet::basic::TimeUnit as SinkTimeUnit;
use parquet::basic::Type as SinkPhysicalType;
use parquet::errors::ParquetError;
use parquet::file::properties::WriterProperties;
use parquet::file::properties::WriterPropertiesBuilder;
use parquet::schema::types::ColumnPath;
use parquet::schema::types::PrimitiveTypeBuilder as ColumnBuilder;
use parquet::schema::types::Type as SinkType;
use vstd::prelude::*;
use vstd::string::*;

verus! {

/// A node of the sink's schema.
#[verifier::external_type_specification]
#[verifier::external_body]
pub struct ExSinkType(parquet::schema::types::Type);

/// The sink's physical type.
#[verifier::external_type_specification]
#[verifier::external_body]
pub struct ExSinkPhysicalType(parquet::basic::Type);

/// The sink's builder of a column descriptor.
#[verifier::external_type_specification]
#[verifier::external_body]
pub struct ExColumnBuilder<'a>(parquet::schema::types::PrimitiveTypeBuilder<'a>);

/// The sink's error.
#[verifier::external_type_specification]
#[verifier::external_body]
pub struct ExParquetError(parquet::errors::ParquetError);

/// Whether the sink takes a column of the given physical type, length and
/// logical type: the length of a byte array of fixed length is not negative,
/// and the physical type can carry the logical type.
pub open spec fn sink_accepts(
    physical: PhysicalType,
    length: i32,
    logical: Option<LogicalType>,
) -> bool {
    &&& !(physical is FixedLenByteArray && length < 0)
    &&& logical is Some ==> logical->0.spec_annotates(physical)
}

/// What the sink's descriptor of one column says.
pub struct ColumnDescriptor {
    pub name: Seq<char>,
    /// Whether the column is required, or else optional.
    pub required: bool,
    pub physical_type: PhysicalType,
    /// The length in bytes; read for byte arrays of fixed length only.
    pub length: i32,
    pub logical_type: Option<LogicalType>,
}

/// The columns that a node of the sink's schema describes, in order: the
/// column itself for the descriptor of a column, the columns of all its
/// fields for a group.
pub uninterp spec fn leaf_columns(node: SinkType) -> Seq<ColumnDescriptor>;

/// The name that a node of the sink's schema carries.
pub uninterp spec fn node_name(node: SinkType) -> Seq<char>;

/// The columns that the given nodes describe, in order.
pub open spec fn leaves_of(nodes: Seq<SinkType>) -> Seq<ColumnDescriptor>
    decreases nodes.len(),
{
    if nodes.len() == 0 {
        Seq::empty()
    } else {
        leaves_of(nodes.drop_last()) + leaf_columns(nodes.last())
    }
}

impl PhysicalType {
    /// The sink's physical type of the same name.
    #[verifier::external_body]
    fn as_parquet(&self) -> SinkPhysicalType {
        match self {
            PhysicalType::Boolean => SinkPhysicalType::BOOLEAN,
            PhysicalType::Int32 => SinkPhysicalType::INT32,
            PhysicalType::Int64 => SinkPhysicalType::INT64,
            PhysicalType::Float => SinkPhysicalType::FLOAT,
            PhysicalType::Double => SinkPhysicalType::DOUBLE,
            PhysicalType::ByteArray => SinkPhysicalType::BYTE_ARRAY,
            PhysicalType::FixedLenByteArray(_) => SinkPhysicalType::FIXED_LEN_BYTE_ARRAY,
        }
    }
}

/// `PrimitiveTypeBuilder::with_logical_type`, with the sink's time of day
/// of the same attributes.
#[verifier::external_body]
fn with_time<'a>(builder: ColumnBuilder<'a>, utc: bool, unit: TimeUnit) -> ColumnBuilder<'a> {
    let unit = match unit {
        TimeUnit::Millis => SinkTimeUnit::MILLIS(parquet_format::MilliSeconds::new()),
        TimeUnit::Micros => SinkTimeUnit::MICROS(parquet_format::MicroSeconds::new()),
        TimeUnit::Nanos => SinkTimeUnit::NANOS(parquet_format::NanoSeconds::new()),
    };
    builder.with_logical_type(Some(SinkLogicalType::Time { is_adjusted_to_u_t_c: utc, unit }))
}

/// `PrimitiveTypeBuilder::with_logical_type`, with the sink's timestamp of
/// the same attributes.
#[verifier::external_body]
fn with_timestamp<'a>(builder: ColumnBuilder<'a>, utc: bool, unit: TimeUnit) -> ColumnBuilder<'a> {
    let unit = match unit {
        TimeUnit::Millis => SinkTimeUnit::MILLIS(parquet_format::MilliSeconds::new()),
        TimeUnit::Micros => SinkTimeUnit::MICROS(parquet_format::MicroSeconds::new()),
        TimeUnit::Nanos => SinkTimeUnit::NANOS(parquet_format::NanoSeconds::new()),
    };
    builder.with_logical_type(Some(SinkLogicalType::Timestamp { is_adjusted_to_u_t_c: utc, unit }))
}

impl LogicalType {
    /// `PrimitiveTypeBuilder::with_logical_type`, with the sink's logical
    /// type of the same name and attributes.
    #[verifier::external_body]
    fn as_parquet<'a>(&self, builder: ColumnBuilder<'a>) -> ColumnBuilder<'a> {
        let logical = match *self {
            LogicalType::String => SinkLogicalType::String,
            LogicalType::KeyValueMap => SinkLogicalType::Map,
            LogicalType::List => SinkLogicalType::List,
            LogicalType::Enum => SinkLogicalType::Enum,
            LogicalType::Date => SinkLogicalType::Date,
            LogicalType::Json => SinkLogicalType::Json,
            LogicalType::Bson => SinkLogicalType::Bson,
            LogicalType::Uuid => SinkLogicalType::Uuid,
            LogicalType::Unknown => SinkLogicalType::Unknown,
            LogicalType::Integer { bit_width, is_signed } => SinkLogicalType::Integer { bit_width, is_signed },
            LogicalType::Time(x) => return with_time(builder, x.utc, x.unit),
            LogicalType::Timestamp(x) => return with_timestamp(builder, x.utc, x.unit),
        };
        builder.with_logical_type(Some(logical))
    }
}

/// `parquet::schema::types::Type::primitive_type_builder`, with repetition,
/// length and logical type set, then `build`: the sink's descriptor of one
/// column. It is refused exactly where the length of a byte array of fixed
/// length is negative or the physical type cannot carry the logical type;
/// otherwise the descriptor says what it was built from. The sink keeps the
/// length apart from the physical type, so the two are asked to agree: the
/// length is that of the physical type, or zero where the type has none. The
/// builder does not return for a logical integer of a width that the sink
/// does not know, which the precondition leaves out as well.
#[verifier::external_body]
fn primitive_type(
    name: &str,
    required: bool,
    physical: PhysicalType,
    length: i32,
    logical: Option<LogicalType>,
) -> (r: Result<SinkType, ParquetError>)
    requires
        logical is Some ==> logical->0.spec_width_is_supported(),
        length == match physical.spec_len() {
            Some(n) => n,
            None => 0,
        },
    ensures
        r is Ok <==> sink_accepts(physical, length, logical),
        r is Ok ==> leaf_columns(r->Ok_0) == seq![
            (ColumnDescriptor {
                name: name@,
                required,
                physical_type: physical,
                length,
                logical_type: logical,
            }),
        ],
{
    let repetition = if required { Repetition::REQUIRED } else { Repetition::OPTIONAL };
    let builder = SinkType::primitive_type_builder(name, physical.as_parquet())
        .with_repetition(repetition)
        .with_length(length);
    match logical {
        Some(x) => x.as_parquet(builder),
        None => builder,
    }.build()
}

/// `ParquetError`'s `Display`: the text of the sink's error.
#[verifier::external_body]
fn error_text(error: &ParquetError) -> (r: String) {
    error.to_string()
}

/// Why the sink's schema could not be built.
#[derive(Debug, Clone, PartialEq, Eq)]
pub enum SchemaError {
    /// The column is a byte array of a fixed length that is not positive.
    NonPositiveLength { length: i32 },
    /// The column is a logical integer of a width that the sink does not
    /// know.
    UnsupportedWidth { bit_width: i8 },
    /// The sink refused the column, with this message.
    Refused { message: String },
    /// The column asks for the dictionary-backed encoding as its explicit
    /// encoding, which the sink takes only through the dictionary flag.
    DictionaryAsEncoding,
}

/// The first column that the sink cannot be opened with, and why.
#[derive(Debug, Clone, PartialEq, Eq)]
pub struct SinkError {
    /// The column's place in the list of plans.
    pub column: usize,
    pub error: SchemaError,
}

impl ColumnView {
    /// What the sink's descriptor of the column says.
    pub open spec fn descriptor(self) -> ColumnDescriptor {
        ColumnDescriptor {
            name: self.name,
            required: self.required,
            physical_type: self.physical_type,
            length: self.type_length(),
            logical_type: self.logical_type,
        }
    }

    /// Whether `error` says why the plan is not sound. A fixed length that
    /// is not positive comes first, then a width that the sink does not
    /// know, then what the sink itself refuses: a physical type that cannot
    /// carry the logical type.
    pub open spec fn refusal_is(self, error: SchemaError) -> bool {
        let length_is_positive = self.physical_type is FixedLenByteArray ==> self.type_length() > 0;
        let width_is_supported = self.logical_type is Some
            ==> self.logical_type->0.spec_width_is_supported();
        match error {
            SchemaError::NonPositiveLength { length } => {
                &&& self.physical_type is FixedLenByteArray
                &&& length == self.type_length()
                &&& length <= 0
            },
            SchemaError::UnsupportedWidth { bit_width } => {
                &&& length_is_positive
                &&& self.logical_type is Some
                &&& self.logical_type->0 is Integer
                &&& self.logical_type->0->bit_width == bit_width
                &&& !self.logical_type->0.spec_width_is_supported()
            },
            SchemaError::Refused { message } => {
                &&& length_is_positive
                &&& width_is_supported
                &&& !sink_accepts(self.physical_type, self.type_length(), self.logical_type)
            },
            SchemaError::DictionaryAsEncoding => false,
        }
    }
}

impl Column {
    /// The sink's descriptor of the column: its name, physical type with
    /// length, logical type, and whether it is required or optional. A plan
    /// that is not sound has none.
    pub fn as_parquet(&self) -> (r: Result<SinkType, SchemaError>)
        ensures
            r is Ok <==> self@.well_formed(),
            r is Ok ==> leaf_columns(r->Ok_0) == seq![self@.descriptor()],
            r is Err ==> self@.refusal_is(r->Err_0),
    {
        match self.physical_type {
            PhysicalType::FixedLenByteArray(length) => {
                if length <= 0 {
                    return Err(SchemaError::NonPositiveLength { length });
                }
            },
            _ => {},
        }
        match self.logical_type {
            Some(LogicalType::Integer { bit_width, is_signed }) => {
                if !(LogicalType::Integer { bit_width, is_signed }).width_is_supported() {
                    return Err(SchemaError::UnsupportedWidth { bit_width });
                }
            },
            _ => {},
        }
        let length: i32 = match self.physical_type.len() {
            Some(n) => n,
            None => 0,
        };
        match primitive_type(
            self.name.as_str(),
            self.required,
            self.physical_type,
            length,
            self.logical_type,
        ) {
            Ok(t) => Ok(t),
            Err(e) => Err(SchemaError::Refused { message: error_text(&e) }),
        }
    }
}

/// The column plans as contracts speak of them.
pub open spec fn view_columns(cols: Seq<Column>) -> Seq<ColumnView> {
    Seq::new(cols.len(), |i: int| cols[i]@)
}

/// Whether `column` is the first of `cols` whose plan is not sound.
pub open spec fn is_first_refused(cols: Seq<ColumnView>, column: int) -> bool {
    &&& 0 <= column < cols.len()
    &&& !cols[column].well_formed()
    &&& forall|j: int| 0 <= j < column ==> (#[trigger] cols[j]).well_formed()
}

/// `parquet::schema::types::Type::group_type_builder`, with the fields set,
/// then `build`: the schema node that groups the given nodes, in their
/// order, under `name`. Building a group does not fail.
#[verifier::external_body]
fn group_type(name: &str, fields: Vec<SinkType>) -> (r: Result<SinkType, ParquetError>)
    ensures
        r is Ok,
        node_name(r->Ok_0) == name@,
        leaf_columns(r->Ok_0) == leaves_of(fields@),
{
    let mut fields: Vec<_> = fields.into_iter().map(std::sync::Arc::new).collect();
    SinkType::group_type_builder(name).with_fields(&mut fields).build()
}

/// The schema that the sink is opened with: one descriptor per column plan,
/// in plan order, grouped under the table's name.
pub fn sink_schema(table_name: &str, cols: &Vec<Column>) -> (r: Result<SinkType, SinkError>)
    ensures
        r is Ok <==> forall|i: int| 0 <= i < cols.len() ==> (#[trigger] cols[i])@.well_formed(),
        r is Ok ==> node_name(r->Ok_0) == table_name@,
        r is Ok ==> leaf_columns(r->Ok_0) == Seq::new(
            cols.len() as nat,
            |i: int| cols[i]@.descriptor(),
        ),
        r is Err ==> {
            &&& is_first_refused(view_columns(cols@), r->Err_0.column as int)
            &&& cols[r->Err_0.column as int]@.refusal_is(r->Err_0.error)
        },
{
    let mut fields: Vec<SinkType> = Vec::new();
    let mut i: usize = 0;
    while i < cols.len()
        invariant
            i <= cols.len(),
            fields.len() == i,
            forall|j: int| 0 <= j < i ==> (#[trigger] cols[j])@.well_formed(),
            leaves_of(fields@) == Seq::new(i as nat, |j: int| cols[j]@.descriptor()),
        decreases cols.len() - i,
    {
        match cols[i].as_parquet() {
            Ok(field) => {
                let ghost before = fields@;
                fields.push(field);
                assert(fields@.drop_last() =~= before);
                assert(leaves_of(fields@) =~= Seq::new(
                    (i + 1) as nat,
                    |j: int| cols[j]@.descriptor(),
                ));
            },
            Err(error) => {
                assert(view_columns(cols@)[i as int] == cols[i as int]@);
                assert forall|j: int| 0 <= j < i implies (#[trigger] view_columns(
                    cols@,
                )[j]).well_formed() by {
                    assert(cols[j]@.well_formed());
                }
                return Err(SinkError { column: i, error });
            },
        }
        i += 1;
    }
    match group_type(table_name, fields) {
        Ok(schema) => Ok(schema),
        Err(e) => Err(SinkError { column: 0, error: SchemaError::Refused { message: error_text(&e) } }),
    }
}

/// The sink's writer properties while they are set.
#[verifier::external_type_specification]
#[verifier::external_body]
pub struct ExWriterPropertiesBuilder(parquet::file::properties::WriterPropertiesBuilder);

/// The sink's writer properties.
#[verifier::external_type_specification]
#[verifier::external_body]
pub struct ExWriterProperties(parquet::file::properties::WriterProperties);

/// The explicit encoding that the properties being set hold for each column
/// that was given one, by the column's name.
pub uninterp spec fn pending_encodings(builder: WriterPropertiesBuilder) -> Map<Seq<char>, Encoding>;

/// The dictionary flag that the properties being set hold for each column
/// that was given one, by the column's name.
pub uninterp spec fn pending_dictionaries(builder: WriterPropertiesBuilder) -> Map<Seq<char>, bool>;

/// The explicit encoding that the properties hold for each column that was
/// given one, by the column's name.
pub uninterp spec fn column_encodings(properties: WriterProperties) -> Map<Seq<char>, Encoding>;

/// The dictionary flag that the properties hold for each column that was
/// given one, by the column's name.
pub uninterp spec fn column_dictionaries(properties: WriterProperties) -> Map<Seq<char>, bool>;

/// `WriterProperties::builder`, then `set_compression` with the Zstandard
/// codec: properties that compress every column and hold no setting for any
/// single column yet.
#[verifier::external_body]
fn compressed_properties() -> (r: WriterPropertiesBuilder)
    ensures
        pending_encodings(r) == (Map::<Seq<char>, Encoding>::empty()),
        pending_dictionaries(r) == (Map::<Seq<char>, bool>::empty()),
{
    WriterProperties::builder().set_compression(Compression::ZSTD)
}

/// `WriterPropertiesBuilder::set_column_encoding` for the column of the
/// given name: the column's encoding is set, nothing else changes. The sink
/// does not return for the dictionary-backed encoding, which the
/// precondition leaves out.
#[verifier::external_body]
fn set_column_encoding(builder: WriterPropertiesBuilder, name: &str, encoding: Encoding) -> (r:
    WriterPropertiesBuilder)
    requires
        !(encoding is RleDictionary),
    ensures
        pending_encodings(r) == pending_encodings(builder).insert(name@, encoding),
        pending_dictionaries(r) == pending_dictionaries(builder),
{
    let encoding = match encoding {
        Encoding::Plain => SinkEncoding::PLAIN,
        Encoding::Rle => SinkEncoding::RLE,
        Encoding::BitPacked => SinkEncoding::BIT_PACKED,
        Encoding::DeltaBinaryPacked => SinkEncoding::DELTA_BINARY_PACKED,
        Encoding::DeltaLengthByteArray => SinkEncoding::DELTA_LENGTH_BYTE_ARRAY,
        Encoding::DeltaByteArray => SinkEncoding::DELTA_BYTE_ARRAY,
        Encoding::RleDictionary => SinkEncoding::RLE_DICTIONARY,
        Encoding::ByteStreamSplit => SinkEncoding::BYTE_STREAM_SPLIT,
    };
    builder.set_column_encoding(ColumnPath::new(vec![name.to_string()]), encoding)
}

/// `WriterPropertiesBuilder::set_column_dictionary_enabled` for the column
/// of the given name: the column's dictionary flag is set, nothing else
/// changes.
#[verifier::external_body]
fn set_column_dictionary(builder: WriterPropertiesBuilder, name: &str, enabled: bool) -> (r:
    WriterPropertiesBuilder)
    ensures
        pending_encodings(r) == pending_encodings(builder),
        pending_dictionaries(r) == pending_dictionaries(builder).insert(name@, enabled),
{
    builder.set_column_dictionary_enabled(ColumnPath::new(vec![name.to_string()]), enabled)
}

/// `WriterPropertiesBuilder::build`: the properties as they were set.
#[verifier::external_body]
fn build_properties(builder: WriterPropertiesBuilder) -> (r: WriterProperties)
    ensures
        column_encodings(r) == pending_encodings(builder),
        column_dictionaries(r) == pending_dictionaries(builder),
{
    builder.build()
}

/// The explicit encodings that the plans ask for, by column name. Of two
/// plans with one name, the later stands.
pub open spec fn spec_encodings(cols: Seq<ColumnView>) -> Map<Seq<char>, Encoding>
    decreases cols.len(),
{
    if cols.len() == 0 {
        Map::empty()
    } else {
        let before = spec_encodings(cols.drop_last());
        match cols.last().encoding {
            Some(encoding) => before.insert(cols.last().name, encoding),
            None => before,
        }
    }
}

/// The dictionary flags that the plans ask for, by column name. Of two plans
/// with one name, the later stands.
pub open spec fn spec_dictionaries(cols: Seq<ColumnView>) -> Map<Seq<char>, bool>
    decreases cols.len(),
{
    if cols.len() == 0 {
        Map::empty()
    } else {
        spec_dictionaries(cols.drop_last()).insert(cols.last().name, cols.last().dictionary)
    }
}

/// Whether `column` is the first of `cols` that asks for the
/// dictionary-backed encoding as its explicit encoding.
pub open spec fn is_first_dictionary_encoded(cols: Seq<ColumnView>, column: int) -> bool {
    &&& 0 <= column < cols.len()
    &&& cols[column].encoding == Some(Encoding::RleDictionary)
    &&& forall|j: int| 0 <= j < column ==> (#[trigger] cols[j]).encoding != Some(Encoding::RleDictionary)
}

/// The writer properties that the sink is opened with: every column is
/// compressed, and each column carries its plan's dictionary flag and, where
/// the plan names one, its explicit encoding.
pub fn writer_properties(cols: &Vec<Column>) -> (r: Result<WriterProperties, SinkError>)
    ensures
        r is Ok <==> forall|i: int| 0 <= i < cols.len() ==> (#[trigger] cols[i]).encoding != Some(Encoding::RleDictionary),
        r is Ok ==> {
            &&& column_encodings(r->Ok_0) == spec_encodings(view_columns(cols@))
            &&& column_dictionaries(r->Ok_0) == spec_dictionaries(view_columns(cols@))
        },
        r is Err ==> {
            &&& is_first_dictionary_encoded(view_columns(cols@), r->Err_0.column as int)
            &&& r->Err_0.error is DictionaryAsEncoding
        },
{
    let mut builder = compressed_properties();
    let mut i: usize = 0;
    while i < cols.len()
        invariant
            i <= cols.len(),
            forall|j: int| 0 <= j < i ==> (#[trigger] cols[j]).encoding != Some(Encoding::RleDictionary),
            pending_encodings(builder) == spec_encodings(view_columns(cols@).take(i as int)),
            pending_dictionaries(builder) == spec_dictionaries(view_columns(cols@).take(i as int)),
        decreases cols.len() - i,
    {
        let col = &cols[i];
        proof {
            let next = view_columns(cols@).take(i + 1);
            assert(next.drop_last() =~= view_columns(cols@).take(i as int));
            assert(next.last() == col@);
        }
        match col.encoding {
            Some(Encoding::RleDictionary) => {
                assert forall|j: int| 0 <= j < i implies (#[trigger] view_columns(cols@)[j]).encoding != Some(Encoding::RleDictionary) by {
                    assert(cols[j].encoding != Some(Encoding::RleDictionary));
                }
                return Err(SinkError { column: i, error: SchemaError::DictionaryAsEncoding });
            },
            Some(encoding) => {
                builder = set_column_encoding(builder, col.name.as_str(), encoding);
            },
            None => {},
        }
        builder = set_column_dictionary(builder, col.name.as_str(), col.dictionary);
        i += 1;
    }
    assert(view_columns(cols@).take(cols.len() as int) =~= view_columns(cols@));
    Ok(build_properties(builder))
}

/// Whether no two of the plans share a name.
pub open spec fn names_are_unique(cols: Seq<ColumnView>) -> bool {
    forall|i: int, j: int| 0 <= i < j < cols.len() ==> (#[trigger] cols[i]).name != (#[trigger] cols[j]).name
}

/// Whether no two of the plans share a name.
pub fn has_unique_names(cols: &Vec<Column>) -> (r: bool)
    ensures
        r == names_are_unique(view_columns(cols@)),
{
    let mut j: usize = 0;
    while j < cols.len()
        invariant
            j <= cols.len(),
            forall|a: int, b: int| 0 <= a < b < j ==> cols[a].name@ != cols[b].name@,
        decreases cols.len() - j,
    {
        let mut i: usize = 0;
        while i < j
            invariant
                i <= j,
                j < cols.len(),
                forall|a: int| 0 <= a < i ==> cols[a].name@ != cols[j as int].name@,
            decreases j - i,
        {
            if cols[i].name == cols[j].name {
                assert(view_columns(cols@)[i as int].name == view_columns(cols@)[j as int].name);
                return false;
            }
            i += 1;
        }
        j += 1;
    }
    assert forall|a: int, b: int| 0 <= a < b < cols.len() implies (#[trigger] view_columns(
        cols@,
    )[a]).name != (#[trigger] view_columns(cols@)[b]).name by {
        assert(cols[a].name@ != cols[b].name@);
    }
    true
}

/// The settings hold nothing under a name that no plan has.
pub proof fn lemma_settings_of_other_names(cols: Seq<ColumnView>, name: Seq<char>)
    requires
        forall|i: int| 0 <= i < cols.len() ==> (#[trigger] cols[i]).name != name,
    ensures
        !spec_encodings(cols).contains_key(name),
        !spec_dictionaries(cols).contains_key(name),
    decreases cols.len(),
{
    if cols.len() > 0 {
        let front = cols.drop_last();
        assert forall|i: int| 0 <= i < front.len() implies (#[trigger] front[i]).name != name by {
            assert(front[i] == cols[i]);
        }
        lemma_settings_of_other_names(front, name);
        assert(cols.last() == cols[cols.len() - 1]);
    }
}

/// Where no two plans share a name, the settings hold for every column what
/// its own plan asks for: its dictionary flag, and its explicit encoding or
/// none.
pub proof fn lemma_settings_by_column(cols: Seq<ColumnView>, column: int)
    requires
        names_are_unique(cols),
        0 <= column < cols.len(),
    ensures
        spec_dictionaries(cols).contains_key(cols[column].name),
        spec_dictionaries(cols)[cols[column].name] == cols[column].dictionary,
        match cols[column].encoding {
            Some(encoding) => spec_encodings(cols).contains_key(cols[column].name)
                && spec_encodings(cols)[cols[column].name] == encoding,
            None => !spec_encodings(cols).contains_key(cols[column].name),
        },
    decreases cols.len(),
{
    let front = cols.drop_last();
    let name = cols[column].name;
    if column == cols.len() - 1 {
        assert forall|i: int| 0 <= i < front.len() implies (#[trigger] front[i]).name != name by {
            assert(front[i] == cols[i]);
            assert(cols[i].name != cols[column].name);
        }
        lemma_settings_of_other_names(front, name);
    } else {
        assert(names_are_unique(front)) by {
            assert forall|i: int, j: int| 0 <= i < j < front.len() implies (#[trigger] front[i]).name != (#[trigger] front[j]).name by {
                assert(front[i] == cols[i]);
                assert(front[j] == cols[j]);
            }
        }
        assert(front[column] == cols[column]);
        lemma_settings_by_column(front, column);
        assert(cols[column].name != cols[cols.len() - 1].name);
    }
}

} // verus!
