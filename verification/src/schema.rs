//! Column plans: the physical and logical description of one output column.

use crate::text::{ascii_chars, int_digits, pad_right, push_decimal, push_padded};
use vstd::prelude::*;
use vstd::string::*;

verus! {

/// On-disk representation of a column's values.
#[derive(Debug, PartialEq, Eq, Clone, Copy, Structural)]
pub enum PhysicalType {
    Boolean,
    Int32,
    Int64,
    Float,
    Double,
    ByteArray,
    FixedLenByteArray(i32),
}

/// Explicit encoding hint for a column.
#[derive(Debug, PartialEq, Eq, Clone, Copy, Structural)]
pub enum Encoding {
    Plain,
    Rle,
    BitPacked,
    DeltaBinaryPacked,
    DeltaLengthByteArray,
    DeltaByteArray,
    RleDictionary,
    ByteStreamSplit,
}

/// Resolution of a time or timestamp value.
#[derive(Debug, PartialEq, Eq, Clone, Copy, Structural)]
pub enum TimeUnit {
    Millis,
    Micros,
    Nanos,
}

/// Attributes of a time or timestamp logical type.
#[derive(Debug, PartialEq, Eq, Clone, Copy, Structural)]
pub struct TimeType {
    pub utc: bool,
    pub unit: TimeUnit,
}

/// Semantic annotation layered on a physical type.
#[derive(Debug, PartialEq, Eq, Clone, Copy, Structural)]
pub enum LogicalType {
    String,
    KeyValueMap,
    List,
    Enum,
    Date,
    Time(TimeType),
    Timestamp(TimeType),
    Json,
    Bson,
    Uuid,
    Unknown,
    Integer { bit_width: i8, is_signed: bool },
}

/// One output column: how it is stored and where its values come from.
#[derive(Debug, PartialEq, Clone)]
pub struct Column {
    pub name: String,
    pub required: bool,
    pub physical_type: PhysicalType,
    pub logical_type: Option<LogicalType>,
    pub encoding: Option<Encoding>,
    pub dictionary: bool,
    pub query: String,
}

/// A column plan as the values that contracts speak of.
pub struct ColumnView {
    pub name: Seq<char>,
    pub required: bool,
    pub physical_type: PhysicalType,
    pub logical_type: Option<LogicalType>,
    pub encoding: Option<Encoding>,
    pub dictionary: bool,
    pub query: Seq<char>,
}

impl View for Column {
    type V = ColumnView;

    open spec fn view(&self) -> ColumnView {
        ColumnView {
            name: self.name@,
            required: self.required,
            physical_type: self.physical_type,
            logical_type: self.logical_type,
            encoding: self.encoding,
            dictionary: self.dictionary,
            query: self.query@,
        }
    }
}

impl PhysicalType {
    /// The inherent byte length of the type, where it has one.
    pub open spec fn spec_len(self) -> Option<i32> {
        match self {
            PhysicalType::FixedLenByteArray(length) => Some(length),
            _ => None,
        }
    }

    /// The inherent byte length of the type, where it has one.
    pub fn len(&self) -> (r: Option<i32>)
        ensures
            r == self.spec_len(),
    {
        match self {
            PhysicalType::FixedLenByteArray(length) => Some(*length),
            _ => None,
        }
    }
}

impl LogicalType {
    /// Whether the sink knows a logical integer of this width.
    pub open spec fn spec_width_is_supported(self) -> bool {
        self is Integer ==> {
            let w = self->bit_width;
            w == 8 || w == 16 || w == 32 || w == 64
        }
    }

    /// Whether the sink knows a logical integer of this width. True of every
    /// other logical type.
    pub fn width_is_supported(&self) -> (r: bool)
        ensures
            r == self.spec_width_is_supported(),
    {
        match self {
            LogicalType::Integer { bit_width, is_signed: _ } => *bit_width == 8 || *bit_width == 16
                || *bit_width == 32 || *bit_width == 64,
            _ => true,
        }
    }

    /// Whether values of the physical type `physical` can carry this logical
    /// type: text and documents are byte arrays, dates 32-bit integers, times
    /// in milliseconds 32-bit and finer ones 64-bit integers, timestamps
    /// 64-bit integers, logical integers no wider than their physical type,
    /// identifiers byte arrays of fixed length. Maps and lists annotate no
    /// single column.
    pub open spec fn spec_annotates(self, physical: PhysicalType) -> bool {
        match self {
            LogicalType::KeyValueMap | LogicalType::List => false,
            LogicalType::String | LogicalType::Enum | LogicalType::Json | LogicalType::Bson => physical is ByteArray,
            LogicalType::Date | LogicalType::Unknown => physical is Int32,
            LogicalType::Time(t) => (physical is Int32 && t.unit is Millis) || (physical is Int64
                && !(t.unit is Millis)),
            LogicalType::Timestamp(_) => physical is Int64,
            LogicalType::Integer { bit_width, is_signed } => (physical is Int32 && bit_width <= 32)
                || (physical is Int64 && bit_width == 64),
            LogicalType::Uuid => physical is FixedLenByteArray,
        }
    }

    /// Whether values of the physical type `physical` can carry this logical
    /// type.
    pub fn annotates(&self, physical: PhysicalType) -> (r: bool)
        ensures
            r == self.spec_annotates(physical),
    {
        match self {
            LogicalType::KeyValueMap => false,
            LogicalType::List => false,
            LogicalType::String => matches!(physical, PhysicalType::ByteArray),
            LogicalType::Enum => matches!(physical, PhysicalType::ByteArray),
            LogicalType::Json => matches!(physical, PhysicalType::ByteArray),
            LogicalType::Bson => matches!(physical, PhysicalType::ByteArray),
            LogicalType::Date => matches!(physical, PhysicalType::Int32),
            LogicalType::Unknown => matches!(physical, PhysicalType::Int32),
            LogicalType::Time(t) => match physical {
                PhysicalType::Int32 => matches!(t.unit, TimeUnit::Millis),
                PhysicalType::Int64 => !matches!(t.unit, TimeUnit::Millis),
                _ => false,
            },
            LogicalType::Timestamp(_) => matches!(physical, PhysicalType::Int64),
            LogicalType::Integer { bit_width, is_signed: _ } => match physical {
                PhysicalType::Int32 => *bit_width <= 32,
                PhysicalType::Int64 => *bit_width == 64,
                _ => false,
            },
            LogicalType::Uuid => matches!(physical, PhysicalType::FixedLenByteArray(_)),
        }
    }
}

impl ColumnView {
    /// The length that the sink is told for the column: that of its physical
    /// type, or zero where the type has none.
    pub open spec fn type_length(self) -> i32 {
        match self.physical_type.spec_len() {
            Some(n) => n,
            None => 0,
        }
    }

    /// Whether the plan is sound: a byte array of fixed length has a
    /// positive length, and the logical type, where there is one, is a width
    /// that the sink knows on a physical type that can carry it.
    pub open spec fn well_formed(self) -> bool {
        &&& self.physical_type is FixedLenByteArray ==> self.physical_type->FixedLenByteArray_0 > 0
        &&& self.logical_type is Some ==> {
            &&& self.logical_type->0.spec_width_is_supported()
            &&& self.logical_type->0.spec_annotates(self.physical_type)
        }
    }
}

impl Column {
    /// Whether the plan is sound.
    pub fn is_well_formed(&self) -> (r: bool)
        ensures
            r == self@.well_formed(),
    {
        let length_ok = match self.physical_type {
            PhysicalType::FixedLenByteArray(n) => n > 0,
            _ => true,
        };
        let logical_ok = match &self.logical_type {
            Some(l) => l.width_is_supported() && l.annotates(self.physical_type),
            None => true,
        };
        length_ok && logical_ok
    }
}

impl PhysicalType {
    /// The type's name, with the length of a byte array of fixed length in
    /// brackets.
    pub open spec fn spec_text(self) -> Seq<char> {
        match self {
            PhysicalType::Boolean => "Boolean"@,
            PhysicalType::Int32 => "Int32"@,
            PhysicalType::Int64 => "Int64"@,
            PhysicalType::Float => "Float"@,
            PhysicalType::Double => "Double"@,
            PhysicalType::ByteArray => "ByteArray"@,
            PhysicalType::FixedLenByteArray(length) => "ByteArray["@ + ascii_chars(
                int_digits(length as int),
            ) + "]"@,
        }
    }

    /// The type as text.
    pub fn to_string(&self) -> (r: String)
        ensures
            r@ == self.spec_text(),
    {
        match self {
            PhysicalType::Boolean => String::from_str("Boolean"),
            PhysicalType::Int32 => String::from_str("Int32"),
            PhysicalType::Int64 => String::from_str("Int64"),
            PhysicalType::Float => String::from_str("Float"),
            PhysicalType::Double => String::from_str("Double"),
            PhysicalType::ByteArray => String::from_str("ByteArray"),
            PhysicalType::FixedLenByteArray(length) => {
                let mut out = String::from_str("ByteArray[");
                push_decimal(&mut out, *length as i64);
                out.append("]");
                out
            },
        }
    }
}

impl Encoding {
    /// The encoding's name.
    pub open spec fn spec_text(self) -> Seq<char> {
        match self {
            Encoding::Plain => "Plain"@,
            Encoding::Rle => "Rle"@,
            Encoding::BitPacked => "BitPacked"@,
            Encoding::DeltaBinaryPacked => "DeltaBinaryPacked"@,
            Encoding::DeltaLengthByteArray => "DeltaLengthByteArray"@,
            Encoding::DeltaByteArray => "DeltaByteArray"@,
            Encoding::RleDictionary => "RleDictionary"@,
            Encoding::ByteStreamSplit => "ByteStreamSplit"@,
        }
    }

    /// The encoding's name.
    pub fn name(&self) -> (r: &'static str)
        ensures
            r@ == self.spec_text(),
    {
        match self {
            Encoding::Plain => "Plain",
            Encoding::Rle => "Rle",
            Encoding::BitPacked => "BitPacked",
            Encoding::DeltaBinaryPacked => "DeltaBinaryPacked",
            Encoding::DeltaLengthByteArray => "DeltaLengthByteArray",
            Encoding::DeltaByteArray => "DeltaByteArray",
            Encoding::RleDictionary => "RleDictionary",
            Encoding::ByteStreamSplit => "ByteStreamSplit",
        }
    }
}

impl TimeUnit {
    /// The unit's symbol.
    pub open spec fn spec_text(self) -> Seq<char> {
        match self {
            TimeUnit::Millis => "ms"@,
            TimeUnit::Micros => "\u{ce}\u{bc}s"@,
            TimeUnit::Nanos => "ns"@,
        }
    }

    /// The unit's symbol.
    pub fn symbol(&self) -> (r: &'static str)
        ensures
            r@ == self.spec_text(),
    {
        match self {
            TimeUnit::Millis => "ms",
            TimeUnit::Micros => "\u{ce}\u{bc}s",
            TimeUnit::Nanos => "ns",
        }
    }

    /// The unit as text.
    pub fn to_string(&self) -> (r: String)
        ensures
            r@ == self.spec_text(),
    {
        String::from_str(self.symbol())
    }
}

impl TimeType {
    /// The unit, then whether the time is in UTC or local.
    pub open spec fn spec_text(self) -> Seq<char> {
        self.unit.spec_text() + ", "@ + if self.utc { "UTC"@ } else { "local"@ }
    }

    /// The attributes as text.
    pub fn to_string(&self) -> (r: String)
        ensures
            r@ == self.spec_text(),
    {
        let mut out = String::from_str(self.unit.symbol());
        out.append(", ");
        out.append(if self.utc { "UTC" } else { "local" });
        out
    }
}

impl LogicalType {
    /// The type's name, with its attributes in parentheses.
    pub open spec fn spec_text(self) -> Seq<char> {
        match self {
            LogicalType::String => "String"@,
            LogicalType::KeyValueMap => "Map"@,
            LogicalType::List => "List"@,
            LogicalType::Enum => "Enum"@,
            LogicalType::Date => "Date"@,
            LogicalType::Time(x) => "Time ("@ + x.spec_text() + ")"@,
            LogicalType::Timestamp(x) => "Timestamp ("@ + x.spec_text() + ")"@,
            LogicalType::Json => "Json"@,
            LogicalType::Bson => "Bson"@,
            LogicalType::Uuid => "Uuid"@,
            LogicalType::Unknown => "Unknown"@,
            LogicalType::Integer { bit_width, is_signed } => "Integer ("@ + ascii_chars(
                int_digits(bit_width as int),
            ) + "-bit, "@ + if is_signed { "signed"@ } else { "unsigned"@ } + ")"@,
        }
    }

    /// The type as text.
    pub fn to_string(&self) -> (r: String)
        ensures
            r@ == self.spec_text(),
    {
        match self {
            LogicalType::String => String::from_str("String"),
            LogicalType::KeyValueMap => String::from_str("Map"),
            LogicalType::List => String::from_str("List"),
            LogicalType::Enum => String::from_str("Enum"),
            LogicalType::Date => String::from_str("Date"),
            LogicalType::Time(x) => {
                let mut out = String::from_str("Time (");
                out.append(x.to_string().as_str());
                out.append(")");
                out
            },
            LogicalType::Timestamp(x) => {
                let mut out = String::from_str("Timestamp (");
                out.append(x.to_string().as_str());
                out.append(")");
                out
            },
            LogicalType::Json => String::from_str("Json"),
            LogicalType::Bson => String::from_str("Bson"),
            LogicalType::Uuid => String::from_str("Uuid"),
            LogicalType::Unknown => String::from_str("Unknown"),
            LogicalType::Integer { bit_width, is_signed } => {
                let mut out = String::from_str("Integer (");
                push_decimal(&mut out, *bit_width as i64);
                out.append("-bit, ");
                out.append(if *is_signed { "signed" } else { "unsigned" });
                out.append(")");
                out
            },
        }
    }
}

impl ColumnView {
    /// How the column's encoding reads: the explicit encoding or `default`,
    /// then the dictionary flag.
    pub open spec fn encoding_text(self) -> Seq<char> {
        (match self.encoding {
            Some(x) => x.spec_text(),
            None => "default"@,
        }) + if self.dictionary { " + dict"@ } else { ""@ }
    }

    /// How the column's meaning reads: its logical type, or else what kind
    /// of value its physical type holds.
    pub open spec fn meaning_text(self) -> Seq<char> {
        match self.logical_type {
            Some(x) => x.spec_text(),
            None => match self.physical_type {
                PhysicalType::Boolean => "Boolean"@,
                PhysicalType::Int32 | PhysicalType::Int64 => "Integer"@,
                PhysicalType::Float | PhysicalType::Double => "Float"@,
                PhysicalType::ByteArray | PhysicalType::FixedLenByteArray(_) => "Blob"@,
            },
        }
    }

    /// The column as one line of a table: name, `*` for required or `?` for
    /// optional, physical type, encoding, meaning, each padded to its
    /// column's width, then the source statement in quotes.
    pub open spec fn spec_text(self) -> Seq<char> {
        pad_right(self.name, 20) + " "@ + (if self.required { "*"@ } else { "?"@ }) + " "@
            + pad_right(self.physical_type.spec_text(), 15) + " "@ + pad_right(
            self.encoding_text(),
            20,
        ) + " "@ + pad_right(self.meaning_text(), 26) + " \""@ + self.query + ";\""@
    }
}

impl Column {
    /// The column as one line of a table.
    pub fn to_string(&self) -> (r: String)
        ensures
            r@ == self@.spec_text(),
    {
        let mut encoding = String::from_str(
            match &self.encoding {
                Some(x) => x.name(),
                None => "default",
            },
        );
        encoding.append(if self.dictionary { " + dict" } else { "" });
        let meaning = match &self.logical_type {
            Some(x) => x.to_string(),
            None => String::from_str(
                match self.physical_type {
                    PhysicalType::Boolean => "Boolean",
                    PhysicalType::Int32 | PhysicalType::Int64 => "Integer",
                    PhysicalType::Float | PhysicalType::Double => "Float",
                    PhysicalType::ByteArray | PhysicalType::FixedLenByteArray(_) => "Blob",
                },
            ),
        };
        let mut out = String::new();
        push_padded(&mut out, self.name.as_str(), 20);
        out.append(" ");
        out.append(if self.required { "*" } else { "?" });
        out.append(" ");
        push_padded(&mut out, self.physical_type.to_string().as_str(), 15);
        out.append(" ");
        push_padded(&mut out, encoding.as_str(), 20);
        out.append(" ");
        push_padded(&mut out, meaning.as_str(), 26);
        out.append(" \"");
        out.append(self.query.as_str());
        out.append(";\"");
        assert(out@ =~= self@.spec_text());
        out
    }
}

} // verus!
