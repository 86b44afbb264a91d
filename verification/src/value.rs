//! Value coercion: from one dynamically typed source cell to one statically
//! typed value of the column's physical type.

use crate::schema::PhysicalType;
use crate::text::{decimal_bytes, int_digits};
use vstd::prelude::*;

verus! {

/// One cell as the relational source hands it out.
#[derive(Debug, Clone, PartialEq, Eq)]
pub enum SourceValue {
    Null,
    Integer(i64),
    /// A double-precision number, held as its IEEE 754 bit pattern.
    Real(u64),
    Text(Vec<u8>),
    Blob(Vec<u8>),
}

/// A source cell as the values that contracts speak of.
pub enum SourceValueView {
    Null,
    Integer(i64),
    Real(u64),
    Text(Seq<u8>),
    Blob(Seq<u8>),
}

impl View for SourceValue {
    type V = SourceValueView;

    open spec fn view(&self) -> SourceValueView {
        match self {
            SourceValue::Null => SourceValueView::Null,
            SourceValue::Integer(x) => SourceValueView::Integer(*x),
            SourceValue::Real(bits) => SourceValueView::Real(*bits),
            SourceValue::Text(bytes) => SourceValueView::Text(bytes@),
            SourceValue::Blob(bytes) => SourceValueView::Blob(bytes@),
        }
    }
}

/// Which variant a source cell is.
#[derive(Debug, PartialEq, Eq, Clone, Copy, Structural)]
pub enum SourceKind {
    Null,
    Integer,
    Real,
    Text,
    Blob,
}

impl SourceValueView {
    /// Which variant the cell is.
    pub open spec fn kind(self) -> SourceKind {
        match self {
            SourceValueView::Null => SourceKind::Null,
            SourceValueView::Integer(_) => SourceKind::Integer,
            SourceValueView::Real(_) => SourceKind::Real,
            SourceValueView::Text(_) => SourceKind::Text,
            SourceValueView::Blob(_) => SourceKind::Blob,
        }
    }
}

impl SourceValue {
    /// Which variant the cell is.
    pub fn kind(&self) -> (r: SourceKind)
        ensures
            r == self@.kind(),
    {
        match self {
            SourceValue::Null => SourceKind::Null,
            SourceValue::Integer(_) => SourceKind::Integer,
            SourceValue::Real(_) => SourceKind::Real,
            SourceValue::Text(_) => SourceKind::Text,
            SourceValue::Blob(_) => SourceKind::Blob,
        }
    }

    /// A copy of the cell.
    pub fn duplicate(&self) -> (r: SourceValue)
        ensures
            r@ == self@,
    {
        match self {
            SourceValue::Null => SourceValue::Null,
            SourceValue::Integer(x) => SourceValue::Integer(*x),
            SourceValue::Real(bits) => SourceValue::Real(*bits),
            SourceValue::Text(bytes) => SourceValue::Text(bytes.clone()),
            SourceValue::Blob(bytes) => SourceValue::Blob(bytes.clone()),
        }
    }

    /// Whether the cell is NULL.
    pub fn is_null(&self) -> (r: bool)
        ensures
            r == (self@ is Null),
    {
        matches!(self, SourceValue::Null)
    }
}

/// One value as the columnar sink takes it.
///
/// Numbers with a fraction are carried as the bit pattern of the source's
/// double: narrowing one to single precision and rendering one as text are
/// floating-point operations, which are carried out where the value is handed
/// to the sink.
#[derive(Debug, Clone, PartialEq, Eq)]
pub enum TargetValue {
    Boolean(bool),
    Int32(i32),
    Int64(i64),
    /// The single-precision number nearest to the double with these bits.
    Float(u64),
    /// The double with these bits.
    Double(u64),
    ByteArray(Vec<u8>),
    /// The canonical decimal text of the double with these bits, as a byte
    /// array.
    RealText(u64),
    FixedLenByteArray(Vec<u8>),
}

/// A target value as the values that contracts speak of.
pub enum TargetValueView {
    Boolean(bool),
    Int32(i32),
    Int64(i64),
    Float(u64),
    Double(u64),
    ByteArray(Seq<u8>),
    RealText(u64),
    FixedLenByteArray(Seq<u8>),
}

impl View for TargetValue {
    type V = TargetValueView;

    open spec fn view(&self) -> TargetValueView {
        match self {
            TargetValue::Boolean(b) => TargetValueView::Boolean(*b),
            TargetValue::Int32(x) => TargetValueView::Int32(*x),
            TargetValue::Int64(x) => TargetValueView::Int64(*x),
            TargetValue::Float(bits) => TargetValueView::Float(*bits),
            TargetValue::Double(bits) => TargetValueView::Double(*bits),
            TargetValue::ByteArray(bytes) => TargetValueView::ByteArray(bytes@),
            TargetValue::RealText(bits) => TargetValueView::RealText(*bits),
            TargetValue::FixedLenByteArray(bytes) => TargetValueView::FixedLenByteArray(bytes@),
        }
    }
}

impl TargetValueView {
    /// Whether the value is one that a column of type `target` holds.
    pub open spec fn fits(self, target: PhysicalType) -> bool {
        match self {
            TargetValueView::Boolean(_) => target is Boolean,
            TargetValueView::Int32(_) => target is Int32,
            TargetValueView::Int64(_) => target is Int64,
            TargetValueView::Float(_) => target is Float,
            TargetValueView::Double(_) => target is Double,
            TargetValueView::ByteArray(_) => target is ByteArray,
            TargetValueView::RealText(_) => target is ByteArray,
            TargetValueView::FixedLenByteArray(bytes) => target is FixedLenByteArray
                && bytes.len() == target->FixedLenByteArray_0,
        }
    }
}

/// Why a cell could not be coerced.
#[derive(Debug, PartialEq, Eq, Clone, Copy, Structural)]
pub enum CoercionError {
    /// No conversion exists from this kind of cell to the target type.
    TypeMismatch { source: SourceKind, target: PhysicalType },
    /// The integer does not fit in 32 bits.
    NumericOverflow { value: i64 },
    /// The byte sequence does not have the length that the target type fixes.
    FixedLengthMismatch { expected: i32, actual: usize },
}

/// The value of type `target` that the cell stands for, or why it has none.
///
/// A boolean is an integer cell, true where it is one. A 32-bit integer is
/// an integer cell in range; a 64-bit integer any integer cell. Both
/// floating-point types take real cells. A byte array takes text and blobs
/// as they are, and numbers as their decimal text. A byte array of fixed
/// length takes text and blobs of exactly that length.
pub open spec fn spec_coerce(cell: SourceValueView, target: PhysicalType) -> Result<
    TargetValueView,
    CoercionError,
>
    recommends
        !(cell is Null),
{
    let mismatch = Err(CoercionError::TypeMismatch { source: cell.kind(), target });
    match target {
        PhysicalType::Boolean => match cell {
            SourceValueView::Integer(x) => Ok(TargetValueView::Boolean(x == 1)),
            _ => mismatch,
        },
        PhysicalType::Int32 => match cell {
            SourceValueView::Integer(x) => if i32::MIN <= x <= i32::MAX {
                Ok(TargetValueView::Int32(x as i32))
            } else {
                Err(CoercionError::NumericOverflow { value: x })
            },
            _ => mismatch,
        },
        PhysicalType::Int64 => match cell {
            SourceValueView::Integer(x) => Ok(TargetValueView::Int64(x)),
            _ => mismatch,
        },
        PhysicalType::Float => match cell {
            SourceValueView::Real(bits) => Ok(TargetValueView::Float(bits)),
            _ => mismatch,
        },
        PhysicalType::Double => match cell {
            SourceValueView::Real(bits) => Ok(TargetValueView::Double(bits)),
            _ => mismatch,
        },
        PhysicalType::ByteArray => match cell {
            SourceValueView::Integer(x) => Ok(TargetValueView::ByteArray(int_digits(x as int))),
            SourceValueView::Real(bits) => Ok(TargetValueView::RealText(bits)),
            SourceValueView::Text(bytes) => Ok(TargetValueView::ByteArray(bytes)),
            SourceValueView::Blob(bytes) => Ok(TargetValueView::ByteArray(bytes)),
            SourceValueView::Null => mismatch,
        },
        PhysicalType::FixedLenByteArray(n) => match cell {
            SourceValueView::Text(bytes) => if bytes.len() == n {
                Ok(TargetValueView::FixedLenByteArray(bytes))
            } else {
                Err(CoercionError::FixedLengthMismatch { expected: n, actual: bytes.len() as usize })
            },
            SourceValueView::Blob(bytes) => if bytes.len() == n {
                Ok(TargetValueView::FixedLenByteArray(bytes))
            } else {
                Err(CoercionError::FixedLengthMismatch { expected: n, actual: bytes.len() as usize })
            },
            _ => mismatch,
        },
    }
}

/// Whether `bytes` has the length that a fixed-length type of `n` bytes asks
/// for.
fn has_length(bytes: &Vec<u8>, n: i32) -> (r: bool)
    ensures
        r == (bytes@.len() == n),
{
    n >= 0 && bytes.len() == n as usize
}

/// Coerces one cell to the physical type `target`. The caller has already
/// dealt with NULL cells.
pub fn coerce(cell: SourceValue, target: PhysicalType) -> (r: Result<TargetValue, CoercionError>)
    requires
        !(cell@ is Null),
    ensures
        match spec_coerce(cell@, target) {
            Ok(v) => r is Ok && r->Ok_0@ == v,
            Err(e) => r == Err::<TargetValue, CoercionError>(e),
        },
{
    let source = cell.kind();
    let mismatch = CoercionError::TypeMismatch { source, target };
    match target {
        PhysicalType::Boolean => match cell {
            SourceValue::Integer(x) => Ok(TargetValue::Boolean(x == 1)),
            _ => Err(mismatch),
        },
        PhysicalType::Int32 => match cell {
            SourceValue::Integer(x) => if -2147483648 <= x && x <= 2147483647 {
                Ok(TargetValue::Int32(x as i32))
            } else {
                Err(CoercionError::NumericOverflow { value: x })
            },
            _ => Err(mismatch),
        },
        PhysicalType::Int64 => match cell {
            SourceValue::Integer(x) => Ok(TargetValue::Int64(x)),
            _ => Err(mismatch),
        },
        PhysicalType::Float => match cell {
            SourceValue::Real(bits) => Ok(TargetValue::Float(bits)),
            _ => Err(mismatch),
        },
        PhysicalType::Double => match cell {
            SourceValue::Real(bits) => Ok(TargetValue::Double(bits)),
            _ => Err(mismatch),
        },
        PhysicalType::ByteArray => match cell {
            SourceValue::Integer(x) => Ok(TargetValue::ByteArray(decimal_bytes(x))),
            SourceValue::Real(bits) => Ok(TargetValue::RealText(bits)),
            SourceValue::Text(bytes) => Ok(TargetValue::ByteArray(bytes)),
            SourceValue::Blob(bytes) => Ok(TargetValue::ByteArray(bytes)),
            SourceValue::Null => Err(mismatch),
        },
        PhysicalType::FixedLenByteArray(n) => match cell {
            SourceValue::Text(bytes) => if has_length(&bytes, n) {
                Ok(TargetValue::FixedLenByteArray(bytes))
            } else {
                Err(CoercionError::FixedLengthMismatch { expected: n, actual: bytes.len() })
            },
            SourceValue::Blob(bytes) => if has_length(&bytes, n) {
                Ok(TargetValue::FixedLenByteArray(bytes))
            } else {
                Err(CoercionError::FixedLengthMismatch { expected: n, actual: bytes.len() })
            },
            _ => Err(mismatch),
        },
    }
}

/// A value that coercion yields is one that a column of the target type
/// holds.
pub proof fn lemma_coerced_value_fits(cell: SourceValueView, target: PhysicalType)
    requires
        spec_coerce(cell, target) is Ok,
    ensures
        spec_coerce(cell, target)->Ok_0.fits(target),
{
}

} // verus!
