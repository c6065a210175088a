//! Plain-value model of the Arrow schema and column data that the engine's logic reads.
use vstd::prelude::*;

verus! {

/// Unit of a time, timestamp or duration value.
#[derive(Clone, Copy, Debug, PartialEq, Eq, Structural)]
pub enum TimeUnit {
    Second,
    Millisecond,
    Microsecond,
    Nanosecond,
}

/// Unit of an interval value.
#[derive(Clone, Copy, Debug, PartialEq, Eq, Structural)]
pub enum IntervalUnit {
    YearMonth,
    DayTime,
    MonthDayNano,
}

/// Logical type of a column.
#[derive(Clone, Debug, PartialEq, Eq)]
pub enum DataType {
    Null,
    Boolean,
    Int8,
    Int16,
    Int32,
    Int64,
    UInt8,
    UInt16,
    UInt32,
    UInt64,
    Float16,
    Float32,
    Float64,
    Timestamp(TimeUnit, Option<String>),
    Date32,
    Date64,
    Time32(TimeUnit),
    Time64(TimeUnit),
    Duration(TimeUnit),
    Interval(IntervalUnit),
    Binary,
    BinaryView,
    LargeBinary,
    Utf8,
    Utf8View,
    LargeUtf8,
    Decimal128(u8, i8),
    Decimal256(u8, i8),
    Union,
    /// Any other (nested) type, which the logic passes through unread.
    Other,
}

/// A copy of an optional string.
pub fn copy_opt_string(s: &Option<String>) -> (r: Option<String>)
    ensures
        r == *s,
{
    match s {
        Some(v) => Some(v.clone()),
        None => None,
    }
}

impl DataType {
    /// A copy of this data type, equal to it.
    pub fn copy(&self) -> (r: DataType)
        ensures
            r == *self,
    {
        match self {
            DataType::Null => DataType::Null,
            DataType::Boolean => DataType::Boolean,
            DataType::Int8 => DataType::Int8,
            DataType::Int16 => DataType::Int16,
            DataType::Int32 => DataType::Int32,
            DataType::Int64 => DataType::Int64,
            DataType::UInt8 => DataType::UInt8,
            DataType::UInt16 => DataType::UInt16,
            DataType::UInt32 => DataType::UInt32,
            DataType::UInt64 => DataType::UInt64,
            DataType::Float16 => DataType::Float16,
            DataType::Float32 => DataType::Float32,
            DataType::Float64 => DataType::Float64,
            DataType::Timestamp(u, tz) => DataType::Timestamp(*u, copy_opt_string(tz)),
            DataType::Date32 => DataType::Date32,
            DataType::Date64 => DataType::Date64,
            DataType::Time32(u) => DataType::Time32(*u),
            DataType::Time64(u) => DataType::Time64(*u),
            DataType::Duration(u) => DataType::Duration(*u),
            DataType::Interval(u) => DataType::Interval(*u),
            DataType::Binary => DataType::Binary,
            DataType::BinaryView => DataType::BinaryView,
            DataType::LargeBinary => DataType::LargeBinary,
            DataType::Utf8 => DataType::Utf8,
            DataType::Utf8View => DataType::Utf8View,
            DataType::LargeUtf8 => DataType::LargeUtf8,
            DataType::Decimal128(p, s) => DataType::Decimal128(*p, *s),
            DataType::Decimal256(p, s) => DataType::Decimal256(*p, *s),
            DataType::Union => DataType::Union,
            DataType::Other => DataType::Other,
        }
    }

    /// The variant of a data type, as a number.
    pub open spec fn spec_tag(&self) -> u8 {
        match self {
            DataType::Null => 0,
            DataType::Boolean => 1,
            DataType::Int8 => 2,
            DataType::Int16 => 3,
            DataType::Int32 => 4,
            DataType::Int64 => 5,
            DataType::UInt8 => 6,
            DataType::UInt16 => 7,
            DataType::UInt32 => 8,
            DataType::UInt64 => 9,
            DataType::Float16 => 10,
            DataType::Float32 => 11,
            DataType::Float64 => 12,
            DataType::Timestamp(_, _) => 13,
            DataType::Date32 => 14,
            DataType::Date64 => 15,
            DataType::Time32(_) => 16,
            DataType::Time64(_) => 17,
            DataType::Duration(_) => 18,
            DataType::Interval(_) => 19,
            DataType::Binary => 20,
            DataType::BinaryView => 21,
            DataType::LargeBinary => 22,
            DataType::Utf8 => 23,
            DataType::Utf8View => 24,
            DataType::LargeUtf8 => 25,
            DataType::Decimal128(_, _) => 26,
            DataType::Decimal256(_, _) => 27,
            DataType::Union => 28,
            DataType::Other => 29,
        }
    }

    /// The number of the type's variant, its parameters aside.
    pub fn tag(&self) -> (r: u8)
        ensures
            r == self.spec_tag(),
    {
        match self {
            DataType::Null => 0,
            DataType::Boolean => 1,
            DataType::Int8 => 2,
            DataType::Int16 => 3,
            DataType::Int32 => 4,
            DataType::Int64 => 5,
            DataType::UInt8 => 6,
            DataType::UInt16 => 7,
            DataType::UInt32 => 8,
            DataType::UInt64 => 9,
            DataType::Float16 => 10,
            DataType::Float32 => 11,
            DataType::Float64 => 12,
            DataType::Timestamp(_, _) => 13,
            DataType::Date32 => 14,
            DataType::Date64 => 15,
            DataType::Time32(_) => 16,
            DataType::Time64(_) => 17,
            DataType::Duration(_) => 18,
            DataType::Interval(_) => 19,
            DataType::Binary => 20,
            DataType::BinaryView => 21,
            DataType::LargeBinary => 22,
            DataType::Utf8 => 23,
            DataType::Utf8View => 24,
            DataType::LargeUtf8 => 25,
            DataType::Decimal128(_, _) => 26,
            DataType::Decimal256(_, _) => 27,
            DataType::Union => 28,
            DataType::Other => 29,
        }
    }

    /// Two data types are the same type: same variant and parameters, time zones compared
    /// by their text.
    pub open spec fn equiv(&self, other: &DataType) -> bool {
        match (self, other) {
            (DataType::Timestamp(u1, z1), DataType::Timestamp(u2, z2)) => u1 == u2 && match (z1, z2) {
                (Some(a), Some(b)) => a@ == b@,
                (None, None) => true,
                _ => false,
            },
            _ => self == other,
        }
    }

    /// Whether two data types are the same type (`DataType::eq`).
    pub fn same_as(&self, other: &DataType) -> (r: bool)
        ensures
            r == self.equiv(other),
    {
        match (self, other) {
            (DataType::Timestamp(u1, z1), DataType::Timestamp(u2, z2)) => {
                *u1 == *u2 && match (z1, z2) {
                    (Some(a), Some(b)) => crate::text::str_eq(a.as_str(), b.as_str()),
                    (None, None) => true,
                    _ => false,
                }
            },
            (DataType::Time32(a), DataType::Time32(b)) => *a == *b,
            (DataType::Time64(a), DataType::Time64(b)) => *a == *b,
            (DataType::Duration(a), DataType::Duration(b)) => *a == *b,
            (DataType::Interval(a), DataType::Interval(b)) => *a == *b,
            (DataType::Decimal128(p1, s1), DataType::Decimal128(p2, s2)) => *p1 == *p2 && *s1 == *s2,
            (DataType::Decimal256(p1, s1), DataType::Decimal256(p2, s2)) => *p1 == *p2 && *s1 == *s2,
            (DataType::Timestamp(_, _), _) | (DataType::Time32(_), _) | (DataType::Time64(_), _)
            | (DataType::Duration(_), _) | (DataType::Interval(_), _) | (DataType::Decimal128(_, _), _)
            | (DataType::Decimal256(_, _), _) => false,
            _ => self.tag() == other.tag(),
        }
    }

    /// Whether the type is a numeric type (integers, floats and decimals).
    pub open spec fn spec_is_numeric(&self) -> bool {
        match self {
            DataType::Int8 | DataType::Int16 | DataType::Int32 | DataType::Int64
            | DataType::UInt8 | DataType::UInt16 | DataType::UInt32 | DataType::UInt64
            | DataType::Float16 | DataType::Float32 | DataType::Float64
            | DataType::Decimal128(_, _) | DataType::Decimal256(_, _) => true,
            _ => false,
        }
    }

    /// Whether the type is a number type: an integer, a float or a decimal.
    pub fn is_numeric(&self) -> (r: bool)
        ensures
            r == self.spec_is_numeric(),
    {
        match self {
            DataType::Int8 | DataType::Int16 | DataType::Int32 | DataType::Int64
            | DataType::UInt8 | DataType::UInt16 | DataType::UInt32 | DataType::UInt64
            | DataType::Float16 | DataType::Float32 | DataType::Float64
            | DataType::Decimal128(_, _) | DataType::Decimal256(_, _) => true,
            _ => false,
        }
    }
}

/// A named, typed column description with string metadata.
#[derive(Clone, Debug, PartialEq, Eq)]
pub struct Field {
    pub name: String,
    pub data_type: DataType,
    pub nullable: bool,
    pub metadata: Vec<(String, String)>,
}

impl Field {
    /// A field without metadata.
    pub fn new(name: String, data_type: DataType, nullable: bool) -> (f: Field)
        ensures
            f.name == name,
            f.data_type == data_type,
            f.nullable == nullable,
            f.metadata@.len() == 0,
    {
        Field { name, data_type, nullable, metadata: Vec::new() }
    }

    /// The same field with its metadata replaced.
    pub fn with_metadata(self, metadata: Vec<(String, String)>) -> (f: Field)
        ensures
            f.name == self.name,
            f.data_type == self.data_type,
            f.nullable == self.nullable,
            f.metadata == metadata,
    {
        Field { metadata, ..self }
    }

    /// A copy of this field, equal to it field by field.
    pub fn copy(&self) -> (f: Field)
        ensures
            f.name == self.name,
            f.data_type == self.data_type,
            f.nullable == self.nullable,
            f.metadata@ == self.metadata@,
    {
        let mut md: Vec<(String, String)> = Vec::new();
        let mut i: usize = 0;
        while i < self.metadata.len()
            invariant
                i <= self.metadata@.len(),
                md@ == self.metadata@.take(i as int),
            decreases self.metadata@.len() - i,
        {
            let (k, v) = &self.metadata[i];
            md.push((k.clone(), v.clone()));
            assert(self.metadata@.take(i as int + 1) == self.metadata@.take(i as int).push(
                self.metadata@[i as int],
            ));
            i = i + 1;
        }
        assert(self.metadata@.take(self.metadata@.len() as int) == self.metadata@);
        Field {
            name: self.name.clone(),
            data_type: self.data_type.copy(),
            nullable: self.nullable,
            metadata: md,
        }
    }
}


impl DataType {
    /// Whether a decimal type carries a precision and scale that Arrow accepts.
    pub open spec fn decimal_params_valid(&self) -> bool {
        match self {
            DataType::Decimal128(p, s) => 1 <= *p <= 38 && *s <= *p as int,
            DataType::Decimal256(p, s) => 1 <= *p <= 76 && *s <= *p as int,
            _ => true,
        }
    }
}

/// The values of a column, held by the kind of value the logic reads.
#[derive(Debug)]
pub enum ColumnData {
    /// Boolean values.
    Bools(Vec<Option<bool>>),
    /// Signed integer-like values: integers, dates, times, timestamps, durations.
    Ints(Vec<Option<i64>>),
    /// Unsigned integer values.
    UInts(Vec<Option<u64>>),
    /// Unscaled decimal values.
    Decimals(Vec<Option<i128>>),
    /// Text values.
    Texts(Vec<Option<String>>),
    /// Binary values.
    Bytes(Vec<Option<Vec<u8>>>),
    /// A union: the type id of each row and one child column per type id.
    Union(Vec<i8>, Vec<Column>),
    /// Values the logic never reads (floats, nested types); only the number of rows and
    /// the number of nulls are kept.
    Opaque(usize, usize),
}

/// An array: its logical type and its values.
#[derive(Debug)]
pub struct Column {
    pub data_type: DataType,
    pub data: ColumnData,
}

/// The range of values a signed integer-like type can hold.
pub open spec fn int_type_bounds(t: DataType) -> (int, int) {
    match t {
        DataType::Int8 => (-128, 127),
        DataType::Int16 => (-32768, 32767),
        DataType::Int32 | DataType::Date32 | DataType::Time32(_) => (-2147483648, 2147483647),
        _ => (-9223372036854775808, 9223372036854775807),
    }
}

/// The range of values an unsigned integer type can hold.
pub open spec fn uint_type_max(t: DataType) -> int {
    match t {
        DataType::UInt8 => 255,
        DataType::UInt16 => 65535,
        DataType::UInt32 => 4294967295,
        _ => 18446744073709551615,
    }
}

/// Types whose values are held as signed integers.
pub open spec fn is_int_like(t: DataType) -> bool {
    match t {
        DataType::Int8 | DataType::Int16 | DataType::Int32 | DataType::Int64
        | DataType::Date32 | DataType::Date64 | DataType::Time32(_) | DataType::Time64(_)
        | DataType::Timestamp(_, _) | DataType::Duration(_) => true,
        _ => false,
    }
}

/// An unsigned integer type.
pub open spec fn is_uint(t: DataType) -> bool {
    match t {
        DataType::UInt8 | DataType::UInt16 | DataType::UInt32 | DataType::UInt64 => true,
        _ => false,
    }
}

/// A string type.
pub open spec fn is_text(t: DataType) -> bool {
    match t {
        DataType::Utf8 | DataType::Utf8View | DataType::LargeUtf8 => true,
        _ => false,
    }
}

/// A binary type.
pub open spec fn is_binary(t: DataType) -> bool {
    match t {
        DataType::Binary | DataType::BinaryView | DataType::LargeBinary => true,
        _ => false,
    }
}

/// A 128-bit decimal type.
pub open spec fn is_decimal128(t: DataType) -> bool {
    t matches DataType::Decimal128(_, _)
}

/// Types whose values the logic never reads.
pub open spec fn is_opaque_type(t: DataType) -> bool {
    !(t == DataType::Boolean || is_int_like(t) || is_uint(t) || is_text(t) || is_binary(t)
        || is_decimal128(t) || t == DataType::Union)
}

impl ColumnData {
    /// Number of rows.
    pub open spec fn len(&self) -> nat {
        match self {
            ColumnData::Bools(v) => v@.len(),
            ColumnData::Ints(v) => v@.len(),
            ColumnData::UInts(v) => v@.len(),
            ColumnData::Decimals(v) => v@.len(),
            ColumnData::Texts(v) => v@.len(),
            ColumnData::Bytes(v) => v@.len(),
            ColumnData::Union(ids, _) => ids@.len(),
            ColumnData::Opaque(n, _) => *n as nat,
        }
    }

    /// Number of rows.
    /// The number of rows.
    pub fn num_rows(&self) -> (n: usize)
        ensures
            n == self.len(),
    {
        match self {
            ColumnData::Bools(v) => v.len(),
            ColumnData::Ints(v) => v.len(),
            ColumnData::UInts(v) => v.len(),
            ColumnData::Decimals(v) => v.len(),
            ColumnData::Texts(v) => v.len(),
            ColumnData::Bytes(v) => v.len(),
            ColumnData::Union(ids, _) => ids.len(),
            ColumnData::Opaque(n, _) => *n,
        }
    }
}

/// Whether some entry of a sequence of optional values is null.
pub open spec fn seq_has_none<T>(s: Seq<Option<T>>) -> bool {
    exists|i: int| 0 <= i < s.len() && (#[trigger] s[i]) is None
}

fn vec_has_none<T>(v: &Vec<Option<T>>) -> (r: bool)
    ensures
        r == seq_has_none(v@),
{
    let mut i: usize = 0;
    while i < v.len()
        invariant
            i <= v@.len(),
            forall|j: int| 0 <= j < i ==> (#[trigger] v@[j]) is Some,
        decreases v@.len() - i,
    {
        if v[i].is_none() {
            return true;
        }
        i = i + 1;
    }
    false
}

impl ColumnData {
    /// Whether the array has a null entry (a union array has none of its own).
    pub open spec fn has_nulls(&self) -> bool {
        match self {
            ColumnData::Bools(v) => seq_has_none(v@),
            ColumnData::Ints(v) => seq_has_none(v@),
            ColumnData::UInts(v) => seq_has_none(v@),
            ColumnData::Decimals(v) => seq_has_none(v@),
            ColumnData::Texts(v) => seq_has_none(v@),
            ColumnData::Bytes(v) => seq_has_none(v@),
            ColumnData::Union(_, _) => false,
            ColumnData::Opaque(_, nulls) => *nulls > 0,
        }
    }

    /// Whether the array has a null entry.
    pub fn contains_nulls(&self) -> (r: bool)
        ensures
            r == self.has_nulls(),
    {
        match self {
            ColumnData::Bools(v) => vec_has_none(v),
            ColumnData::Ints(v) => vec_has_none(v),
            ColumnData::UInts(v) => vec_has_none(v),
            ColumnData::Decimals(v) => vec_has_none(v),
            ColumnData::Texts(v) => vec_has_none(v),
            ColumnData::Bytes(v) => vec_has_none(v),
            ColumnData::Union(_, _) => false,
            ColumnData::Opaque(_, nulls) => *nulls > 0,
        }
    }
}

impl Column {
    /// Number of rows.
    pub open spec fn len(&self) -> nat {
        self.data.len()
    }

    /// The values are of the kind the data type calls for, and in its range.
    pub open spec fn wf(&self) -> bool
        decreases self,
    {
        &&& self.data_type.decimal_params_valid()
        &&& match self.data {
            ColumnData::Bools(_) => self.data_type == DataType::Boolean,
            ColumnData::Ints(v) => is_int_like(self.data_type) && forall|i: int|
                0 <= i < v@.len() && (#[trigger] v@[i]) is Some ==> int_type_bounds(self.data_type).0
                    <= v@[i]->0 <= int_type_bounds(self.data_type).1,
            ColumnData::UInts(v) => is_uint(self.data_type) && forall|i: int|
                0 <= i < v@.len() && (#[trigger] v@[i]) is Some ==> v@[i]->0 <= uint_type_max(
                    self.data_type,
                ),
            ColumnData::Decimals(_) => is_decimal128(self.data_type),
            ColumnData::Texts(_) => is_text(self.data_type),
            ColumnData::Bytes(_) => is_binary(self.data_type),
            ColumnData::Union(ids, children) => self.data_type == DataType::Union && (forall|
                i: int,
            | 0 <= i < ids@.len() ==> 0 <= #[trigger] ids@[i] < children@.len()) && (forall|
                j: int,
            | 0 <= j < children@.len() ==> (#[trigger] children@[j]).wf()),
            ColumnData::Opaque(n, nulls) => is_opaque_type(self.data_type) && nulls <= n,
        }
    }
}

/// A batch of rows: a schema and one column per field, all of one length.
#[derive(Debug)]
pub struct RecordBatch {
    pub schema: Vec<Field>,
    pub columns: Vec<Column>,
}

impl RecordBatch {
    pub open spec fn num_rows(&self) -> nat {
        if self.columns@.len() == 0 {
            0
        } else {
            self.columns@[0].len()
        }
    }

    /// What Arrow checks when it builds a batch: one column per field and at least one,
    /// no nulls in a non-nullable field, one row count, and each column of its field's type.
    pub open spec fn valid_parts(schema: Seq<Field>, columns: Seq<Column>) -> bool {
        &&& schema.len() == columns.len()
        &&& columns.len() >= 1
        &&& forall|i: int|
            0 <= i < columns.len() ==> {
                &&& (!schema[i].nullable ==> !(#[trigger] columns[i]).data.has_nulls())
                &&& columns[i].len() == columns[0].len()
                &&& columns[i].data_type.equiv(&schema[i].data_type)
            }
    }

    /// A batch Arrow accepts, whose columns hold values of their types.
    pub open spec fn wf(&self) -> bool {
        &&& Self::valid_parts(self.schema@, self.columns@)
        &&& forall|i: int| 0 <= i < self.columns@.len() ==> (#[trigger] self.columns@[i]).wf()
    }

    /// Builds a batch from a schema and its columns, checking them as Arrow does.
    pub fn try_new(schema: Vec<Field>, columns: Vec<Column>) -> (r: Result<RecordBatch, BatchError>)
        ensures
            r is Ok <==> Self::valid_parts(schema@, columns@),
            r matches Ok(b) ==> b.schema == schema && b.columns == columns,
    {
        if schema.len() != columns.len() {
            return Err(BatchError::ColumnCountMismatch);
        }
        if columns.len() == 0 {
            return Err(BatchError::NoColumns);
        }
        let n = columns[0].data.num_rows();
        let mut i: usize = 0;
        while i < columns.len()
            invariant
                schema@.len() == columns@.len(),
                columns@.len() >= 1,
                n == columns@[0].len(),
                i <= columns@.len(),
                forall|j: int| 0 <= j < i ==> !schema@[j].nullable ==> !(#[trigger] columns@[j]).data.has_nulls(),
            decreases columns@.len() - i,
        {
            if !schema[i].nullable && columns[i].data.contains_nulls() {
                return Err(BatchError::NullInNonNullable);
            }
            i = i + 1;
        }
        let mut i: usize = 0;
        while i < columns.len()
            invariant
                schema@.len() == columns@.len(),
                columns@.len() >= 1,
                n == columns@[0].len(),
                i <= columns@.len(),
                forall|j: int| 0 <= j < i ==> (#[trigger] columns@[j]).len() == n,
            decreases columns@.len() - i,
        {
            if columns[i].data.num_rows() != n {
                return Err(BatchError::RowCountMismatch);
            }
            i = i + 1;
        }
        let mut i: usize = 0;
        while i < columns.len()
            invariant
                schema@.len() == columns@.len(),
                i <= columns@.len(),
                forall|j: int| 0 <= j < i ==> (#[trigger] columns@[j]).data_type.equiv(&schema@[j].data_type),
            decreases columns@.len() - i,
        {
            if !columns[i].data_type.same_as(&schema[i].data_type) {
                return Err(BatchError::TypeMismatch);
            }
            i = i + 1;
        }
        Ok(RecordBatch { schema, columns })
    }
}

/// Why Arrow refuses to build a batch.
#[derive(Clone, Copy, Debug, PartialEq, Eq, Structural)]
pub enum BatchError {
    ColumnCountMismatch,
    NoColumns,
    NullInNonNullable,
    RowCountMismatch,
    TypeMismatch,
}


impl DataType {
    /// Whether a decimal type carries a precision and scale that Arrow accepts.
    pub fn has_valid_decimal_params(&self) -> (r: bool)
        ensures
            r == self.decimal_params_valid(),
    {
        match self {
            DataType::Decimal128(p, s) => 1 <= *p && *p <= 38 && (*s as i16) <= (*p as i16),
            DataType::Decimal256(p, s) => 1 <= *p && *p <= 76 && (*s as i16) <= (*p as i16),
            _ => true,
        }
    }

    /// The range of values a signed integer-like type can hold.
    fn int_bounds(&self) -> (r: (i64, i64))
        ensures
            r.0 == int_type_bounds(*self).0,
            r.1 == int_type_bounds(*self).1,
    {
        match self {
            DataType::Int8 => (-128, 127),
            DataType::Int16 => (-32768, 32767),
            DataType::Int32 | DataType::Date32 | DataType::Time32(_) => (-2147483648, 2147483647),
            _ => (i64::MIN, i64::MAX),
        }
    }

    /// The largest value an unsigned integer type can hold.
    fn uint_max(&self) -> (r: u64)
        ensures
            r == uint_type_max(*self),
    {
        match self {
            DataType::UInt8 => 255,
            DataType::UInt16 => 65535,
            DataType::UInt32 => 4294967295,
            _ => u64::MAX,
        }
    }

    fn int_like(&self) -> (r: bool)
        ensures
            r == is_int_like(*self),
    {
        match self {
            DataType::Int8 | DataType::Int16 | DataType::Int32 | DataType::Int64 | DataType::Date32
            | DataType::Date64 | DataType::Time32(_) | DataType::Time64(_) | DataType::Timestamp(_, _)
            | DataType::Duration(_) => true,
            _ => false,
        }
    }

    fn uint_kind(&self) -> (r: bool)
        ensures
            r == is_uint(*self),
    {
        match self {
            DataType::UInt8 | DataType::UInt16 | DataType::UInt32 | DataType::UInt64 => true,
            _ => false,
        }
    }

    fn text_kind(&self) -> (r: bool)
        ensures
            r == is_text(*self),
    {
        match self {
            DataType::Utf8 | DataType::Utf8View | DataType::LargeUtf8 => true,
            _ => false,
        }
    }

    fn binary_kind(&self) -> (r: bool)
        ensures
            r == is_binary(*self),
    {
        match self {
            DataType::Binary | DataType::BinaryView | DataType::LargeBinary => true,
            _ => false,
        }
    }

    fn decimal128_kind(&self) -> (r: bool)
        ensures
            r == is_decimal128(*self),
    {
        match self {
            DataType::Decimal128(_, _) => true,
            _ => false,
        }
    }

    fn opaque_kind(&self) -> (r: bool)
        ensures
            r == is_opaque_type(*self),
    {
        !(matches!(self, DataType::Boolean) || self.int_like() || self.uint_kind() || self.text_kind()
            || self.binary_kind() || self.decimal128_kind() || matches!(self, DataType::Union))
    }
}

impl Column {
    /// Whether the values are of the kind the data type calls for, and in its range.
    #[verifier::loop_isolation(false)]
    pub fn is_wf(&self) -> (r: bool)
        ensures
            r == self.wf(),
        decreases self,
    {
        if !self.data_type.has_valid_decimal_params() {
            return false;
        }
        match &self.data {
            ColumnData::Bools(_) => matches!(self.data_type, DataType::Boolean),
            ColumnData::Ints(v) => {
                if !self.data_type.int_like() {
                    return false;
                }
                let (lo, hi) = self.data_type.int_bounds();
                let mut i: usize = 0;
                while i < v.len()
                    invariant
                        i <= v@.len(),
                        lo == int_type_bounds(self.data_type).0,
                        hi == int_type_bounds(self.data_type).1,
                        forall|j: int|
                            0 <= j < i && (#[trigger] v@[j]) is Some ==> lo <= v@[j]->0 <= hi,
                    decreases v@.len() - i,
                {
                    match v[i] {
                        Some(x) => {
                            if x < lo || x > hi {
                                assert(v@[i as int] is Some && !(lo <= v@[i as int]->0 <= hi));
                                return false;
                            }
                        },
                        None => {},
                    }
                    i = i + 1;
                }
                true
            },
            ColumnData::UInts(v) => {
                if !self.data_type.uint_kind() {
                    return false;
                }
                let hi = self.data_type.uint_max();
                let mut i: usize = 0;
                while i < v.len()
                    invariant
                        i <= v@.len(),
                        hi == uint_type_max(self.data_type),
                        forall|j: int| 0 <= j < i && (#[trigger] v@[j]) is Some ==> v@[j]->0 <= hi,
                    decreases v@.len() - i,
                {
                    match v[i] {
                        Some(x) => {
                            if x > hi {
                                assert(v@[i as int] is Some && !(v@[i as int]->0 <= hi));
                                return false;
                            }
                        },
                        None => {},
                    }
                    i = i + 1;
                }
                true
            },
            ColumnData::Decimals(_) => self.data_type.decimal128_kind(),
            ColumnData::Texts(_) => self.data_type.text_kind(),
            ColumnData::Bytes(_) => self.data_type.binary_kind(),
            ColumnData::Union(ids, children) => {
                if !matches!(self.data_type, DataType::Union) {
                    return false;
                }
                let n = children.len();
                let mut i: usize = 0;
                while i < ids.len()
                    invariant
                        i <= ids@.len(),
                        n == children@.len(),
                        forall|j: int| 0 <= j < i ==> 0 <= #[trigger] ids@[j] < n,
                    decreases ids@.len() - i,
                {
                    if ids[i] < 0 || (ids[i] as usize) >= n {
                        assert(!(0 <= ids@[i as int] < children@.len()));
                        return false;
                    }
                    i = i + 1;
                }
                let mut k: usize = 0;
                while k < children.len()
                    invariant
                        k <= children@.len(),
                        forall|j: int| 0 <= j < k ==> (#[trigger] children@[j]).wf(),
                    decreases children@.len() - k,
                {
                    proof {
                        assert(decreases_to!(self => self.data));
                        assert(decreases_to!(self.data => *children));
                        assert(decreases_to!(*children => children@));
                        assert(decreases_to!(children@ => children@[k as int]));
                    }
                    if !children[k].is_wf() {
                        assert(!children@[k as int].wf());
                        return false;
                    }
                    k = k + 1;
                }
                true
            },
            ColumnData::Opaque(n, nulls) => self.data_type.opaque_kind() && *nulls <= *n,
        }
    }
}

impl RecordBatch {
    /// Whether Arrow accepts the batch and its columns hold values of their types.
    pub fn is_wf(&self) -> (r: bool)
        ensures
            r == self.wf(),
    {
        if self.schema.len() != self.columns.len() || self.columns.len() == 0 {
            return false;
        }
        let n = self.columns[0].data.num_rows();
        let mut i: usize = 0;
        while i < self.columns.len()
            invariant
                self.schema@.len() == self.columns@.len(),
                self.columns@.len() >= 1,
                n == self.columns@[0].len(),
                i <= self.columns@.len(),
                forall|j: int|
                    0 <= j < i ==> {
                        &&& (!self.schema@[j].nullable ==> !(#[trigger] self.columns@[j]).data.has_nulls())
                        &&& self.columns@[j].len() == self.columns@[0].len()
                        &&& self.columns@[j].data_type.equiv(&self.schema@[j].data_type)
                        &&& self.columns@[j].wf()
                    },
            decreases self.columns@.len() - i,
        {
            let c = &self.columns[i];
            if !self.schema[i].nullable && c.data.contains_nulls() {
                return false;
            }
            if c.data.num_rows() != n || !c.data_type.same_as(&self.schema[i].data_type) || !c.is_wf() {
                return false;
            }
            i = i + 1;
        }
        true
    }
}

} // verus!
