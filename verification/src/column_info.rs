//! Snowflake column descriptions derived from Arrow fields.
use vstd::prelude::*;
use crate::types::{DataType, Field, TimeUnit};
use crate::text::{str_to_uppercase, unicode_upper};
use crate::numtext::{int_text, int_to_string};

verus! {

/// The Snowflake type family that a column of the given type is reported as.
pub open spec fn snowflake_type(t: DataType) -> Seq<char> {
    match t {
        DataType::Int8 | DataType::Int16 | DataType::Int32 | DataType::Int64 | DataType::UInt8
        | DataType::UInt16 | DataType::UInt32 | DataType::UInt64 | DataType::Decimal128(_, _)
        | DataType::Decimal256(_, _) => "fixed"@,
        DataType::Float16 | DataType::Float32 | DataType::Float64 => "real"@,
        DataType::Boolean => "boolean"@,
        DataType::Time32(_) | DataType::Time64(_) => "time"@,
        DataType::Date32 | DataType::Date64 => "date"@,
        DataType::Timestamp(_, tz) => if tz is Some {
            "timestamp_tz"@
        } else {
            "timestamp_ntz"@
        },
        DataType::Binary | DataType::BinaryView | DataType::LargeBinary => "binary"@,
        _ => "text"@,
    }
}

/// The Snowflake type family name of an Arrow type.
pub fn snowflake_type_name(t: &DataType) -> (r: &'static str)
    ensures
        r@ == snowflake_type(*t),
{
    match t {
        DataType::Int8 | DataType::Int16 | DataType::Int32 | DataType::Int64 | DataType::UInt8
        | DataType::UInt16 | DataType::UInt32 | DataType::UInt64 | DataType::Decimal128(_, _)
        | DataType::Decimal256(_, _) => "fixed",
        DataType::Float16 | DataType::Float32 | DataType::Float64 => "real",
        DataType::Boolean => "boolean",
        DataType::Time32(_) | DataType::Time64(_) => "time",
        DataType::Date32 | DataType::Date64 => "date",
        DataType::Timestamp(_, tz) => if tz.is_some() {
            "timestamp_tz"
        } else {
            "timestamp_ntz"
        },
        DataType::Binary | DataType::BinaryView | DataType::LargeBinary => "binary",
        _ => "text",
    }
}

/// Digits after the decimal point of a timestamp unit.
pub open spec fn unit_scale(u: TimeUnit) -> i32 {
    match u {
        TimeUnit::Second => 0,
        TimeUnit::Millisecond => 3,
        TimeUnit::Microsecond => 6,
        TimeUnit::Nanosecond => 9,
    }
}

/// The precision reported for a column of the given type.
pub open spec fn spec_precision(t: DataType) -> Option<i32> {
    match t {
        DataType::Int8 | DataType::Int16 | DataType::Int32 | DataType::Int64 | DataType::UInt8
        | DataType::UInt16 | DataType::UInt32 | DataType::UInt64 | DataType::Float16
        | DataType::Float32 | DataType::Float64 => Some(38),
        DataType::Decimal128(p, _) | DataType::Decimal256(p, _) => Some(p as i32),
        DataType::Time32(_) | DataType::Time64(_) | DataType::Timestamp(_, _) => Some(0),
        _ => None,
    }
}

/// The scale reported for a column of the given type.
pub open spec fn spec_scale(t: DataType) -> Option<i32> {
    match t {
        DataType::Int8 | DataType::Int16 | DataType::Int32 | DataType::Int64 | DataType::UInt8
        | DataType::UInt16 | DataType::UInt32 | DataType::UInt64 => Some(0),
        DataType::Float16 | DataType::Float32 | DataType::Float64 => Some(16),
        DataType::Decimal128(_, s) | DataType::Decimal256(_, s) => Some(s as i32),
        DataType::Time32(_) | DataType::Time64(_) => Some(9),
        DataType::Timestamp(u, _) => Some(unit_scale(u)),
        _ => None,
    }
}

/// The length (and byte length) reported for a column of the given type.
pub open spec fn spec_length(t: DataType) -> Option<i32> {
    match t {
        DataType::Utf8 => Some(16777216),
        DataType::Binary | DataType::BinaryView => Some(8388608),
        _ => None,
    }
}

/// Description of one result column, as the Snowflake protocol reports it.
#[derive(Debug, Clone)]
pub struct ColumnInfo {
    pub name: String,
    pub database: String,
    pub schema: String,
    pub table: String,
    pub nullable: bool,
    pub column_type: String,
    pub byte_length: Option<i32>,
    pub length: Option<i32>,
    pub scale: Option<i32>,
    pub precision: Option<i32>,
    pub collation: Option<String>,
}

/// Key/value text pairs attached to a field.
pub open spec fn metadata_view(m: Seq<(String, String)>) -> Seq<(Seq<char>, Seq<char>)> {
    m.map_values(|kv: (String, String)| (kv.0@, kv.1@))
}

impl ColumnInfo {
    /// The column metadata in the order it is written: logical type, precision, scale
    /// and character length.
    pub open spec fn spec_metadata(&self) -> Seq<(Seq<char>, Seq<char>)> {
        seq![
            ("logicalType"@, unicode_upper(self.column_type@)),
            ("precision"@, int_text(self.precision.unwrap_or(38) as int)),
            ("scale"@, int_text(self.scale.unwrap_or(0) as int)),
            ("charLength"@, int_text(self.length.unwrap_or(0) as int)),
        ]
    }

    /// Field metadata describing this column: logical type (upper case), precision
    /// (38 when unknown), scale and character length (0 when unknown).
    pub fn to_metadata(&self) -> (m: Vec<(String, String)>)
        ensures
            metadata_view(m@) == self.spec_metadata(),
            crate::text::ascii_seq(self.column_type@) ==> metadata_view(m@)[0].1 == crate::text::upper_seq(
                self.column_type@,
            ),
    {
        let mut m: Vec<(String, String)> = Vec::new();
        m.push(("logicalType".to_string(), str_to_uppercase(self.column_type.as_str())));
        let p: i32 = match self.precision {
            Some(p) => p,
            None => 38,
        };
        m.push(("precision".to_string(), int_to_string(p as i64)));
        let s: i32 = match self.scale {
            Some(s) => s,
            None => 0,
        };
        m.push(("scale".to_string(), int_to_string(s as i64)));
        let l: i32 = match self.length {
            Some(l) => l,
            None => 0,
        };
        m.push(("charLength".to_string(), int_to_string(l as i64)));
        assert(metadata_view(m@) =~= self.spec_metadata());
        m
    }

    /// What `from_field` reports for a field.
    pub open spec fn describes(&self, f: Field) -> bool {
        &&& self.name@ == f.name@
        &&& self.database@ == Seq::<char>::empty()
        &&& self.schema@ == Seq::<char>::empty()
        &&& self.table@ == Seq::<char>::empty()
        &&& self.nullable == f.nullable
        &&& self.column_type@ == snowflake_type(f.data_type)
        &&& self.byte_length == spec_length(f.data_type)
        &&& self.length == spec_length(f.data_type)
        &&& self.scale == spec_scale(f.data_type)
        &&& self.precision == spec_precision(f.data_type)
        &&& self.collation is None
    }

    /// Describes a field: its name, nullability, Snowflake type family, and the
    /// precision, scale and length that the type implies.
    pub fn from_field(field: &Field) -> (c: ColumnInfo)
        ensures
            c.describes(*field),
    {
        let mut c = ColumnInfo {
            name: field.name.clone(),
            database: String::new(),
            schema: String::new(),
            table: String::new(),
            nullable: field.nullable,
            column_type: snowflake_type_name(&field.data_type).to_string(),
            byte_length: None,
            length: None,
            scale: None,
            precision: None,
            collation: None,
        };
        match &field.data_type {
            DataType::Int8 | DataType::Int16 | DataType::Int32 | DataType::Int64 | DataType::UInt8
            | DataType::UInt16 | DataType::UInt32 | DataType::UInt64 => {
                c.precision = Some(38);
                c.scale = Some(0);
            },
            DataType::Float16 | DataType::Float32 | DataType::Float64 => {
                c.precision = Some(38);
                c.scale = Some(16);
            },
            DataType::Decimal128(p, s) | DataType::Decimal256(p, s) => {
                c.precision = Some(*p as i32);
                c.scale = Some(*s as i32);
            },
            DataType::Utf8 => {
                c.byte_length = Some(16777216);
                c.length = Some(16777216);
            },
            DataType::Time32(_) | DataType::Time64(_) => {
                c.precision = Some(0);
                c.scale = Some(9);
            },
            DataType::Timestamp(unit, _) => {
                c.precision = Some(0);
                let scale: i32 = match unit {
                    TimeUnit::Second => 0,
                    TimeUnit::Millisecond => 3,
                    TimeUnit::Microsecond => 6,
                    TimeUnit::Nanosecond => 9,
                };
                c.scale = Some(scale);
            },
            DataType::Binary | DataType::BinaryView => {
                c.byte_length = Some(8388608);
                c.length = Some(8388608);
            },
            _ => {},
        }
        c
    }

    /// Describes every field of a schema, in order.
    pub fn from_schema(schema: &Vec<Field>) -> (v: Vec<ColumnInfo>)
        ensures
            v@.len() == schema@.len(),
            forall|i: int| 0 <= i < v@.len() ==> (#[trigger] v@[i]).describes(schema@[i]),
    {
        let mut v: Vec<ColumnInfo> = Vec::new();
        let mut i: usize = 0;
        while i < schema.len()
            invariant
                i <= schema@.len(),
                v@.len() == i,
                forall|j: int| 0 <= j < i ==> (#[trigger] v@[j]).describes(schema@[j]),
            decreases schema@.len() - i,
        {
            v.push(ColumnInfo::from_field(&schema[i]));
            i = i + 1;
        }
        v
    }
}

/// The metadata `to_metadata` gives for the description of a field.
pub open spec fn described_metadata(f: Field) -> Seq<(Seq<char>, Seq<char>)> {
    seq![
        ("logicalType"@, unicode_upper(snowflake_type(f.data_type))),
        ("precision"@, int_text(spec_precision(f.data_type).unwrap_or(38) as int)),
        ("scale"@, int_text(spec_scale(f.data_type).unwrap_or(0) as int)),
        ("charLength"@, int_text(spec_length(f.data_type).unwrap_or(0) as int)),
    ]
}

/// The metadata of a field's description is determined by the field.
pub proof fn lemma_described_metadata(c: ColumnInfo, f: Field)
    requires
        c.describes(f),
    ensures
        c.spec_metadata() == described_metadata(f),
{
}

} // verus!
