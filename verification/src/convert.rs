//! Conversion of query results into the column forms that Snowflake clients read.
use vstd::prelude::*;
use vstd::utf8::{valid_utf8, decode_utf8};
use crate::types::{
    BatchError, Column, ColumnData, DataType, Field, RecordBatch, is_uint,
};
use crate::column_info::{ColumnInfo, metadata_view, described_metadata, lemma_described_metadata, spec_precision, spec_scale};
use crate::text::{lower_seq, upper_seq, to_ascii_lowercase, to_ascii_uppercase, str_eq};
use crate::temporal::{
    convert_date, convert_time, convert_timestamp_to_struct, date_converted, time_converted,
    timestamp_converted,
};

verus! {

/// How result rows are serialized for the client.
#[derive(Clone, Copy, Debug, PartialEq, Eq, Structural)]
pub enum DataSerializationFormat {
    Arrow,
    Json,
}

impl Default for DataSerializationFormat {
    fn default() -> (r: Self)
        ensures
            r == DataSerializationFormat::Json,
    {
        DataSerializationFormat::Json
    }
}

/// The text of a format name that is not one of the formats.
#[derive(Clone, Copy, Debug, PartialEq, Eq, Structural)]
pub enum FormatParseError {
    VariantNotFound,
}

impl DataSerializationFormat {
    /// The name of the format.
    pub open spec fn spec_name(self) -> Seq<char> {
        match self {
            DataSerializationFormat::Arrow => "Arrow"@,
            DataSerializationFormat::Json => "Json"@,
        }
    }

    /// The name of the format ("Arrow" or "Json").
    pub fn to_string(&self) -> (r: String)
        ensures
            r@ == self.spec_name(),
    {
        match self {
            DataSerializationFormat::Arrow => "Arrow".to_string(),
            DataSerializationFormat::Json => "Json".to_string(),
        }
    }

    /// Parses a format name, ignoring ASCII case.
    pub fn from_str(s: &str) -> (r: Result<DataSerializationFormat, FormatParseError>)
        ensures
            r matches Ok(f) ==> lower_seq(s@) == lower_seq(f.spec_name()),
            r is Err <==> (lower_seq(s@) != lower_seq("Arrow"@) && lower_seq(s@) != lower_seq("Json"@)),
    {
        let l = to_ascii_lowercase(s);
        let a = to_ascii_lowercase("Arrow");
        let j = to_ascii_lowercase("Json");
        if str_eq(l.as_str(), a.as_str()) {
            Ok(DataSerializationFormat::Arrow)
        } else if str_eq(l.as_str(), j.as_str()) {
            Ok(DataSerializationFormat::Json)
        } else {
            proof {
                reveal_strlit("Arrow");
                reveal_strlit("Json");
                assert(lower_seq("Arrow"@) != lower_seq("Json"@)) by {
                    assert(lower_seq("Arrow"@).len() != lower_seq("Json"@).len());
                }
            }
            Err(FormatParseError::VariantNotFound)
        }
    }
}

/// A format's name parses back to that format, and to no other: `from_str` accepts it,
/// and only the format itself has a name equal to it ignoring ASCII case.
pub proof fn law_format_name_round_trip(f: DataSerializationFormat, g: DataSerializationFormat)
    ensures
        lower_seq(f.spec_name()) == lower_seq("Arrow"@) || lower_seq(f.spec_name()) == lower_seq("Json"@),
        lower_seq(f.spec_name()) == lower_seq(g.spec_name()) ==> f == g,
{
    reveal_strlit("Arrow");
    reveal_strlit("Json");
    if f != g {
        assert(lower_seq("Arrow"@).len() != lower_seq("Json"@).len());
    }
}

/// Settings of the executor's result encoding.
#[derive(Clone, Debug)]
pub struct Config {
    pub embucket_version: String,
}

impl Default for Config {
    fn default() -> (r: Self)
        ensures
            r.embucket_version@ == "0.1.0"@,
    {
        Config { embucket_version: "0.1.0".to_string() }
    }
}

impl Config {
    /// The configuration of this build: version "0.1.0".
    /// A result of the given batches, schema and query id.
    pub fn new() -> (r: Result<Config, FormatParseError>)
        ensures
            r matches Ok(c) && c.embucket_version@ == "0.1.0"@,
    {
        Ok(Config { embucket_version: "0.1.0".to_string() })
    }
}

/// The field type an unsigned integer column is given in Arrow results.
pub open spec fn uint_field_type(t: DataType, ps: (i32, i32)) -> DataType {
    match t {
        DataType::UInt64 => DataType::Decimal128(ps.0 as u8, ps.1 as i8),
        DataType::UInt32 => DataType::Int64,
        DataType::UInt16 => DataType::Int32,
        DataType::UInt8 => DataType::Int16,
        _ => t,
    }
}

/// The signed type an unsigned integer array is widened to in Arrow results.
pub open spec fn uint_array_type(t: DataType) -> DataType {
    match t {
        DataType::UInt64 => DataType::Decimal128(38, 0),
        _ => uint_field_type(t, (38, 0)),
    }
}

/// The values of an unsigned column, widened to signed 64-bit integers.
pub open spec fn widened_ints(vals: Seq<Option<u64>>) -> Seq<Option<i64>> {
    vals.map_values(|x: Option<u64>| match x {
        Some(y) => Some(y as i64),
        None => None,
    })
}

/// What an Arrow/JSON conversion of an unsigned integer column gives: in Arrow results
/// each value is carried over unchanged into a wider signed type (128-bit decimal for
/// 64-bit values); JSON results keep the column.
pub open spec fn uint_converted(out: Column, c: Column, json: bool) -> bool {
    if json || !(c.data is UInts) || !is_uint(c.data_type) {
        out == c
    } else if c.data_type == DataType::UInt64 {
        &&& out.data_type == DataType::Decimal128(38, 0)
        &&& out.data matches ColumnData::Decimals(v) && v@ == c.data->UInts_0@.map_values(
            |x: Option<u64>|
                match x {
                    Some(y) => Some(y as i128),
                    None => None,
                },
        )
    } else {
        &&& out.data_type == uint_array_type(c.data_type)
        &&& out.data matches ColumnData::Ints(v) && v@ == widened_ints(c.data->UInts_0@)
    }
}

/// A field with the given name source, type, nullability and metadata.
pub open spec fn field_built(f: Field, src: Field, t: DataType, md: Vec<(String, String)>) -> bool {
    &&& f.name == src.name
    &&& f.data_type == t
    &&& f.nullable == src.nullable
    &&& f.metadata == md
}

/// Widens unsigned integer columns to signed types in Arrow results (64-bit values become
/// 128-bit decimals of the given precision and scale) and pushes the field describing the
/// result; JSON results keep the column and its type.
pub fn convert_uint_to_int_datatypes(
    fields: &mut Vec<Field>,
    field: &Field,
    column: Column,
    metadata: Vec<(String, String)>,
    json: bool,
    precision_scale: (i32, i32),
) -> (r: Column)
    requires
        field.data_type.equiv(&column.data_type),
    ensures
        uint_converted(r, column, json),
        final(fields)@.len() == old(fields)@.len() + 1,
        final(fields)@.take(old(fields)@.len() as int) == old(fields)@,
        field_built(
            final(fields)@.last(),
            *field,
            if json { field.data_type } else { uint_field_type(field.data_type, precision_scale) },
            metadata,
        ),
{
    if json || !is_uint_type(&column.data_type) {
        fields.push(Field { name: field.name.clone(), data_type: field.data_type.copy(), nullable: field.nullable, metadata });
        assert(fields@.take(old(fields)@.len() as int) =~= old(fields)@);
        return column;
    }
    let ftype = match &column.data_type {
        DataType::UInt64 => {
            #[verifier::truncate]
            let p: u8 = precision_scale.0 as u8;
            #[verifier::truncate]
            let s: i8 = precision_scale.1 as i8;
            DataType::Decimal128(p, s)
        },
        DataType::UInt32 => DataType::Int64,
        DataType::UInt16 => DataType::Int32,
        _ => DataType::Int16,
    };
    fields.push(Field { name: field.name.clone(), data_type: ftype, nullable: field.nullable, metadata });
    assert(fields@.take(old(fields)@.len() as int) =~= old(fields)@);
    match column.data {
        ColumnData::UInts(vals) => {
            if column.data_type.same_as(&DataType::UInt64) {
                let mut out: Vec<Option<i128>> = Vec::new();
                let mut i: usize = 0;
                while i < vals.len()
                    invariant
                        i <= vals@.len(),
                        out@ == vals@.take(i as int).map_values(
                            |x: Option<u64>|
                                match x {
                                    Some(y) => Some(y as i128),
                                    None => None,
                                },
                        ),
                    decreases vals@.len() - i,
                {
                    match vals[i] {
                        Some(y) => out.push(Some(y as i128)),
                        None => out.push(None),
                    }
                    proof {
                        assert(vals@.take(i as int + 1) =~= vals@.take(i as int).push(vals@[i as int]));
                    }
                    i = i + 1;
                    assert(out@ =~= vals@.take(i as int).map_values(
                        |x: Option<u64>|
                            match x {
                                Some(y) => Some(y as i128),
                                None => None,
                            },
                    ));
                }
                assert(vals@.take(vals@.len() as int) =~= vals@);
                Column { data_type: DataType::Decimal128(38, 0), data: ColumnData::Decimals(out) }
            } else {
                let mut out: Vec<Option<i64>> = Vec::new();
                let mut i: usize = 0;
                while i < vals.len()
                    invariant
                        i <= vals@.len(),
                        out@ == widened_ints(vals@.take(i as int)),
                    decreases vals@.len() - i,
                {
                    match vals[i] {
                        Some(y) => {
                            #[verifier::truncate]
                            let w: i64 = y as i64;
                            out.push(Some(w));
                        },
                        None => out.push(None),
                    }
                    proof {
                        assert(vals@.take(i as int + 1) =~= vals@.take(i as int).push(vals@[i as int]));
                    }
                    i = i + 1;
                    assert(out@ =~= widened_ints(vals@.take(i as int)));
                }
                assert(vals@.take(vals@.len() as int) =~= vals@);
                let t = match &column.data_type {
                    DataType::UInt32 => DataType::Int64,
                    DataType::UInt16 => DataType::Int32,
                    _ => DataType::Int16,
                };
                Column { data_type: t, data: ColumnData::Ints(out) }
            }
        },
        _ => column,
    }
}

fn is_uint_type(t: &DataType) -> (r: bool)
    ensures
        r == is_uint(*t),
{
    match t {
        DataType::UInt8 | DataType::UInt16 | DataType::UInt32 | DataType::UInt64 => true,
        _ => false,
    }
}


/// What `arrow_cast::cast` gives for one `Decimal128(precision, scale)` value cast to `Utf8`.
pub uninterp spec fn decimal_cast_text(value: i128, precision: u8, scale: i8) -> Seq<char>;

/// `arrow_cast::cast` of a decimal value to text, as the cast does it for each element of a
/// `Decimal128(precision, scale)` array (the array is built with a precision and scale that
/// Arrow accepts). The text is named `decimal_cast_text`; nothing more is claimed of it.
#[verifier::external_body]
fn decimal_to_text(value: i128, precision: u8, scale: i8) -> (r: String)
    requires
        1 <= precision <= 38,
        scale <= precision as int,
    ensures
        r@ == decimal_cast_text(value, precision, scale),
{
    let a = arrow_array::Decimal128Array::from(vec![value]).with_precision_and_scale(precision, scale).unwrap();
    let c = arrow_cast::cast(&a, &arrow_schema::DataType::Utf8).unwrap();
    c.as_any().downcast_ref::<arrow_array::StringArray>().unwrap().value(0).to_string()
}

/// `String::from_utf8`: the decoded text when the bytes are valid UTF-8, otherwise nothing.
#[verifier::external_body]
fn utf8_decode(bytes: &Vec<u8>) -> (r: Option<String>)
    ensures
        r is Some <==> valid_utf8(bytes@),
        r matches Some(t) ==> t@ == decode_utf8(bytes@),
{
    String::from_utf8(bytes.clone()).ok()
}

/// Text of a boolean as Arrow casts it.
pub open spec fn bool_text(b: bool) -> Seq<char> {
    if b {
        "true"@
    } else {
        "false"@
    }
}

/// `out` holds the text of each non-null boolean (upper-cased when asked), null for null.
pub open spec fn bools_as_texts(out: Seq<Option<String>>, vals: Seq<Option<bool>>, upper: bool) -> bool {
    &&& out.len() == vals.len()
    &&& forall|i: int|
        0 <= i < out.len() ==> {
            &&& ((#[trigger] out[i]) is None <==> vals[i] is None)
            &&& (vals[i] is Some ==> out[i]->0@ == if upper {
                upper_seq(bool_text(vals[i]->0))
            } else {
                bool_text(vals[i]->0)
            })
        }
}

/// Casts a boolean column to text ("true"/"false"), upper-cased when `upper_case` is set;
/// nulls stay null.
pub fn to_utf8_array(column: &Column, upper_case: bool) -> (r: Column)
    requires
        column.data is Bools,
    ensures
        r.data_type == DataType::Utf8,
        r.data matches ColumnData::Texts(t) && bools_as_texts(t@, column.data->Bools_0@, upper_case),
{
    match &column.data {
        ColumnData::Bools(vals) => {
            let mut out: Vec<Option<String>> = Vec::new();
            let mut i: usize = 0;
            while i < vals.len()
                invariant
                    i <= vals@.len(),
                    out@.len() == i,
                    forall|j: int|
                        0 <= j < i ==> {
                            &&& ((#[trigger] out@[j]) is None <==> vals@[j] is None)
                            &&& (vals@[j] is Some ==> out@[j]->0@ == if upper_case {
                                upper_seq(bool_text(vals@[j]->0))
                            } else {
                                bool_text(vals@[j]->0)
                            })
                        },
                decreases vals@.len() - i,
            {
                match vals[i] {
                    Some(b) => {
                        let t: &str = if b {
                            "true"
                        } else {
                            "false"
                        };
                        if upper_case {
                            out.push(Some(to_ascii_uppercase(t)));
                        } else {
                            out.push(Some(t.to_string()));
                        }
                    },
                    None => out.push(None),
                }
                i = i + 1;
            }
            Column { data_type: DataType::Utf8, data: ColumnData::Texts(out) }
        },
        _ => {
            assert(false);
            Column { data_type: DataType::Utf8, data: ColumnData::Texts(Vec::new()) }
        },
    }
}

/// What casting a view column to plain text gives: binary values become their UTF-8
/// decoding, or null when they are not valid UTF-8; text values are kept.
pub open spec fn view_converted(out: Column, c: Column) -> bool {
    &&& out.data_type == DataType::Utf8
    &&& match c.data {
        ColumnData::Bytes(vals) => out.data matches ColumnData::Texts(t) && t@.len() == vals@.len()
            && forall|i: int|
            0 <= i < t@.len() ==> {
                &&& ((#[trigger] t@[i]) is Some <==> (vals@[i] is Some && valid_utf8(vals@[i]->0@)))
                &&& (t@[i] is Some ==> t@[i]->0@ == decode_utf8(vals@[i]->0@))
            },
        _ => out.data == c.data,
    }
}

/// Casts a `BinaryView` or `Utf8View` column to `Utf8`.
pub fn cast_view_to_utf8(column: Column) -> (r: Column)
    ensures
        view_converted(r, column),
{
    match column.data {
        ColumnData::Bytes(vals) => {
            let mut out: Vec<Option<String>> = Vec::new();
            let mut i: usize = 0;
            while i < vals.len()
                invariant
                    i <= vals@.len(),
                    out@.len() == i,
                    forall|j: int|
                        0 <= j < i ==> {
                            &&& ((#[trigger] out@[j]) is Some <==> (vals@[j] is Some && valid_utf8(
                                vals@[j]->0@,
                            )))
                            &&& (out@[j] is Some ==> out@[j]->0@ == decode_utf8(vals@[j]->0@))
                        },
                decreases vals@.len() - i,
            {
                match &vals[i] {
                    Some(b) => out.push(utf8_decode(b)),
                    None => out.push(None),
                }
                i = i + 1;
            }
            Column { data_type: DataType::Utf8, data: ColumnData::Texts(out) }
        },
        other => Column { data_type: DataType::Utf8, data: other },
    }
}

/// `out` holds the cast text of each non-null decimal, null for null.
pub open spec fn decimals_as_texts(out: Seq<Option<String>>, vals: Seq<Option<i128>>, p: u8, s: i8) -> bool {
    &&& out.len() == vals.len()
    &&& forall|i: int|
        0 <= i < out.len() ==> {
            &&& ((#[trigger] out[i]) is None <==> vals[i] is None)
            &&& (vals[i] is Some ==> out[i]->0@ == decimal_cast_text(vals[i]->0, p, s))
        }
}

/// Casts a decimal column to its text.
pub fn cast_decimal_to_utf8(column: &Column) -> (r: Column)
    requires
        column.data_type matches DataType::Decimal128(p, s) && 1 <= p <= 38 && s <= p as int,
        column.data is Decimals,
    ensures
        r.data_type == DataType::Utf8,
        r.data matches ColumnData::Texts(t) && decimals_as_texts(
            t@,
            column.data->Decimals_0@,
            column.data_type->Decimal128_0,
            column.data_type->Decimal128_1,
        ),
{
    let (p, s) = match &column.data_type {
        DataType::Decimal128(p, s) => (*p, *s),
        _ => {
            assert(false);
            (38u8, 0i8)
        },
    };
    match &column.data {
        ColumnData::Decimals(vals) => {
            let mut out: Vec<Option<String>> = Vec::new();
            let mut i: usize = 0;
            while i < vals.len()
                invariant
                    1 <= p <= 38,
                    s <= p as int,
                    i <= vals@.len(),
                    out@.len() == i,
                    forall|j: int|
                        0 <= j < i ==> {
                            &&& ((#[trigger] out@[j]) is None <==> vals@[j] is None)
                            &&& (vals@[j] is Some ==> out@[j]->0@ == decimal_cast_text(vals@[j]->0, p, s))
                        },
                decreases vals@.len() - i,
            {
                match vals[i] {
                    Some(v) => out.push(Some(decimal_to_text(v, p, s))),
                    None => out.push(None),
                }
                i = i + 1;
            }
            Column { data_type: DataType::Utf8, data: ColumnData::Texts(out) }
        },
        _ => {
            assert(false);
            Column { data_type: DataType::Utf8, data: ColumnData::Texts(Vec::new()) }
        },
    }
}

/// The child a union column is read as: the one named by the first row whose type id
/// points at a non-empty child.
pub open spec fn first_nonempty_from(ids: Seq<i8>, children: Seq<Column>, i: int) -> Option<int>
    decreases ids.len() - i,
{
    if i < 0 || i >= ids.len() {
        None
    } else if children[ids[i] as int].len() > 0 {
        Some(ids[i] as int)
    } else {
        first_nonempty_from(ids, children, i + 1)
    }
}

/// Finds the first row's child that is not empty; gives its data type and position.
pub fn first_non_empty_type(type_ids: &Vec<i8>, children: &Vec<Column>) -> (r: Option<(DataType, usize)>)
    requires
        forall|i: int| 0 <= i < type_ids@.len() ==> 0 <= #[trigger] type_ids@[i] < children@.len(),
    ensures
        match first_nonempty_from(type_ids@, children@, 0) {
            Some(k) => r matches Some(p) && p.1 == k && p.0 == children@[k].data_type,
            None => r is None,
        },
        r matches Some(p) ==> p.1 < children@.len(),
{
    let mut i: usize = 0;
    while i < type_ids.len()
        invariant
            i <= type_ids@.len(),
            forall|j: int| 0 <= j < type_ids@.len() ==> 0 <= #[trigger] type_ids@[j] < children@.len(),
            first_nonempty_from(type_ids@, children@, 0) == first_nonempty_from(type_ids@, children@, i as int),
        decreases type_ids@.len() - i,
    {
        let id = type_ids[i];
        let k: usize = id as usize;
        if children[k].data.num_rows() > 0 {
            return Some((children[k].data_type.copy(), k));
        }
        i = i + 1;
    }
    None
}

/// Pushes the field describing a converted column (the source field's name and
/// nullability, the converted type, the given metadata) and gives the column back.
pub fn convert_and_push(
    converted: Column,
    field: &Field,
    metadata: Vec<(String, String)>,
    fields: &mut Vec<Field>,
) -> (r: Column)
    ensures
        r == converted,
        final(fields)@.len() == old(fields)@.len() + 1,
        final(fields)@.take(old(fields)@.len() as int) == old(fields)@,
        field_built(final(fields)@.last(), *field, converted.data_type, metadata),
{
    fields.push(Field { name: field.name.clone(), data_type: converted.data_type.copy(), nullable: field.nullable, metadata });
    assert(fields@.take(old(fields)@.len() as int) =~= old(fields)@);
    converted
}

/// What converting one column for the client gives.
pub open spec fn column_converted(out: Column, c: Column, json: bool) -> bool {
    match c.data_type {
        DataType::Union => match c.data {
            ColumnData::Union(ids, ch) => match first_nonempty_from(ids@, ch@, 0) {
                Some(k) => out == ch@[k],
                None => out == c,
            },
            _ => out == c,
        },
        DataType::Timestamp(u, _) => c.data is Ints ==> timestamp_converted(out, c.data->Ints_0@, u, json),
        DataType::Date32 | DataType::Date64 => date_converted(out, c, json),
        DataType::Time32(u) | DataType::Time64(u) => c.data is Ints ==> time_converted(out, c.data->Ints_0@, u, json),
        DataType::UInt8 | DataType::UInt16 | DataType::UInt32 | DataType::UInt64 => uint_converted(out, c, json),
        DataType::BinaryView | DataType::Utf8View => view_converted(out, c),
        DataType::Decimal128(p, s) => if json && c.data is Decimals {
            &&& out.data_type == DataType::Utf8
            &&& out.data matches ColumnData::Texts(t) && decimals_as_texts(t@, c.data->Decimals_0@, p, s)
        } else {
            out == c
        },
        DataType::Boolean => if json && c.data is Bools {
            &&& out.data_type == DataType::Utf8
            &&& out.data matches ColumnData::Texts(t) && bools_as_texts(t@, c.data->Bools_0@, true)
        } else {
            out == c
        },
        _ => out == c,
    }
}

/// The type of the field that describes a converted column.
pub open spec fn converted_field_type(out: Column, c: Column, json: bool, ps: (i32, i32)) -> DataType {
    if is_uint(c.data_type) && !json {
        uint_field_type(c.data_type, ps)
    } else {
        out.data_type
    }
}

/// The precision and scale an unsigned column is widened with: those of the description
/// of its field in the result's schema, 38 and 0 when unknown.
pub open spec fn described_precision_scale(f: Field) -> (i32, i32) {
    (spec_precision(f.data_type).unwrap_or(38), spec_scale(f.data_type).unwrap_or(0))
}

fn format_of(json: bool) -> (f: DataSerializationFormat)
    ensures
        (f == DataSerializationFormat::Json) == json,
{
    if json {
        DataSerializationFormat::Json
    } else {
        DataSerializationFormat::Arrow
    }
}

/// Converts one column of a batch and pushes the field that describes it.
pub fn convert_column(
    column: Column,
    field: &Field,
    metadata: Vec<(String, String)>,
    fields: &mut Vec<Field>,
    json: bool,
    precision_scale: (i32, i32),
) -> (r: Column)
    requires
        column.wf(),
        field.data_type.equiv(&column.data_type),
    ensures
        column_converted(r, column, json),
        final(fields)@.len() == old(fields)@.len() + 1,
        final(fields)@.take(old(fields)@.len() as int) == old(fields)@,
        field_built(final(fields)@.last(), *field, converted_field_type(r, column, json, precision_scale), metadata),
{
    let ghost c0 = column;
    match column.data_type {
        DataType::Union => {
            match column.data {
                ColumnData::Union(ids, mut children) => {
                    match first_non_empty_type(&ids, &children) {
                        Some((_t, k)) => {
                            let child = children.remove(k);
                            convert_and_push(child, field, metadata, fields)
                        },
                        None => {
                            let c = Column { data_type: DataType::Union, data: ColumnData::Union(ids, children) };
                            assert(c == c0);
                            convert_and_push(c, field, metadata, fields)
                        },
                    }
                },
                other => {
                    let c = Column { data_type: DataType::Union, data: other };
                    convert_and_push(c, field, metadata, fields)
                },
            }
        },
        DataType::Timestamp(u, _) => {
            let c = convert_timestamp_to_struct(column, u, format_of(json));
            convert_and_push(c, field, metadata, fields)
        },
        DataType::Date32 | DataType::Date64 => {
            let c = convert_date(column, format_of(json));
            convert_and_push(c, field, metadata, fields)
        },
        DataType::Time32(u) | DataType::Time64(u) => {
            let c = convert_time(column, u, format_of(json));
            convert_and_push(c, field, metadata, fields)
        },
        DataType::UInt8 | DataType::UInt16 | DataType::UInt32 | DataType::UInt64 => {
            convert_uint_to_int_datatypes(fields, field, column, metadata, json, precision_scale)
        },
        DataType::BinaryView | DataType::Utf8View => {
            let c = cast_view_to_utf8(column);
            convert_and_push(c, field, metadata, fields)
        },
        DataType::Decimal128(_, _) => {
            if json {
                let c = cast_decimal_to_utf8(&column);
                convert_and_push(c, field, metadata, fields)
            } else {
                convert_and_push(column, field, metadata, fields)
            }
        },
        DataType::Boolean => {
            if json {
                let c = to_utf8_array(&column, true);
                convert_and_push(c, field, metadata, fields)
            } else {
                convert_and_push(column, field, metadata, fields)
            }
        },
        _ => convert_and_push(column, field, metadata, fields),
    }
}


/// The batches of a query's result, with the schema that describes them.
#[derive(Debug)]
pub struct QueryResult {
    pub records: Vec<RecordBatch>,
    /// The schema of the result; it describes the columns even when there are no batches.
    pub schema: Vec<Field>,
    pub query_id: i64,
}

impl QueryResult {
    pub fn new(records: Vec<RecordBatch>, schema: Vec<Field>, query_id: i64) -> (r: QueryResult)
        ensures
            r.records == records,
            r.schema == schema,
            r.query_id == query_id,
    {
        QueryResult { records, schema, query_id }
    }

    /// The same result under another query id.
    pub fn with_query_id(self, new_id: i64) -> (r: QueryResult)
        ensures
            r.records == self.records,
            r.schema == self.schema,
            r.query_id == new_id,
    {
        QueryResult { query_id: new_id, ..self }
    }

    /// Descriptions of the result's columns, from its schema.
    pub fn column_info(&self) -> (v: Vec<ColumnInfo>)
        ensures
            v@.len() == self.schema@.len(),
            forall|i: int| 0 <= i < v@.len() ==> (#[trigger] v@[i]).describes(self.schema@[i]),
    {
        ColumnInfo::from_schema(&self.schema)
    }
}

/// `fields` and `columns` are what converting batch `b` gives: each column converted, each
/// field named and nullable as before, typed after the conversion, and carrying the
/// metadata of its column description.
pub open spec fn batch_converted(
    fields: Seq<Field>,
    columns: Seq<Column>,
    b: RecordBatch,
    result_schema: Seq<Field>,
    json: bool,
) -> bool {
    &&& columns.len() == b.columns@.len()
    &&& fields.len() == b.columns@.len()
    &&& forall|i: int|
        0 <= i < columns.len() ==> {
            &&& column_converted(#[trigger] columns[i], b.columns@[i], json)
            &&& fields[i].name == b.schema@[i].name
            &&& fields[i].nullable == b.schema@[i].nullable
            &&& fields[i].data_type == converted_field_type(
                columns[i],
                b.columns@[i],
                json,
                described_precision_scale(result_schema[i]),
            )
            &&& metadata_view(fields[i].metadata@) == described_metadata(result_schema[i])
        }
}

/// Converts every batch of a result for the client: timestamps, dates and times become
/// text (JSON) or plain integers (Arrow), unsigned integers are widened (Arrow), view
/// columns and, in JSON, decimals and booleans become text, and a union column is read as
/// its first non-empty child. Each field gets its column's metadata. It fails exactly when
/// a converted batch is one that Arrow refuses.
#[verifier::loop_isolation(false)]
pub fn convert_record_batches(query_result: QueryResult, data_format: DataSerializationFormat) -> (r: Result<Vec<RecordBatch>, BatchError>)
    requires
        forall|k: int|
            0 <= k < query_result.records@.len() ==> {
                &&& (#[trigger] query_result.records@[k]).wf()
                &&& query_result.records@[k].columns@.len() <= query_result.schema@.len()
            },
    ensures
        ({
            let infos = query_result.schema@;
            let json = data_format == DataSerializationFormat::Json;
            &&& r matches Ok(v) ==> {
                &&& v@.len() == query_result.records@.len()
                &&& forall|k: int|
                    0 <= k < v@.len() ==> {
                        &&& batch_converted(
                            (#[trigger] v@[k]).schema@,
                            v@[k].columns@,
                            query_result.records@[k],
                            infos,
                            json,
                        )
                        &&& RecordBatch::valid_parts(v@[k].schema@, v@[k].columns@)
                    }
            }
            &&& r is Err ==> exists|k: int, fs: Seq<Field>, cs: Seq<Column>|
                0 <= k < query_result.records@.len() && #[trigger] batch_converted(
                    fs,
                    cs,
                    query_result.records@[k],
                    infos,
                    json,
                ) && !RecordBatch::valid_parts(fs, cs)
        }),
{
    let infos = query_result.column_info();
    let ghost spec_infos = query_result.schema@;
    let json = data_format == DataSerializationFormat::Json;
    let QueryResult { records, schema, query_id: _ } = query_result;
    let ghost orig = records@;
    assert(orig == query_result.records@);
    let mut records = records;
    let mut converted: Vec<RecordBatch> = Vec::new();
    while records.len() > 0
        invariant
            records@ == orig.subrange(converted@.len() as int, orig.len() as int),
            converted@.len() <= orig.len(),
            infos@.len() == schema@.len(),
            spec_infos.len() == schema@.len(),
            forall|i: int| 0 <= i < infos@.len() ==> (#[trigger] infos@[i]).describes(schema@[i]),
            spec_infos == schema@,
            forall|k: int|
                0 <= k < orig.len() ==> {
                    &&& (#[trigger] orig[k]).wf()
                    &&& orig[k].columns@.len() <= schema@.len()
                },
            forall|k: int|
                0 <= k < converted@.len() ==> {
                    &&& batch_converted((#[trigger] converted@[k]).schema@, converted@[k].columns@, orig[k], spec_infos, json)
                    &&& RecordBatch::valid_parts(converted@[k].schema@, converted@[k].columns@)
                },
        decreases records@.len(),
    {
        let batch = records.remove(0);
        let ghost b0 = batch;
        let ghost k = converted@.len() as int;
        assert(b0 == orig[k]);
        let RecordBatch { schema: bschema, columns } = batch;
        let mut columns = columns;
        let mut fields: Vec<Field> = Vec::new();
        let mut cols: Vec<Column> = Vec::new();
        let mut i: usize = 0;
        let n: usize = bschema.len();
        while columns.len() > 0
            invariant
                n == bschema@.len(),
                b0.wf(),
                b0.columns@.len() <= schema@.len(),
                bschema == b0.schema,
                columns@ == b0.columns@.subrange(i as int, b0.columns@.len() as int),
                i <= b0.columns@.len(),
                fields@.len() == i,
                cols@.len() == i,
                infos@.len() == schema@.len(),
                spec_infos.len() == schema@.len(),
                forall|j: int| 0 <= j < infos@.len() ==> (#[trigger] infos@[j]).describes(schema@[j]),
                spec_infos == schema@,
                bschema@.len() == b0.columns@.len(),
                forall|j: int|
                    0 <= j < i ==> {
                        &&& column_converted(#[trigger] cols@[j], b0.columns@[j], json)
                        &&& fields@[j].name == b0.schema@[j].name
                        &&& fields@[j].nullable == b0.schema@[j].nullable
                        &&& fields@[j].data_type == converted_field_type(
                            cols@[j],
                            b0.columns@[j],
                            json,
                            described_precision_scale(spec_infos[j]),
                        )
                        &&& metadata_view(fields@[j].metadata@) == described_metadata(spec_infos[j])
                    },
            decreases columns@.len(),
        {
            let column = columns.remove(0);
            assert(column == b0.columns@[i as int]);
            let info = &infos[i];
            proof {
                lemma_described_metadata(*info, schema@[i as int]);
            }
            let md = info.to_metadata();
            let p: i32 = match info.precision {
                Some(p) => p,
                None => 38,
            };
            let s: i32 = match info.scale {
                Some(s) => s,
                None => 0,
            };
            let ghost before = fields@;
            let c = convert_column(column, &bschema[i], md, &mut fields, json, (p, s));
            assert(fields@[i as int] == fields@.last());
            assert forall|j: int| 0 <= j < i implies fields@[j] == before[j] by {
                assert(fields@.take(i as int)[j] == fields@[j]);
            }
            cols.push(c);
            i = i + 1;
            assert(columns@ =~= b0.columns@.subrange(i as int, b0.columns@.len() as int));
        }
        assert(i == b0.columns@.len());
        let ghost fs = fields@;
        let ghost cs = cols@;
        assert(batch_converted(fs, cs, orig[k], spec_infos, json));
        match RecordBatch::try_new(fields, cols) {
            Ok(b) => {
                converted.push(b);
            },
            Err(e) => {
                assert(batch_converted(fs, cs, query_result.records@[k], query_result.schema@, json)
                    && !RecordBatch::valid_parts(fs, cs));
                return Err(e);
            },
        }
        assert(records@ =~= orig.subrange(converted@.len() as int, orig.len() as int));
    }
    Ok(converted)
}


/// The answer to a statement that created something: one column "count" holding 0.
pub fn created_entity_response(query_id: i64) -> (r: Result<QueryResult, BatchError>)
    ensures
        r matches Ok(q) && q.query_id == query_id && q.schema@.len() == 1 && q.schema@[0].name@ == "count"@
            && q.schema@[0].data_type == DataType::Int64 && !q.schema@[0].nullable && q.records@.len() == 1
            && q.records@[0].columns@.len() == 1 && (q.records@[0].columns@[0].data matches ColumnData::Ints(v)
            && v@ == seq![Some(0i64)]),
{
    let field = Field::new("count".to_string(), DataType::Int64, false);
    let mut schema: Vec<Field> = Vec::new();
    schema.push(field.copy());
    let mut vals: Vec<Option<i64>> = Vec::new();
    vals.push(Some(0));
    let mut cols: Vec<Column> = Vec::new();
    cols.push(Column { data_type: DataType::Int64, data: ColumnData::Ints(vals) });
    let mut bschema: Vec<Field> = Vec::new();
    bschema.push(field);
    let batch = match RecordBatch::try_new(bschema, cols) {
        Ok(b) => b,
        Err(e) => {
            return Err(e);
        },
    };
    let mut records: Vec<RecordBatch> = Vec::new();
    records.push(batch);
    Ok(QueryResult::new(records, schema, query_id))
}

/// The answer to a statement that only has a status: an empty batch with one column
/// "status".
pub fn status_response(query_id: i64) -> (r: Result<QueryResult, BatchError>)
    ensures
        r matches Ok(q) && q.query_id == query_id && q.schema@.len() == 1 && q.schema@[0].name@ == "status"@
            && q.schema@[0].data_type == DataType::Utf8 && !q.schema@[0].nullable && q.records@.len() == 1
            && q.records@[0].columns@.len() == 1 && q.records@[0].columns@[0].len() == 0,
{
    let field = Field::new("status".to_string(), DataType::Utf8, false);
    let mut schema: Vec<Field> = Vec::new();
    schema.push(field.copy());
    let mut cols: Vec<Column> = Vec::new();
    cols.push(Column { data_type: DataType::Utf8, data: ColumnData::Texts(Vec::new()) });
    let mut bschema: Vec<Field> = Vec::new();
    bschema.push(field);
    let batch = match RecordBatch::try_new(bschema, cols) {
        Ok(b) => b,
        Err(e) => {
            return Err(e);
        },
    };
    let mut records: Vec<RecordBatch> = Vec::new();
    records.push(batch);
    Ok(QueryResult::new(records, schema, query_id))
}


/// Converting a column that is not a union keeps its number of rows.
pub proof fn lemma_converted_len(out: Column, c: Column, json: bool)
    requires
        c.wf(),
        c.data_type != DataType::Union,
        column_converted(out, c, json),
    ensures
        out.len() == c.len(),
{
    match c.data_type {
        DataType::Timestamp(u, _) => {
            if c.data is Ints {
                if json {
                    assert(out.data is Texts);
                }
            }
        },
        DataType::Time32(u) | DataType::Time64(u) => {
            if c.data is Ints {
                if json {
                    assert(out.data is Texts);
                }
            }
        },
        DataType::UInt8 | DataType::UInt16 | DataType::UInt32 | DataType::UInt64 => {},
        _ => {},
    }
}

/// A converted batch has as many rows as the batch it comes from, when the batch has a
/// column that is not a union (a union column becomes its first non-empty child, which
/// may have another length).
pub proof fn law_convert_keeps_row_counts(
    b: RecordBatch,
    fields: Seq<Field>,
    columns: Seq<Column>,
    result_schema: Seq<Field>,
    json: bool,
    i: int,
)
    requires
        b.wf(),
        batch_converted(fields, columns, b, result_schema, json),
        RecordBatch::valid_parts(fields, columns),
        0 <= i < b.columns@.len(),
        b.columns@[i].data_type != DataType::Union,
    ensures
        columns.len() == b.columns@.len(),
        columns[0].len() == b.num_rows(),
{
    assert(column_converted(columns[i], b.columns@[i], json));
    assert(b.columns@[i].wf());
    lemma_converted_len(columns[i], b.columns@[i], json);
    assert(columns[i].len() == columns[0].len());
    assert(b.columns@[i].len() == b.columns@[0].len());
}

} // verus!
