//! Planning of SQL column types into Arrow types, with Snowflake's `VARIANT`,
//! `TIMESTAMP_*` and `NUMBER` types.
use vstd::prelude::*;
use crate::types::{DataType, TimeUnit};
use crate::text::{chars_of, str_to_uppercase, unicode_upper, str_eq};
use crate::sql::texts;

verus! {

/// A SQL data type as the parser gives it, as far as planning reads it.
#[derive(Debug)]
pub enum SqlType {
    Int32,
    Int64,
    UInt32,
    Float(Option<u64>),
    Float32,
    Float64,
    Blob(Option<u64>),
    Binary(Option<u64>),
    Varbinary(Option<u64>),
    Json,
    Datetime(Option<u64>),
    /// A type by name, as the name is written, with its arguments.
    Custom(String, Vec<String>),
    /// Any other type, left to the default planner.
    Other,
}

/// What planning a SQL type gives.
#[derive(Debug, PartialEq, Eq)]
pub enum PlannedType {
    /// The Arrow type.
    Type(DataType),
    /// A decimal of this precision and scale, to be made by the SQL planner's decimal rules.
    Decimal(Option<u64>, Option<u64>),
    /// Not a type this planner handles.
    Unplanned,
}

/// Why a SQL type is refused.
#[derive(Debug, PartialEq, Eq)]
pub enum PlanError {
    /// A `NUMBER` precision that is not an unsigned integer.
    InvalidPrecision(String),
    /// A `NUMBER` scale that is not an unsigned integer.
    InvalidScale(String),
    /// A `NUMBER` with more than two arguments.
    InvalidNumberFormat(Vec<String>),
    /// A timestamp precision other than 0, 3, 6 or 9.
    UnsupportedPrecision(Option<u64>),
}

/// An ASCII digit.
pub open spec fn is_digit(c: char) -> bool {
    '0' <= c && c <= '9'
}

/// The value of a sequence of decimal digits.
pub open spec fn digits_value(s: Seq<char>) -> int
    decreases s.len(),
{
    if s.len() == 0 {
        0
    } else {
        digits_value(s.drop_last()) * 10 + (s.last() as int - '0' as int)
    }
}

/// A text without its leading `+`, if it has one.
pub open spec fn unsigned_digits(s: Seq<char>) -> Seq<char> {
    if s.len() > 0 && s[0] == '+' {
        s.drop_first()
    } else {
        s
    }
}

/// Every character is a decimal digit.
pub open spec fn all_digits(d: Seq<char>) -> bool {
    forall|i: int| 0 <= i < d.len() ==> is_digit(#[trigger] d[i])
}

/// What `str::parse::<u64>` gives: an optional `+` and one or more decimal digits whose
/// value fits in a `u64`; anything else is refused.
pub open spec fn parse_u64_spec(s: Seq<char>) -> Option<u64> {
    let d = unsigned_digits(s);
    if d.len() > 0 && all_digits(d) && digits_value(d) <= u64::MAX {
        Some(digits_value(d) as u64)
    } else {
        None
    }
}

proof fn lemma_digits_value_nonneg(s: Seq<char>)
    requires
        forall|i: int| 0 <= i < s.len() ==> is_digit(#[trigger] s[i]),
    ensures
        digits_value(s) >= 0,
    decreases s.len(),
{
    if s.len() > 0 {
        lemma_digits_value_nonneg(s.drop_last());
    }
}

/// Parses an unsigned 64-bit integer as `str::parse::<u64>` does.
pub fn parse_u64(s: &str) -> (r: Option<u64>)
    ensures
        r == parse_u64_spec(s@),
{
    let cs = chars_of(s);
    let start: usize = if cs.len() > 0 && cs[0] == '+' { 1 } else { 0 };
    let ghost d = unsigned_digits(s@);
    if start >= cs.len() {
        proof {
            assert(d.len() == 0);
        }
        return None;
    }
    let mut value: u64 = 0;
    let mut overflow = false;
    let mut i: usize = start;
    while i < cs.len()
        invariant
            start <= i <= cs@.len(),
            cs@ == s@,
            d == cs@.subrange(start as int, cs@.len() as int),
            d == unsigned_digits(s@),
            forall|k: int| 0 <= k < i - start ==> is_digit(#[trigger] d[k]),
            !overflow ==> value == digits_value(d.take(i - start)),
            overflow ==> digits_value(d.take(i - start)) > u64::MAX,
        decreases cs@.len() - i,
    {
        let c = cs[i];
        if !('0' <= c && c <= '9') {
            proof {
                assert(d[i - start] == c);
                assert(!is_digit(d[i - start]));
                assert(!all_digits(d));
            }
            return None;
        }
        let digit = (c as u32 - '0' as u32) as u64;
        proof {
            assert(d.take(i - start + 1).drop_last() == d.take(i - start));
            assert(d.take(i - start + 1).last() == c);
            if overflow {
                assert(forall|k: int| 0 <= k < i - start ==> is_digit(#[trigger] d.take(i - start)[k]));
                lemma_digits_value_nonneg(d.take(i - start));
            }
        }
        if !overflow {
            if value > (u64::MAX - digit) / 10 {
                overflow = true;
            } else {
                value = value * 10 + digit;
            }
        }
        i = i + 1;
    }
    proof {
        assert(d.take(d.len() as int) == d);
    }
    if overflow {
        None
    } else {
        Some(value)
    }
}

/// The time unit of a timestamp precision: whole seconds, milliseconds, or microseconds
/// for 6, 9 or no precision (nanoseconds are kept as microseconds, as Iceberg tables
/// store them).
pub open spec fn timestamp_unit(precision: Option<u64>) -> Option<TimeUnit> {
    match precision {
        Some(0) => Some(TimeUnit::Second),
        Some(3) => Some(TimeUnit::Millisecond),
        None => Some(TimeUnit::Microsecond),
        Some(6) => Some(TimeUnit::Microsecond),
        Some(9) => Some(TimeUnit::Microsecond),
        _ => None,
    }
}

/// The time unit of a timestamp precision.
pub fn parse_timestamp_precision(precision: Option<u64>) -> (r: Result<TimeUnit, PlanError>)
    ensures
        timestamp_unit(precision) matches Some(u) ==> r == Ok::<TimeUnit, PlanError>(u),
        timestamp_unit(precision) is None ==> r == Err::<TimeUnit, PlanError>(
            PlanError::UnsupportedPrecision(precision),
        ),
{
    match precision {
        Some(0) => Ok(TimeUnit::Second),
        Some(3) => Ok(TimeUnit::Millisecond),
        None => Ok(TimeUnit::Microsecond),
        Some(6) => Ok(TimeUnit::Microsecond),
        Some(9) => Ok(TimeUnit::Microsecond),
        _ => Err(PlanError::UnsupportedPrecision(precision)),
    }
}

/// The timestamp type of a precision.
pub open spec fn timestamp_plan(precision: Option<u64>, r: Result<PlannedType, PlanError>) -> bool {
    match timestamp_unit(precision) {
        Some(u) => r == Ok::<PlannedType, PlanError>(PlannedType::Type(DataType::Timestamp(u, None))),
        None => r == Err::<PlannedType, PlanError>(PlanError::UnsupportedPrecision(precision)),
    }
}

/// How a named type is planned, from its upper-cased name and its arguments.
pub open spec fn custom_plan(name: Seq<char>, args: Seq<Seq<char>>, r: Result<PlannedType, PlanError>) -> bool {
    if name == "VARIANT"@ {
        r == Ok::<PlannedType, PlanError>(PlannedType::Type(DataType::Utf8))
    } else if name == "TIMESTAMP_NTZ"@ || name == "TIMESTAMP_LTZ"@ || name == "TIMESTAMP_TZ"@ {
        timestamp_plan(if args.len() > 0 { parse_u64_spec(args[0]) } else { None }, r)
    } else if name == "NUMBER"@ {
        if args.len() == 0 {
            r == Ok::<PlannedType, PlanError>(PlannedType::Decimal(Some(38), None))
        } else if args.len() <= 2 && parse_u64_spec(args[0]) is None {
            r matches Err(PlanError::InvalidPrecision(t)) && t@ == args[0]
        } else if args.len() == 1 {
            r == Ok::<PlannedType, PlanError>(PlannedType::Decimal(parse_u64_spec(args[0]), None))
        } else if args.len() == 2 && parse_u64_spec(args[1]) is None {
            r matches Err(PlanError::InvalidScale(t)) && t@ == args[1]
        } else if args.len() == 2 {
            r == Ok::<PlannedType, PlanError>(
                PlannedType::Decimal(parse_u64_spec(args[0]), parse_u64_spec(args[1])),
            )
        } else {
            r matches Err(PlanError::InvalidNumberFormat(v)) && texts(v@) == args
        }
    } else {
        r == Ok::<PlannedType, PlanError>(PlannedType::Unplanned)
    }
}

/// How a SQL type is planned.
pub open spec fn type_plan(t: SqlType, r: Result<PlannedType, PlanError>) -> bool {
    match t {
        SqlType::Int32 => r == Ok::<PlannedType, PlanError>(PlannedType::Type(DataType::Int32)),
        SqlType::Int64 => r == Ok::<PlannedType, PlanError>(PlannedType::Type(DataType::Int64)),
        SqlType::UInt32 => r == Ok::<PlannedType, PlanError>(PlannedType::Type(DataType::UInt32)),
        SqlType::Float(_) | SqlType::Float32 => r == Ok::<PlannedType, PlanError>(
            PlannedType::Type(DataType::Float32),
        ),
        SqlType::Float64 => r == Ok::<PlannedType, PlanError>(PlannedType::Type(DataType::Float64)),
        SqlType::Blob(_) | SqlType::Binary(_) | SqlType::Varbinary(_) => r == Ok::<PlannedType, PlanError>(
            PlannedType::Type(DataType::Binary),
        ),
        SqlType::Json => r == Ok::<PlannedType, PlanError>(PlannedType::Type(DataType::Utf8)),
        SqlType::Datetime(p) => timestamp_plan(p, r),
        SqlType::Custom(name, args) => custom_plan(unicode_upper(name@), texts(args@), r),
        SqlType::Other => r == Ok::<PlannedType, PlanError>(PlannedType::Unplanned),
    }
}

fn copy_strings(v: &Vec<String>) -> (r: Vec<String>)
    ensures
        r@ == v@,
{
    let mut r: Vec<String> = Vec::new();
    let mut i: usize = 0;
    while i < v.len()
        invariant
            i <= v@.len(),
            r@ == v@.take(i as int),
        decreases v@.len() - i,
    {
        r.push(v[i].clone());
        proof {
            assert(v@.take(i as int + 1) == v@.take(i as int).push(v@[i as int]));
        }
        i = i + 1;
    }
    proof {
        assert(v@.take(v@.len() as int) == v@);
    }
    r
}

fn plan_timestamp(precision: Option<u64>) -> (r: Result<PlannedType, PlanError>)
    ensures
        timestamp_plan(precision, r),
{
    match parse_timestamp_precision(precision) {
        Ok(u) => Ok(PlannedType::Type(DataType::Timestamp(u, None))),
        Err(e) => Err(e),
    }
}

fn plan_number(args: &Vec<String>) -> (r: Result<PlannedType, PlanError>)
    ensures
        custom_plan("NUMBER"@, texts(args@), r),
{
    proof {
        reveal_strlit("NUMBER");
        reveal_strlit("VARIANT");
        reveal_strlit("TIMESTAMP_NTZ");
        reveal_strlit("TIMESTAMP_LTZ");
        reveal_strlit("TIMESTAMP_TZ");
        assert("NUMBER"@.len() == 6);
        assert("VARIANT"@.len() == 7);
        assert("TIMESTAMP_NTZ"@.len() == 13);
        assert("TIMESTAMP_LTZ"@.len() == 13);
        assert("TIMESTAMP_TZ"@.len() == 12);
        assert("NUMBER"@ != "VARIANT"@);
        assert("NUMBER"@ != "TIMESTAMP_NTZ"@);
        assert("NUMBER"@ != "TIMESTAMP_LTZ"@);
        assert("NUMBER"@ != "TIMESTAMP_TZ"@);
        assert(texts(args@).len() == args@.len());
        assert(forall|i: int| 0 <= i < args@.len() ==> #[trigger] texts(args@)[i] == args@[i]@);
    }
    if args.len() == 0 {
        return Ok(PlannedType::Decimal(Some(38), None));
    }
    if args.len() > 2 {
        return Err(PlanError::InvalidNumberFormat(copy_strings(args)));
    }
    let precision = match parse_u64(args[0].as_str()) {
        Some(p) => p,
        None => {
            return Err(PlanError::InvalidPrecision(args[0].clone()));
        },
    };
    if args.len() == 1 {
        return Ok(PlannedType::Decimal(Some(precision), None));
    }
    match parse_u64(args[1].as_str()) {
        Some(s) => Ok(PlannedType::Decimal(Some(precision), Some(s))),
        None => Err(PlanError::InvalidScale(args[1].clone())),
    }
}

/// The type planner for Snowflake's SQL types.
#[derive(Debug)]
pub struct CustomTypePlanner {}

impl CustomTypePlanner {
    /// Plans a SQL type: integers and floats to their Arrow types, binary types to
    /// `Binary`, `JSON` and `VARIANT` to text, `DATETIME` and the `TIMESTAMP_*` types to
    /// timestamps of their precision's unit, and `NUMBER(p, s)` to a decimal of that
    /// precision and scale (38 and none by default); any other type is left unplanned.
    pub fn plan_type(&self, sql_type: &SqlType) -> (r: Result<PlannedType, PlanError>)
        ensures
            type_plan(*sql_type, r),
            match *sql_type {
                SqlType::Custom(name, args) => crate::text::ascii_seq(name@) ==> custom_plan(
                    crate::text::upper_seq(name@),
                    texts(args@),
                    r,
                ),
                _ => true,
            },
    {
        proof {
            reveal_strlit("NUMBER");
            reveal_strlit("VARIANT");
            reveal_strlit("TIMESTAMP_NTZ");
            reveal_strlit("TIMESTAMP_LTZ");
            reveal_strlit("TIMESTAMP_TZ");
        }
        match sql_type {
            SqlType::Int32 => Ok(PlannedType::Type(DataType::Int32)),
            SqlType::Int64 => Ok(PlannedType::Type(DataType::Int64)),
            SqlType::UInt32 => Ok(PlannedType::Type(DataType::UInt32)),
            SqlType::Float(_) | SqlType::Float32 => Ok(PlannedType::Type(DataType::Float32)),
            SqlType::Float64 => Ok(PlannedType::Type(DataType::Float64)),
            SqlType::Blob(_) | SqlType::Binary(_) | SqlType::Varbinary(_) => Ok(PlannedType::Type(DataType::Binary)),
            SqlType::Json => Ok(PlannedType::Type(DataType::Utf8)),
            SqlType::Datetime(p) => plan_timestamp(*p),
            SqlType::Custom(name, args) => {
                let upper = str_to_uppercase(name.as_str());
                if str_eq(upper.as_str(), "VARIANT") {
                    Ok(PlannedType::Type(DataType::Utf8))
                } else if str_eq(upper.as_str(), "TIMESTAMP_NTZ") || str_eq(upper.as_str(), "TIMESTAMP_LTZ")
                    || str_eq(upper.as_str(), "TIMESTAMP_TZ") {
                    let p = if args.len() > 0 { parse_u64(args[0].as_str()) } else { None };
                    plan_timestamp(p)
                } else if str_eq(upper.as_str(), "NUMBER") {
                    plan_number(args)
                } else {
                    Ok(PlannedType::Unplanned)
                }
            },
            SqlType::Other => Ok(PlannedType::Unplanned),
        }
    }
}

/// The width in bits and the signedness of an Arrow integer type.
pub open spec fn arrow_int_width(d: DataType) -> Option<(nat, bool)> {
    match d {
        DataType::Int8 => Some((8nat, true)),
        DataType::Int16 => Some((16nat, true)),
        DataType::Int32 => Some((32nat, true)),
        DataType::Int64 => Some((64nat, true)),
        DataType::UInt8 => Some((8nat, false)),
        DataType::UInt16 => Some((16nat, false)),
        DataType::UInt32 => Some((32nat, false)),
        DataType::UInt64 => Some((64nat, false)),
        _ => None,
    }
}

/// The width in bits and the signedness of a SQL integer type.
pub open spec fn sql_int_width(t: SqlType) -> Option<(nat, bool)> {
    match t {
        SqlType::Int32 => Some((32nat, true)),
        SqlType::Int64 => Some((64nat, true)),
        SqlType::UInt32 => Some((32nat, false)),
        _ => None,
    }
}

/// The width in bits of an Arrow floating-point type.
pub open spec fn arrow_float_width(d: DataType) -> Option<nat> {
    match d {
        DataType::Float16 => Some(16nat),
        DataType::Float32 => Some(32nat),
        DataType::Float64 => Some(64nat),
        _ => None,
    }
}

/// The width in bits of a SQL floating-point type that fixes it.
pub open spec fn sql_float_width(t: SqlType) -> Option<nat> {
    match t {
        SqlType::Float32 => Some(32nat),
        SqlType::Float64 => Some(64nat),
        _ => None,
    }
}

/// An Arrow type that holds bytes.
pub open spec fn is_arrow_binary(d: DataType) -> bool {
    d is Binary || d is BinaryView || d is LargeBinary
}

/// An Arrow type that holds text.
pub open spec fn is_arrow_text(d: DataType) -> bool {
    d is Utf8 || d is Utf8View || d is LargeUtf8
}

/// Planning never changes what a column holds: each SQL integer type becomes the Arrow
/// integer type of the same width and signedness, each SQL float of a fixed width the Arrow
/// float of that width, the binary types a binary type, `JSON` a text type, and
/// `DATETIME` a timestamp without a time zone (where its precision is accepted).
pub proof fn law_plan_keeps_width_and_kind(t: SqlType, r: Result<PlannedType, PlanError>)
    requires
        type_plan(t, r),
    ensures
        sql_int_width(t) is Some ==> (r matches Ok(PlannedType::Type(d)) && arrow_int_width(d) == sql_int_width(t)),
        sql_float_width(t) is Some ==> (r matches Ok(PlannedType::Type(d)) && arrow_float_width(d)
            == sql_float_width(t)),
        t is Blob || t is Binary || t is Varbinary ==> (r matches Ok(PlannedType::Type(d)) && is_arrow_binary(d)),
        t is Json ==> (r matches Ok(PlannedType::Type(d)) && is_arrow_text(d)),
        t is Datetime && r is Ok ==> (r matches Ok(PlannedType::Type(DataType::Timestamp(_, None)))),
{
}

} // verus!
