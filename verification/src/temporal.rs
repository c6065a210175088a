//! Text and integer forms of timestamp, time and date columns.
use vstd::prelude::*;
use crate::convert::DataSerializationFormat;
use chrono::DateTime;
use crate::types::{Column, ColumnData, DataType, TimeUnit, int_type_bounds};
use crate::text::push_char;
use crate::numtext::{int_text, nat_text, zeros, push_int_text, push_nat_text, lemma_nat_text_nonempty};

verus! {

/// Whether a day number counted from 1970-01-01 lies in the range of dates that chrono
/// represents (262143 BCE to 262142 CE).
pub open spec fn chrono_day_in_range(day: int) -> bool {
    -96465292 <= day <= 95026236
}

/// Seconds and sub-second part of a count of `per_second` units since the epoch, or the
/// epoch itself when the date is out of chrono's range.
pub open spec fn split_or_epoch(v: int, per_second: int) -> (int, int) {
    let secs = v / per_second;
    if chrono_day_in_range(secs / 86400) {
        (secs, v % per_second)
    } else {
        (0, 0)
    }
}

/// `DateTime::<Utc>::from_timestamp(secs, 0)`, defaulting to the epoch when out of range,
/// read back with `timestamp()`. chrono's source returns `None` exactly when the day
/// `secs.div_euclid(86400)` is outside its date range, and the default is the epoch.
#[verifier::external_body]
fn utc_seconds(secs: i64) -> (r: i64)
    ensures
        r == split_or_epoch(secs as int, 1).0,
{
    DateTime::from_timestamp(secs, 0).unwrap_or_default().timestamp()
}

/// `DateTime::from_timestamp_millis`, defaulting to the epoch when out of range, read back
/// as (`timestamp()`, `timestamp_subsec_millis()`). chrono splits the value with
/// `div_euclid`/`rem_euclid` by 1000 and then checks the day as `from_timestamp` does.
#[verifier::external_body]
fn utc_from_millis(millis: i64) -> (r: (i64, u32))
    ensures
        r.0 == split_or_epoch(millis as int, 1000).0,
        r.1 == split_or_epoch(millis as int, 1000).1,
{
    let t = DateTime::from_timestamp_millis(millis).unwrap_or_default();
    (t.timestamp(), t.timestamp_subsec_millis())
}

/// `DateTime::from_timestamp_micros`, defaulting to the epoch when out of range, read back
/// as (`timestamp()`, `timestamp_subsec_micros()`); the split is by 1_000_000.
#[verifier::external_body]
fn utc_from_micros(micros: i64) -> (r: (i64, u32))
    ensures
        r.0 == split_or_epoch(micros as int, 1000000).0,
        r.1 == split_or_epoch(micros as int, 1000000).1,
{
    let t = DateTime::from_timestamp_micros(micros).unwrap_or_default();
    (t.timestamp(), t.timestamp_subsec_micros())
}

/// `DateTime::from_timestamp_nanos`, read back as (`timestamp()`,
/// `timestamp_subsec_nanos()`). chrono documents that every `i64` of nanoseconds is in
/// range; the split is by 1_000_000_000 with `div_euclid`/`rem_euclid`.
#[verifier::external_body]
fn utc_from_nanos(nanos: i64) -> (r: (i64, u32))
    ensures
        r.0 == (nanos as int) / 1000000000,
        r.1 == (nanos as int) % 1000000000,
{
    let t = DateTime::from_timestamp_nanos(nanos);
    (t.timestamp(), t.timestamp_subsec_nanos())
}

/// "<seconds>.<sub-second digits left-padded with zeros to `scale` digits>".
pub open spec fn time_text(timestamp: int, subsecond: nat, scale: nat) -> Seq<char> {
    let sub = nat_text(subsecond);
    let pad: nat = if scale > sub.len() {
        (scale - sub.len()) as nat
    } else {
        0
    };
    int_text(timestamp) + "."@ + zeros(pad) + sub
}

/// Formats a whole-second count and a sub-second count, padding the sub-second digits
/// with leading zeros to `scale` digits (no padding when they are already longer).
pub fn format_time_string(timestamp: i64, subsecond: u32, scale: usize) -> (r: String)
    ensures
        r@ == time_text(timestamp as int, subsecond as nat, scale as nat),
{
    proof {
        reveal_strlit(".");
    }
    let mut digits = String::new();
    push_nat_text(&mut digits, subsecond as u64);
    assert(digits@ =~= nat_text(subsecond as nat));
    let sub_len: usize = digits.as_str().unicode_len();
    let pad: usize = if scale > sub_len {
        scale - sub_len
    } else {
        0
    };
    let mut s = String::new();
    push_int_text(&mut s, timestamp);
    push_char(&mut s, '.');
    let mut i: usize = 0;
    let ghost head = s@;
    while i < pad
        invariant
            i <= pad,
            s@ == head + zeros(i as nat),
        decreases pad - i,
    {
        push_char(&mut s, '0');
        assert(head + zeros((i + 1) as nat) =~= (head + zeros(i as nat)).push('0'));
        i = i + 1;
    }
    let mut j: usize = 0;
    let ghost mid = s@;
    let dchars = crate::text::chars_of(digits.as_str());
    while j < dchars.len()
        invariant
            j <= dchars@.len(),
            dchars@ == digits@,
            s@ == mid + dchars@.take(j as int),
        decreases dchars@.len() - j,
    {
        push_char(&mut s, dchars[j]);
        assert(mid + dchars@.take(j as int + 1) =~= (mid + dchars@.take(j as int)).push(dchars@[j as int]));
        j = j + 1;
    }
    assert(dchars@.take(dchars@.len() as int) =~= dchars@);
    assert(s@ =~= time_text(timestamp as int, subsecond as nat, scale as nat));
    s
}

/// The text a timestamp value takes in JSON results: whole seconds, then for finer units
/// a '.' and the sub-second digits padded with leading zeros to 3, 6 or 9 digits, so the
/// text reads as the timestamp in seconds.
pub open spec fn timestamp_text(unit: TimeUnit, v: int) -> Seq<char> {
    match unit {
        TimeUnit::Second => int_text(split_or_epoch(v, 1).0),
        TimeUnit::Millisecond => time_text(split_or_epoch(v, 1000).0, split_or_epoch(v, 1000).1 as nat, 3),
        TimeUnit::Microsecond => time_text(
            split_or_epoch(v, 1000000).0,
            split_or_epoch(v, 1000000).1 as nat,
            6,
        ),
        TimeUnit::Nanosecond => time_text(v / 1000000000, (v % 1000000000) as nat, 9),
    }
}

/// The text a time-of-day value takes in JSON results: seconds, '.', and the sub-second
/// digits padded to 3, 6 or 9 digits (seconds are followed by ".000").
pub open spec fn time_of_day_text(unit: TimeUnit, v: int) -> Seq<char> {
    match unit {
        TimeUnit::Second => time_text(split_or_epoch(v, 1).0, 0, 3),
        TimeUnit::Millisecond => time_text(
            split_or_epoch(v, 1000).0,
            split_or_epoch(v, 1000).1 as nat,
            3,
        ),
        TimeUnit::Microsecond => time_text(
            split_or_epoch(v, 1000000).0,
            split_or_epoch(v, 1000000).1 as nat,
            6,
        ),
        TimeUnit::Nanosecond => time_text(v / 1000000000, (v % 1000000000) as nat, 9),
    }
}

/// `out` holds, row by row, the text `f` gives for each non-null value of `vals`, and
/// null where `vals` is null.
pub open spec fn texts_of_ints(
    out: Seq<Option<String>>,
    vals: Seq<Option<i64>>,
    f: spec_fn(int) -> Seq<char>,
) -> bool {
    &&& out.len() == vals.len()
    &&& forall|i: int|
        0 <= i < out.len() ==> {
            &&& ((#[trigger] out[i]) is None <==> vals[i] is None)
            &&& (vals[i] is Some ==> out[i]->0@ == f(vals[i]->0 as int))
        }
}

/// JSON text of one timestamp value.
fn timestamp_value_text(unit: TimeUnit, v: i64) -> (r: String)
    ensures
        r@ == timestamp_text(unit, v as int),
{
    match unit {
        TimeUnit::Second => {
            let mut s = String::new();
            push_int_text(&mut s, utc_seconds(v));
            assert(s@ =~= timestamp_text(unit, v as int));
            s
        },
        TimeUnit::Millisecond => {
            let (secs, sub) = utc_from_millis(v);
            format_time_string(secs, sub, 3)
        },
        TimeUnit::Microsecond => {
            let (secs, sub) = utc_from_micros(v);
            format_time_string(secs, sub, 6)
        },
        TimeUnit::Nanosecond => {
            let (secs, sub) = utc_from_nanos(v);
            format_time_string(secs, sub, 9)
        },
    }
}

/// JSON text of one time-of-day value.
fn time_value_text(unit: TimeUnit, v: i64) -> (r: String)
    ensures
        r@ == time_of_day_text(unit, v as int),
{
    match unit {
        TimeUnit::Second => format_time_string(utc_seconds(v), 0, 3),
        TimeUnit::Millisecond => {
            let (secs, sub) = utc_from_millis(v);
            format_time_string(secs, sub, 3)
        },
        TimeUnit::Microsecond => {
            let (secs, sub) = utc_from_micros(v);
            format_time_string(secs, sub, 6)
        },
        TimeUnit::Nanosecond => {
            let (secs, sub) = utc_from_nanos(v);
            format_time_string(secs, sub, 9)
        },
    }
}

/// Output of a JSON-format conversion of integer-like values to text.
fn ints_to_texts(vals: &Vec<Option<i64>>, unit: TimeUnit, time_of_day: bool) -> (out: Vec<Option<String>>)
    ensures
        time_of_day ==> texts_of_ints(out@, vals@, |x: int| time_of_day_text(unit, x)),
        !time_of_day ==> texts_of_ints(out@, vals@, |x: int| timestamp_text(unit, x)),
{
    let mut out: Vec<Option<String>> = Vec::new();
    let mut i: usize = 0;
    while i < vals.len()
        invariant
            i <= vals@.len(),
            out@.len() == i,
            forall|j: int|
                0 <= j < i ==> {
                    &&& ((#[trigger] out@[j]) is None <==> vals@[j] is None)
                    &&& (vals@[j] is Some ==> out@[j]->0@ == (if time_of_day {
                        time_of_day_text(unit, vals@[j]->0 as int)
                    } else {
                        timestamp_text(unit, vals@[j]->0 as int)
                    }))
                },
        decreases vals@.len() - i,
    {
        match vals[i] {
            Some(v) => {
                if time_of_day {
                    out.push(Some(time_value_text(unit, v)));
                } else {
                    out.push(Some(timestamp_value_text(unit, v)));
                }
            },
            None => out.push(None),
        }
        i = i + 1;
    }
    out
}

/// What a JSON/Arrow conversion of a timestamp column gives.
pub open spec fn timestamp_converted(out: Column, vals: Seq<Option<i64>>, unit: TimeUnit, json: bool) -> bool {
    if json {
        &&& out.data_type == DataType::Utf8
        &&& out.data matches ColumnData::Texts(t) && texts_of_ints(t@, vals, |x: int| timestamp_text(unit, x))
    } else {
        &&& out.data_type == DataType::Int64
        &&& out.data matches ColumnData::Ints(v) && v@ == vals
    }
}

/// Timestamps become text (JSON) or plain 64-bit integers of the same unit (Arrow).
pub fn convert_timestamp_to_struct(column: Column, unit: TimeUnit, data_format: DataSerializationFormat) -> (r: Column)
    requires
        column.data is Ints,
    ensures
        timestamp_converted(r, column.data->Ints_0@, unit, data_format == DataSerializationFormat::Json),
{
    let json = data_format == DataSerializationFormat::Json;
    match column.data {
        ColumnData::Ints(vals) => {
            if json {
                let t = ints_to_texts(&vals, unit, false);
                Column { data_type: DataType::Utf8, data: ColumnData::Texts(t) }
            } else {
                Column { data_type: DataType::Int64, data: ColumnData::Ints(vals) }
            }
        },
        _ => {
            assert(false);
            column
        },
    }
}

/// What a JSON/Arrow conversion of a time-of-day column gives.
pub open spec fn time_converted(out: Column, vals: Seq<Option<i64>>, unit: TimeUnit, json: bool) -> bool {
    if json {
        &&& out.data_type == DataType::Utf8
        &&& out.data matches ColumnData::Texts(t) && texts_of_ints(t@, vals, |x: int| time_of_day_text(unit, x))
    } else {
        &&& out.data_type == DataType::Int64
        &&& out.data matches ColumnData::Ints(v) && v@ == vals
    }
}

/// Times of day become padded text (JSON) or plain 64-bit integers (Arrow).
pub fn convert_time(column: Column, unit: TimeUnit, data_format: DataSerializationFormat) -> (r: Column)
    requires
        column.data is Ints,
    ensures
        time_converted(r, column.data->Ints_0@, unit, data_format == DataSerializationFormat::Json),
{
    let json = data_format == DataSerializationFormat::Json;
    match column.data {
        ColumnData::Ints(vals) => {
            if json {
                let t = ints_to_texts(&vals, unit, true);
                Column { data_type: DataType::Utf8, data: ColumnData::Texts(t) }
            } else {
                Column { data_type: DataType::Int64, data: ColumnData::Ints(vals) }
            }
        },
        _ => {
            assert(false);
            column
        },
    }
}

/// Rust's integer division, which rounds toward zero.
pub open spec fn trunc_div(a: int, b: int) -> int {
    if a >= 0 {
        a / b
    } else {
        -((-a) / b)
    }
}

/// The day number a 64-bit millisecond date becomes: division by 86_400_000 toward zero,
/// then `as i32`.
pub open spec fn date64_day(v: i64) -> i64 {
    (trunc_div(v as int, 86400000) as i32) as i64
}

/// What a JSON/Arrow conversion of a date column gives.
pub open spec fn date_converted(out: Column, c: Column, json: bool) -> bool {
    if json && c.data_type == DataType::Date32 && c.data is Ints {
        &&& out.data_type == DataType::Int32
        &&& out.data == c.data
    } else if json && c.data_type == DataType::Date64 && c.data is Ints {
        &&& out.data_type == DataType::Int32
        &&& out.data matches ColumnData::Ints(v) && v@.len() == c.data->Ints_0@.len() && forall|i: int|
            0 <= i < v@.len() ==> (#[trigger] v@[i]) == match c.data->Ints_0@[i] {
                Some(x) => Some(date64_day(x)),
                None => None,
            }
    } else {
        out == c
    }
}

fn date64_to_day(v: i64) -> (r: i64)
    ensures
        r == date64_day(v),
{
    let w: i128 = v as i128;
    let q: i128 = if w >= 0 {
        w / 86400000
    } else {
        -((-w) / 86400000)
    };
    #[verifier::truncate]
    let d: i32 = q as i32;
    d as i64
}

/// Dates become day numbers (32-bit) in JSON results; Arrow results keep them as they are.
pub fn convert_date(column: Column, data_format: DataSerializationFormat) -> (r: Column)
    ensures
        date_converted(r, column, data_format == DataSerializationFormat::Json),
{
    let json = data_format == DataSerializationFormat::Json;
    if !json {
        return column;
    }
    match column.data_type {
        DataType::Date32 => {
            match column.data {
                ColumnData::Ints(v) => Column { data_type: DataType::Int32, data: ColumnData::Ints(v) },
                _ => column,
            }
        },
        DataType::Date64 => {
            match column.data {
                ColumnData::Ints(vals) => {
                    let mut out: Vec<Option<i64>> = Vec::new();
                    let mut i: usize = 0;
                    while i < vals.len()
                        invariant
                            i <= vals@.len(),
                            out@.len() == i,
                            forall|j: int|
                                0 <= j < i ==> (#[trigger] out@[j]) == match vals@[j] {
                                    Some(x) => Some(date64_day(x)),
                                    None => None,
                                },
                        decreases vals@.len() - i,
                    {
                        match vals[i] {
                            Some(x) => out.push(Some(date64_to_day(x))),
                            None => out.push(None),
                        }
                        i = i + 1;
                    }
                    Column { data_type: DataType::Int32, data: ColumnData::Ints(out) }
                },
                _ => column,
            }
        },
        _ => column,
    }
}

} // verus!
