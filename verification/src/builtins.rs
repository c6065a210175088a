//! Scalar SQL functions of the engine: `INSERT`, which replaces part of a string, and
//! `DATEADD`, with the argument types each accepts.
use vstd::prelude::*;
use crate::types::{DataType, IntervalUnit, TimeUnit, Column, ColumnData};
use crate::text::{chars_of, push_char};

verus! {

/// Why `INSERT` refuses a row.
#[derive(Clone, Copy, Debug, PartialEq, Eq, Structural)]
pub enum InsertError {
    /// The position is not between 1 and one more than the number of characters.
    InvalidPosition,
    /// The length is negative or runs past the end of the string.
    InvalidLength,
}

/// `INSERT(base, pos, len, ins)`: a copy of `base` whose `len` characters from the 1-based
/// position `pos` are replaced by `ins`. The position runs from 1 to one more than the
/// number of characters (which appends), and the length from 0 to the number of
/// characters from the position to the end.
pub open spec fn insert_text(base: Seq<char>, pos: int, len: int, ins: Seq<char>) -> Result<Seq<char>, InsertError> {
    if pos < 1 || pos > base.len() + 1 {
        Err(InsertError::InvalidPosition)
    } else if len < 0 || len > base.len() - pos + 1 {
        Err(InsertError::InvalidLength)
    } else {
        Ok(base.take(pos - 1) + ins + base.skip(pos - 1 + len))
    }
}

/// `INSERT` on one row: null where any argument is null.
pub open spec fn insert_value(
    base: Option<Seq<char>>,
    pos: Option<i64>,
    len: Option<i64>,
    ins: Option<Seq<char>>,
) -> Result<Option<Seq<char>>, InsertError> {
    match (base, pos, len, ins) {
        (Some(b), Some(p), Some(l), Some(i)) => match insert_text(b, p as int, l as int, i) {
            Ok(t) => Ok(Some(t)),
            Err(e) => Err(e),
        },
        _ => Ok(None),
    }
}

/// The texts of optional strings.
pub open spec fn opt_texts(v: Seq<Option<String>>) -> Seq<Option<Seq<char>>> {
    v.map_values(|o: Option<String>| match o {
        Some(s) => Some(s@),
        None => None,
    })
}

/// `INSERT` on the first `n` rows of its argument columns: the error of the first row
/// refused, or the results in order.
pub open spec fn insert_rows(
    base: Seq<Option<Seq<char>>>,
    pos: Seq<Option<i64>>,
    len: Seq<Option<i64>>,
    ins: Seq<Option<Seq<char>>>,
    n: nat,
) -> Result<Seq<Option<Seq<char>>>, InsertError>
    decreases n,
{
    if n == 0 {
        Ok(Seq::empty())
    } else {
        match insert_rows(base, pos, len, ins, (n - 1) as nat) {
            Err(e) => Err(e),
            Ok(prev) => match insert_value(base[n - 1], pos[n - 1], len[n - 1], ins[n - 1]) {
                Err(e) => Err(e),
                Ok(v) => Ok(prev.push(v)),
            },
        }
    }
}

/// The smallest of four lengths: how many rows the four argument columns have together.
pub open spec fn min4(a: nat, b: nat, c: nat, d: nat) -> nat {
    let ab = if a <= b { a } else { b };
    let cd = if c <= d { c } else { d };
    if ab <= cd { ab } else { cd }
}

fn push_range(out: &mut String, cs: &Vec<char>, from: usize, to: usize)
    requires
        from <= to <= cs@.len(),
    ensures
        final(out)@ == old(out)@ + cs@.subrange(from as int, to as int),
{
    let mut i: usize = from;
    while i < to
        invariant
            from <= i <= to,
            to <= cs@.len(),
            out@ == old(out)@ + cs@.subrange(from as int, i as int),
        decreases to - i,
    {
        push_char(out, cs[i]);
        proof {
            assert(cs@.subrange(from as int, i as int + 1) == cs@.subrange(from as int, i as int).push(cs@[i as int]));
        }
        i = i + 1;
    }
}

/// `INSERT` on one row of strings.
pub fn insert_str(base: &str, pos: i64, len: i64, ins: &str) -> (r: Result<String, InsertError>)
    ensures
        r matches Ok(t) ==> insert_text(base@, pos as int, len as int, ins@) == Ok::<Seq<char>, InsertError>(t@),
        r matches Err(e) ==> insert_text(base@, pos as int, len as int, ins@) == Err::<Seq<char>, InsertError>(e),
{
    let cs = chars_of(base);
    let n = cs.len();
    if (pos as i128) < 1 || (pos as i128) > (n as i128) + 1 {
        return Err(InsertError::InvalidPosition);
    }
    if (len as i128) < 0 || (len as i128) > (n as i128) - (pos as i128) + 1 {
        return Err(InsertError::InvalidLength);
    }
    let start = (pos - 1) as usize;
    let end = start + len as usize;
    let is = chars_of(ins);
    let mut out = String::new();
    push_range(&mut out, &cs, 0, start);
    push_range(&mut out, &is, 0, is.len());
    push_range(&mut out, &cs, end, n);
    proof {
        assert(cs@.subrange(0, start as int) == base@.take(pos - 1));
        assert(is@.subrange(0, is@.len() as int) == ins@);
        assert(cs@.subrange(end as int, n as int) == base@.skip(pos - 1 + len));
    }
    Ok(out)
}

/// `INSERT` over argument columns, row by row: a null result where an argument is null,
/// and the first row's error where a row is refused. The columns are read together up to
/// the shortest.
pub fn insert_strings(
    base: &Vec<Option<String>>,
    pos: &Vec<Option<i64>>,
    len: &Vec<Option<i64>>,
    ins: &Vec<Option<String>>,
) -> (r: Result<Vec<Option<String>>, InsertError>)
    ensures
        ({
            let n = min4(base@.len(), pos@.len(), len@.len(), ins@.len());
            let spec_r = insert_rows(opt_texts(base@), pos@, len@, opt_texts(ins@), n);
            &&& (r is Ok <==> spec_r is Ok)
            &&& (r matches Ok(v) ==> spec_r == Ok::<Seq<Option<Seq<char>>>, InsertError>(opt_texts(v@)))
            &&& (r matches Err(e) ==> spec_r == Err::<Seq<Option<Seq<char>>>, InsertError>(e))
        }),
{
    let mut n = base.len();
    if pos.len() < n {
        n = pos.len();
    }
    if len.len() < n {
        n = len.len();
    }
    if ins.len() < n {
        n = ins.len();
    }
    let ghost bt = opt_texts(base@);
    let ghost it = opt_texts(ins@);
    let mut out: Vec<Option<String>> = Vec::new();
    let mut i: usize = 0;
    proof {
        assert(opt_texts(out@) =~= Seq::empty());
    }
    while i < n
        invariant
            i <= n,
            n == min4(base@.len(), pos@.len(), len@.len(), ins@.len()),
            bt == opt_texts(base@),
            it == opt_texts(ins@),
            insert_rows(bt, pos@, len@, it, i as nat) == Ok::<Seq<Option<Seq<char>>>, InsertError>(opt_texts(out@)),
        decreases n - i,
    {
        let row: Option<String> = match (&base[i], pos[i], len[i], &ins[i]) {
            (Some(b), Some(p), Some(l), Some(s)) => {
                match insert_str(b.as_str(), p, l, s.as_str()) {
                    Ok(t) => Some(t),
                    Err(e) => {
                        proof {
                            assert(insert_value(bt[i as int], pos@[i as int], len@[i as int], it[i as int])
                                == Err::<Option<Seq<char>>, InsertError>(e));
                            assert(insert_rows(bt, pos@, len@, it, (i + 1) as nat) == Err::<Seq<Option<Seq<char>>>, InsertError>(e));
                            lemma_insert_rows_err_sticks(bt, pos@, len@, it, (i + 1) as nat, n as nat);
                        }
                        return Err(e);
                    },
                }
            },
            _ => None,
        };
        proof {
            assert(insert_value(bt[i as int], pos@[i as int], len@[i as int], it[i as int])
                == Ok::<Option<Seq<char>>, InsertError>(match row {
                Some(t) => Some(t@),
                None => None,
            }));
        }
        let ghost prev = out@;
        let ghost row_text = match &row {
            Some(t) => Some(t@),
            None => None,
        };
        out.push(row);
        proof {
            assert(opt_texts(out@) =~= opt_texts(prev).push(row_text));
        }
        i = i + 1;
    }
    Ok(out)
}

proof fn lemma_insert_rows_err_sticks(
    base: Seq<Option<Seq<char>>>,
    pos: Seq<Option<i64>>,
    len: Seq<Option<i64>>,
    ins: Seq<Option<Seq<char>>>,
    k: nat,
    n: nat,
)
    requires
        k <= n,
        insert_rows(base, pos, len, ins, k) is Err,
    ensures
        insert_rows(base, pos, len, ins, n) == insert_rows(base, pos, len, ins, k),
    decreases n - k,
{
    if k < n {
        lemma_insert_rows_err_sticks(base, pos, len, ins, k, (n - 1) as nat);
    }
}

/// The `INSERT` function: its name, argument types and result type.
pub struct Insert {
    signature: Vec<DataType>,
}

impl Insert {
    /// The argument types.
    pub closed spec fn arg_types(&self) -> Seq<DataType> {
        self.signature@
    }

    /// The function, taking a string, two integers and a string.
    pub fn new() -> (r: Insert)
        ensures
            r.arg_types() == seq![DataType::Utf8, DataType::Int64, DataType::Int64, DataType::Utf8],
    {
        let mut signature: Vec<DataType> = Vec::new();
        signature.push(DataType::Utf8);
        signature.push(DataType::Int64);
        signature.push(DataType::Int64);
        signature.push(DataType::Utf8);
        Insert { signature }
    }

    /// The function's SQL name.
    pub fn name(&self) -> (r: &'static str)
        ensures
            r@ == "insert"@,
    {
        "insert"
    }

    /// The result type: a string.
    pub fn return_type(&self) -> (r: DataType)
        ensures
            r == DataType::Utf8,
    {
        DataType::Utf8
    }
}

/// The `DATEADD` function: the argument types it accepts.
pub struct DateAddFunc {
    signatures: Vec<(DataType, DataType, DataType)>,
}

/// The accepted argument types of `DATEADD`: an interval added to a date, a duration added
/// to a timestamp of its unit, or a month-day-nanosecond interval added to a nanosecond
/// timestamp, each with an integer count.
pub open spec fn dateadd_signatures() -> Seq<(DataType, DataType, DataType)> {
    seq![
        (DataType::Interval(IntervalUnit::YearMonth), DataType::Int64, DataType::Date32),
        (DataType::Interval(IntervalUnit::MonthDayNano), DataType::Int64, DataType::Date32),
        (DataType::Interval(IntervalUnit::DayTime), DataType::Int64, DataType::Date32),
        (DataType::Duration(TimeUnit::Second), DataType::Int64, DataType::Timestamp(TimeUnit::Second, None)),
        (DataType::Duration(TimeUnit::Millisecond), DataType::Int64, DataType::Timestamp(TimeUnit::Millisecond, None)),
        (DataType::Duration(TimeUnit::Microsecond), DataType::Int64, DataType::Timestamp(TimeUnit::Microsecond, None)),
        (DataType::Duration(TimeUnit::Nanosecond), DataType::Int64, DataType::Timestamp(TimeUnit::Nanosecond, None)),
        (DataType::Interval(IntervalUnit::MonthDayNano), DataType::Int64, DataType::Timestamp(TimeUnit::Nanosecond, None)),
    ]
}

impl DateAddFunc {
    /// The accepted argument types.
    pub closed spec fn signatures(&self) -> Seq<(DataType, DataType, DataType)> {
        self.signatures@
    }

    /// The function with its accepted argument types.
    pub fn new() -> (r: DateAddFunc)
        ensures
            r.signatures() == dateadd_signatures(),
    {
        let mut s: Vec<(DataType, DataType, DataType)> = Vec::new();
        s.push((DataType::Interval(IntervalUnit::YearMonth), DataType::Int64, DataType::Date32));
        s.push((DataType::Interval(IntervalUnit::MonthDayNano), DataType::Int64, DataType::Date32));
        s.push((DataType::Interval(IntervalUnit::DayTime), DataType::Int64, DataType::Date32));
        s.push((DataType::Duration(TimeUnit::Second), DataType::Int64, DataType::Timestamp(TimeUnit::Second, None)));
        s.push((DataType::Duration(TimeUnit::Millisecond), DataType::Int64, DataType::Timestamp(TimeUnit::Millisecond, None)));
        s.push((DataType::Duration(TimeUnit::Microsecond), DataType::Int64, DataType::Timestamp(TimeUnit::Microsecond, None)));
        s.push((DataType::Duration(TimeUnit::Nanosecond), DataType::Int64, DataType::Timestamp(TimeUnit::Nanosecond, None)));
        s.push((DataType::Interval(IntervalUnit::MonthDayNano), DataType::Int64, DataType::Timestamp(TimeUnit::Nanosecond, None)));
        DateAddFunc { signatures: s }
    }

    /// The function's SQL name.
    pub fn name(&self) -> (r: &'static str)
        ensures
            r@ == "dateadd"@,
    {
        "dateadd"
    }

    /// The result type: that of the third argument, the date or timestamp added to.
    pub fn return_type(&self, arg_types: &Vec<DataType>) -> (r: DataType)
        requires
            arg_types@.len() >= 3,
        ensures
            r == arg_types@[2],
    {
        arg_types[2].copy()
    }

    /// The function's value: the date or timestamp argument, unchanged.
    pub fn invoke(&self, args: Vec<Column>) -> (r: Column)
        requires
            args@.len() >= 3,
        ensures
            r == args@[2],
    {
        let mut args = args;
        args.swap_remove(2)
    }
}

/// Inserting at one more than the length, replacing nothing, appends.
pub proof fn law_insert_at_end_appends(base: Seq<char>, ins: Seq<char>)
    ensures
        insert_text(base, base.len() as int + 1, 0, ins) == Ok::<Seq<char>, InsertError>(base + ins),
{
    assert(base.take(base.len() as int) == base);
    assert(base.skip(base.len() as int) == Seq::<char>::empty());
    assert(base + ins + Seq::<char>::empty() == base + ins);
}

/// Inserting an empty string deletes the characters replaced.
pub proof fn law_insert_empty_deletes(base: Seq<char>, pos: int, len: int)
    requires
        1 <= pos <= base.len() + 1,
        0 <= len <= base.len() - pos + 1,
    ensures
        insert_text(base, pos, len, Seq::empty()) == Ok::<Seq<char>, InsertError>(
            base.take(pos - 1) + base.skip(pos - 1 + len),
        ),
{
    assert(base.take(pos - 1) + Seq::<char>::empty() == base.take(pos - 1));
}

/// Replacing nothing with nothing leaves the string as it is.
pub proof fn law_insert_nothing_is_identity(base: Seq<char>, pos: int)
    requires
        1 <= pos <= base.len() + 1,
    ensures
        insert_text(base, pos, 0, Seq::empty()) == Ok::<Seq<char>, InsertError>(base),
{
    assert(base.take(pos - 1) + Seq::<char>::empty() + base.skip(pos - 1) == base);
}

/// The result has the base's length, less the characters replaced, plus the inserted ones.
pub proof fn law_insert_length(base: Seq<char>, pos: int, len: int, ins: Seq<char>)
    requires
        insert_text(base, pos, len, ins) is Ok,
    ensures
        insert_text(base, pos, len, ins) matches Ok(t) && t.len() == base.len() - len + ins.len(),
{
}


/// `INSERT` succeeds exactly on a position from 1 to one past the last character and a
/// length that does not run past the end; then the result keeps the first `pos - 1`
/// characters of the base, has the inserted text right after them, and continues with the
/// base from `pos - 1 + len` on.
pub proof fn law_insert_places_text(base: Seq<char>, pos: int, len: int, ins: Seq<char>)
    ensures
        insert_text(base, pos, len, ins) is Ok <==> (1 <= pos <= base.len() + 1 && 0 <= len <= base.len() - pos
            + 1),
        insert_text(base, pos, len, ins) matches Ok(t) ==> {
            &&& t.len() == base.len() - len + ins.len()
            &&& forall|i: int| 0 <= i < pos - 1 ==> #[trigger] t[i] == base[i]
            &&& forall|j: int| 0 <= j < ins.len() ==> #[trigger] t[pos - 1 + j] == ins[j]
            &&& forall|k: int| pos - 1 + ins.len() <= k < t.len() ==> #[trigger] t[k] == base[k - ins.len() + len]
        },
{
    if let Ok(t) = insert_text(base, pos, len, ins) {
        assert forall|j: int| 0 <= j < ins.len() implies #[trigger] t[pos - 1 + j] == ins[j] by {
            assert(t[pos - 1 + j] == (base.take(pos - 1) + ins)[pos - 1 + j]);
        }
        assert forall|k: int| pos - 1 + ins.len() <= k < t.len() implies #[trigger] t[k] == base[k - ins.len()
            + len] by {
            assert(t[k] == base.skip(pos - 1 + len)[k - (pos - 1 + ins.len())]);
        }
    }
}

/// `INSERT` over columns row by row: it succeeds exactly when every row does, and then
/// row k of the result is the result for row k; otherwise its error is that of the first
/// row refused.
pub proof fn law_insert_rows_pointwise(
    base: Seq<Option<Seq<char>>>,
    pos: Seq<Option<i64>>,
    len: Seq<Option<i64>>,
    ins: Seq<Option<Seq<char>>>,
    n: nat,
)
    ensures
        insert_rows(base, pos, len, ins, n) is Ok <==> forall|k: int|
            0 <= k < n ==> (#[trigger] insert_value(base[k], pos[k], len[k], ins[k])) is Ok,
        insert_rows(base, pos, len, ins, n) matches Ok(v) ==> v.len() == n && forall|k: int|
            0 <= k < n ==> #[trigger] insert_value(base[k], pos[k], len[k], ins[k]) == Ok::<
                Option<Seq<char>>,
                InsertError,
            >(v[k]),
        insert_rows(base, pos, len, ins, n) matches Err(e) ==> exists|k: int|
            0 <= k < n && #[trigger] insert_value(base[k], pos[k], len[k], ins[k]) == Err::<
                Option<Seq<char>>,
                InsertError,
            >(e) && forall|j: int| 0 <= j < k ==> (#[trigger] insert_value(base[j], pos[j], len[j], ins[j])) is Ok,
    decreases n,
{
    if n > 0 {
        let m = (n - 1) as nat;
        law_insert_rows_pointwise(base, pos, len, ins, m);
        let last = insert_value(base[m as int], pos[m as int], len[m as int], ins[m as int]);
        match insert_rows(base, pos, len, ins, m) {
            Err(e) => {
                let k = choose|k: int|
                    0 <= k < m && #[trigger] insert_value(base[k], pos[k], len[k], ins[k]) == Err::<
                        Option<Seq<char>>,
                        InsertError,
                    >(e) && forall|j: int| 0 <= j < k ==> (#[trigger] insert_value(base[j], pos[j], len[j], ins[j])) is Ok;
                assert(insert_value(base[k], pos[k], len[k], ins[k]) == Err::<Option<Seq<char>>, InsertError>(e));
            },
            Ok(prev) => {
                match last {
                    Err(e) => {
                        assert(insert_value(base[m as int], pos[m as int], len[m as int], ins[m as int]) == Err::<
                            Option<Seq<char>>,
                            InsertError,
                        >(e));
                    },
                    Ok(v) => {
                        let r = prev.push(v);
                        assert forall|k: int| 0 <= k < n implies #[trigger] insert_value(base[k], pos[k], len[k], ins[k])
                            == Ok::<Option<Seq<char>>, InsertError>(r[k]) by {
                            if k < m {
                                assert(r[k] == prev[k]);
                            }
                        }
                    },
                }
            },
        }
    }
}

} // verus!
