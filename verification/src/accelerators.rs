//! External accelerators that run Substrait plans: which backend a setting names, whether
//! a plan reads local files, and how a table is pushed to a Flight server.
use vstd::prelude::*;
use crate::text::{chars_of, trim_chars, trim_seq, lower_seq, char_to_lower, string_from_chars, push_char};

verus! {

/// A backend that runs Substrait plans.
#[derive(Clone, Copy, Debug, PartialEq, Eq, Structural)]
pub enum AcceleratorKind {
    Acero,
    Velox,
}

impl AcceleratorKind {
    /// The backend a setting names: `acero` or `velox`, ignoring surrounding white space and
    /// ASCII case.
    pub open spec fn spec_from_str(value: Seq<char>) -> Option<AcceleratorKind> {
        let v = lower_seq(trim_seq(value));
        if v == "acero"@ {
            Some(AcceleratorKind::Acero)
        } else if v == "velox"@ {
            Some(AcceleratorKind::Velox)
        } else {
            None
        }
    }

    /// The backend a setting names.
    pub fn from_str(value: &str) -> (r: Option<AcceleratorKind>)
        ensures
            r == Self::spec_from_str(value@),
    {
        let cs = chars_of(value);
        let t = trim_chars(&cs);
        let mut lower: Vec<char> = Vec::new();
        let mut i: usize = 0;
        while i < t.len()
            invariant
                i <= t@.len(),
                lower@ == lower_seq(t@).take(i as int),
            decreases t@.len() - i,
        {
            lower.push(char_to_lower(t[i]));
            proof {
                assert(lower_seq(t@).take(i as int + 1) == lower_seq(t@).take(i as int).push(lower_seq(t@)[i as int]));
            }
            i = i + 1;
        }
        proof {
            assert(lower_seq(t@).take(t@.len() as int) == lower_seq(t@));
            reveal_strlit("acero");
            reveal_strlit("velox");
        }
        if lower.len() == 5 && lower[0] == 'a' && lower[1] == 'c' && lower[2] == 'e' && lower[3] == 'r'
            && lower[4] == 'o' {
            proof {
                assert(lower@ == "acero"@);
            }
            Some(AcceleratorKind::Acero)
        } else if lower.len() == 5 && lower[0] == 'v' && lower[1] == 'e' && lower[2] == 'l' && lower[3]
            == 'o' && lower[4] == 'x' {
            proof {
                assert(lower@ == "velox"@);
            }
            Some(AcceleratorKind::Velox)
        } else {
            proof {
                assert(lower@ != "acero"@ && lower@ != "velox"@) by {
                    if lower@ == "acero"@ {
                        assert(lower@[0] == 'a' && lower@[4] == 'o');
                    }
                    if lower@ == "velox"@ {
                        assert(lower@[0] == 'v' && lower@[4] == 'x');
                    }
                }
            }
            None
        }
    }
}

/// A relation of a Substrait plan, as far as the search for local files reads it.
#[derive(Debug)]
pub enum Rel {
    /// A read, of local files or of another source.
    Read { local_files: bool },
    Project(Option<Box<Rel>>),
    Filter(Option<Box<Rel>>),
    Fetch(Option<Box<Rel>>),
    Aggregate(Option<Box<Rel>>),
    Join(Option<Box<Rel>>, Option<Box<Rel>>),
    Sort(Option<Box<Rel>>),
    SetOp(Vec<Rel>),
    Exchange(Option<Box<Rel>>),
    Expand(Option<Box<Rel>>),
    Cross(Option<Box<Rel>>, Option<Box<Rel>>),
    /// Any other relation, whose inputs are not searched.
    Other,
}

/// A top-level relation of a Substrait plan.
#[derive(Debug)]
pub enum PlanRel {
    Rel(Rel),
    Root(Option<Rel>),
    Other,
}

/// Whether a relation reads local files, itself or through the inputs that are searched.
pub open spec fn rel_reads_files(r: Rel) -> bool
    decreases r, 0nat,
{
    match r {
        Rel::Read { local_files } => local_files,
        Rel::Project(i) | Rel::Filter(i) | Rel::Fetch(i) | Rel::Aggregate(i) | Rel::Sort(i)
        | Rel::Exchange(i) | Rel::Expand(i) => match i {
            Some(b) => rel_reads_files(*b),
            None => false,
        },
        Rel::Join(l, rr) | Rel::Cross(l, rr) => (match l {
            Some(b) => rel_reads_files(*b),
            None => false,
        }) || (match rr {
            Some(b) => rel_reads_files(*b),
            None => false,
        }),
        Rel::SetOp(inputs) => any_reads_files(inputs@, inputs@.len()),
        Rel::Other => false,
    }
}

/// Whether one of the first `n` relations reads local files.
pub open spec fn any_reads_files(rs: Seq<Rel>, n: nat) -> bool
    decreases rs, n,
{
    if n == 0 || n > rs.len() {
        false
    } else {
        any_reads_files(rs, (n - 1) as nat) || rel_reads_files(rs[n - 1])
    }
}

/// Whether a plan reads local files through one of its relations.
pub open spec fn plan_reads_files(relations: Seq<PlanRel>) -> bool {
    exists|i: int|
        0 <= i < relations.len() && match #[trigger] relations[i] {
            PlanRel::Rel(r) => rel_reads_files(r),
            PlanRel::Root(Some(r)) => rel_reads_files(r),
            _ => false,
        }
}

fn opt_reads_files(r: &Option<Box<Rel>>) -> (b: bool)
    ensures
        b == match r {
            Some(x) => rel_reads_files(**x),
            None => false,
        },
    decreases r,
{
    match r {
        Some(x) => rel_has_local_files(x),
        None => false,
    }
}

/// Whether a relation reads local files.
pub fn rel_has_local_files(r: &Rel) -> (b: bool)
    ensures
        b == rel_reads_files(*r),
    decreases r,
{
    match r {
        Rel::Read { local_files } => *local_files,
        Rel::Project(i) | Rel::Filter(i) | Rel::Fetch(i) | Rel::Aggregate(i) | Rel::Sort(i)
        | Rel::Exchange(i) | Rel::Expand(i) => opt_reads_files(i),
        Rel::Join(l, rr) | Rel::Cross(l, rr) => opt_reads_files(l) || opt_reads_files(rr),
        Rel::SetOp(inputs) => {
            let mut found = false;
            let mut k: usize = 0;
            while k < inputs.len()
                invariant
                    k <= inputs@.len(),
                    found == any_reads_files(inputs@, k as nat),
                    *r == Rel::SetOp(*inputs),
                decreases inputs@.len() - k,
            {
                proof {
                    assert(decreases_to!(*r => (*r)->SetOp_0));
                    assert((*r)->SetOp_0 == *inputs);
                    assert(decreases_to!(*inputs => inputs@));
                    assert(decreases_to!(inputs@ => inputs@[k as int]));
                }
                found = found || rel_has_local_files(&inputs[k]);
                k = k + 1;
            }
            found
        },
        Rel::Other => false,
    }
}

/// Whether a plan reads local files through one of its relations.
pub fn plan_has_local_files(relations: &Vec<PlanRel>) -> (b: bool)
    ensures
        b == plan_reads_files(relations@),
{
    let mut k: usize = 0;
    while k < relations.len()
        invariant
            k <= relations@.len(),
            forall|i: int| 0 <= i < k ==> !match #[trigger] relations@[i] {
                PlanRel::Rel(r) => rel_reads_files(r),
                PlanRel::Root(Some(r)) => rel_reads_files(r),
                _ => false,
            },
        decreases relations@.len() - k,
    {
        let hit = match &relations[k] {
            PlanRel::Rel(r) => rel_has_local_files(r),
            PlanRel::Root(Some(r)) => rel_has_local_files(r),
            _ => false,
        };
        if hit {
            return true;
        }
        k = k + 1;
    }
    false
}

/// A client that sends Substrait plans to a Flight server of an accelerator.
#[derive(Debug)]
pub struct FlightSubstraitClient {
    pub endpoint: String,
    pub kind: AcceleratorKind,
}

impl FlightSubstraitClient {
    /// A client for the server at `endpoint`, running the given backend.
    pub fn new(endpoint: String, kind: AcceleratorKind) -> (r: FlightSubstraitClient)
        ensures
            r.endpoint == endpoint,
            r.kind == kind,
    {
        FlightSubstraitClient { endpoint, kind }
    }

    /// The backend the server runs.
    pub fn kind(&self) -> (r: AcceleratorKind)
        ensures
            r == self.kind,
    {
        self.kind
    }
}

/// The path of the descriptor a table is pushed under: `push`, `temp`, then its name.
pub fn put_table_path(table_name: &str) -> (r: Vec<String>)
    ensures
        r@.len() == 3,
        r@[0]@ == "push"@,
        r@[1]@ == "temp"@,
        r@[2]@ == table_name@,
{
    let mut path: Vec<String> = Vec::new();
    path.push("push".to_string());
    path.push("temp".to_string());
    path.push(table_name.to_string());
    path
}

/// The messages of a table push: the schema first, then for each batch its dictionaries
/// followed by the batch; every message carries the descriptor.
#[derive(Clone, Copy, Debug, PartialEq, Eq, Structural)]
pub enum FlightFrame {
    Schema,
    Dictionary,
    Batch,
}

/// The frames of a table push, given how many dictionaries each batch brings.
pub open spec fn put_frames(dictionaries: Seq<usize>) -> Seq<FlightFrame>
    decreases dictionaries.len(),
{
    if dictionaries.len() == 0 {
        seq![FlightFrame::Schema]
    } else {
        put_frames(dictionaries.drop_last()) + Seq::new(dictionaries.last() as nat, |i: int| FlightFrame::Dictionary)
            .push(FlightFrame::Batch)
    }
}

/// The order of the frames of a table push.
pub fn put_table_frames(dictionaries: &Vec<usize>) -> (r: Vec<FlightFrame>)
    ensures
        r@ == put_frames(dictionaries@),
{
    let mut frames: Vec<FlightFrame> = Vec::new();
    frames.push(FlightFrame::Schema);
    let mut b: usize = 0;
    proof {
        assert(dictionaries@.take(0) == Seq::<usize>::empty());
    }
    while b < dictionaries.len()
        invariant
            b <= dictionaries@.len(),
            frames@ == put_frames(dictionaries@.take(b as int)),
        decreases dictionaries@.len() - b,
    {
        let ghost before = frames@;
        let n = dictionaries[b];
        let mut d: usize = 0;
        while d < n
            invariant
                d <= n,
                frames@ == before + Seq::new(d as nat, |i: int| FlightFrame::Dictionary),
            decreases n - d,
        {
            frames.push(FlightFrame::Dictionary);
            proof {
                assert(before + Seq::new((d + 1) as nat, |i: int| FlightFrame::Dictionary) == (before + Seq::new(
                    d as nat,
                    |i: int| FlightFrame::Dictionary,
                )).push(FlightFrame::Dictionary));
            }
            d = d + 1;
        }
        frames.push(FlightFrame::Batch);
        proof {
            assert(dictionaries@.take(b as int + 1).drop_last() == dictionaries@.take(b as int));
        }
        b = b + 1;
    }
    proof {
        assert(dictionaries@.take(dictionaries@.len() as int) == dictionaries@);
    }
    frames
}


/// What reading the next message of a Flight result stream gave.
#[derive(Debug, Clone, Copy, PartialEq, Eq, Structural)]
pub enum FlightRead {
    /// The stream ended.
    Ended,
    /// Reading failed.
    ReadFailed,
    /// A message that decodes to a record batch.
    Decoded,
    /// A message that does not decode to a record batch.
    DecodeFailed,
}

/// What the reader of a Flight result stream does with a message.
#[derive(Debug, Clone, Copy, PartialEq, Eq, Structural)]
pub enum FlightAction {
    /// Stop reading; the result ends.
    Stop,
    /// Pass the batch on, then read the next message if the result is still wanted.
    SendBatch,
    /// Pass the decoding error on, then stop.
    SendErrorThenStop,
}

/// The reader's step on each message after the schema: an ended or unreadable stream ends
/// the result, a batch is passed on, and a message that does not decode ends the result
/// with its error.
pub fn flight_read_action(read: FlightRead) -> (r: FlightAction)
    ensures
        r == match read {
            FlightRead::Ended | FlightRead::ReadFailed => FlightAction::Stop,
            FlightRead::Decoded => FlightAction::SendBatch,
            FlightRead::DecodeFailed => FlightAction::SendErrorThenStop,
        },
{
    match read {
        FlightRead::Ended | FlightRead::ReadFailed => FlightAction::Stop,
        FlightRead::Decoded => FlightAction::SendBatch,
        FlightRead::DecodeFailed => FlightAction::SendErrorThenStop,
    }
}

/// The first message of a Flight result stream carries the schema: a stream that ends at
/// once is refused as empty, and a failed read gives its error.
pub fn flight_first_message(read: Result<bool, String>) -> (r: Result<(), String>)
    ensures
        match read {
            Ok(true) => r is Ok,
            Ok(false) => r matches Err(e) && e@ == "empty Flight stream"@,
            Err(e) => r == Err::<(), String>(e),
        },
{
    match read {
        Ok(true) => Ok(()),
        Ok(false) => Err("empty Flight stream".to_string()),
        Err(e) => Err(e),
    }
}

} // verus!
