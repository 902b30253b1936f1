//! The submitting side: command-line identities and the stream of jobs that one
//! mobile sends, each with a randomly drawn service time.
use vstd::prelude::*;
use rand::Rng;
use crate::codec::{encode, encoded};
use crate::job::Job;

verus! {

/// Shortest service time that a submitter requests.
pub const MIN_JOB_TIME_MS: u32 = 6000;

/// Bound, not reached, on the service time that a submitter requests.
pub const MAX_JOB_TIME_MS: u32 = 6500;

/// Whether every character of `s` is an ASCII decimal digit.
pub open spec fn all_digits(s: Seq<char>) -> bool {
    forall|i: int| 0 <= i < s.len() ==> '0' <= #[trigger] s[i] <= '9'
}

/// The number that the decimal digits `s` write, most significant first.
pub open spec fn decimal_value(s: Seq<char>) -> int
    decreases s.len(),
{
    if s.len() == 0 {
        0
    } else {
        10 * decimal_value(s.drop_last()) + (s.last() as int - '0' as int)
    }
}

/// The number that the text `s` writes as an unsigned decimal: an optional `+`,
/// then one or more ASCII digits, worth at most `u32::MAX`. `None` for any other text.
pub open spec fn decimal_u32(s: Seq<char>) -> Option<u32> {
    let d = if s.len() > 0 && s[0] == '+' {
        s.drop_first()
    } else {
        s
    };
    if d.len() > 0 && all_digits(d) && decimal_value(d) <= u32::MAX {
        Some(decimal_value(d) as u32)
    } else {
        None
    }
}

/// Relies on `str::parse::<u32>` (`u32::from_str_radix` in base 10): it accepts
/// an optional `+` followed by digits alone, and refuses a value that overflows.
#[verifier::external_body]
fn parse_u32(s: &str) -> (r: Option<u32>)
    ensures
        r == decimal_u32(s@),
{
    s.parse::<u32>().ok()
}

/// Relies on `rand::Rng::gen_range` of rand's `thread_rng`: a value drawn from
/// `lo` up to, not including, `hi`. `thread_rng` panics only where the operating
/// system gives it no seed.
#[verifier::external_body]
fn draw_in_range(lo: u32, hi: u32) -> (r: u32)
    requires
        lo < hi,
    ensures
        lo <= r < hi,
{
    rand::thread_rng().gen_range(lo, hi)
}

/// The result of reading a numeric argument: a missing one gives `missing`, one
/// that is no `u32` gives `invalid`.
pub open spec fn numeric_arg(arg: Option<Seq<char>>, missing: Seq<char>, invalid: Seq<char>) -> Result<u32, Seq<char>> {
    match arg {
        None => Err(missing),
        Some(a) => match decimal_u32(a) {
            Some(v) => Ok(v),
            None => Err(invalid),
        },
    }
}

/// The view of an optional argument.
pub open spec fn arg_view(arg: Option<&String>) -> Option<Seq<char>> {
    match arg {
        None => None,
        Some(a) => Some(a@),
    }
}

/// The view of a parse result whose error is a message.
pub open spec fn result_view(r: Result<u32, String>) -> Result<u32, Seq<char>> {
    match r {
        Ok(v) => Ok(v),
        Err(e) => Err(e@),
    }
}

/// Reads a numeric argument, with `missing` and `invalid` as the messages of failure.
fn parse_numeric_arg(arg: Option<&String>, missing: &str, invalid: &str) -> (r: Result<u32, String>)
    ensures
        result_view(r) == numeric_arg(arg_view(arg), missing@, invalid@),
{
    match arg {
        None => Err(missing.to_owned()),
        Some(a) => match parse_u32(a.as_str()) {
            Some(v) => Ok(v),
            None => Err(invalid.to_owned()),
        },
    }
}

/// Reads the mobile identity from its command-line argument.
pub fn parse_id(id_arg: Option<&String>) -> (r: Result<u32, String>)
    ensures
        result_view(r) == numeric_arg(
            arg_view(id_arg),
            "No MobileId argument provided"@,
            "Invalid MobileId provided"@,
        ),
{
    parse_numeric_arg(id_arg, "No MobileId argument provided", "Invalid MobileId provided")
}

/// Reads the local port of a submitter from its command-line argument.
pub fn parse_client_port(port_arg: Option<&String>) -> (r: Result<u32, String>)
    ensures
        result_view(r) == numeric_arg(
            arg_view(port_arg),
            "No Client Port argument provided"@,
            "Invalid Client Port provided"@,
        ),
{
    parse_numeric_arg(port_arg, "No Client Port argument provided", "Invalid Client Port provided")
}

/// One mobile's stream of submissions: job numbers start at 1 and rise by one.
pub struct Submitter {
    mobile_id: u32,
    sent: u32,
}

impl Submitter {
    /// The identity of the submitting mobile.
    pub closed spec fn mobile_id_spec(&self) -> u32 {
        self.mobile_id
    }

    /// Number of jobs numbered so far.
    pub closed spec fn sent_spec(&self) -> u32 {
        self.sent
    }

    /// A submitter for `mobile_id` that has numbered no job yet.
    pub fn new(mobile_id: u32) -> (s: Submitter)
        ensures
            s.mobile_id_spec() == mobile_id,
            s.sent_spec() == 0,
    {
        Submitter { mobile_id, sent: 0 }
    }

    /// Number of jobs numbered so far.
    pub fn sent(&self) -> (n: u32)
        ensures
            n == self.sent_spec(),
    {
        self.sent
    }

    /// The next job, owed `job_time_ms`, with the next job number. `None`, with
    /// nothing changed, once every `u32` job number has been used.
    pub fn next_job(&mut self, job_time_ms: u32) -> (r: Option<Job>)
        ensures
            final(self).mobile_id_spec() == old(self).mobile_id_spec(),
            r.is_none() == (old(self).sent_spec() == u32::MAX),
            r.is_none() ==> final(self).sent_spec() == old(self).sent_spec(),
            r matches Some(j) ==> final(self).sent_spec() == old(self).sent_spec() + 1 && j == (Job {
                mobile_id: old(self).mobile_id_spec(),
                job_id: final(self).sent_spec(),
                remaining_time_ms: job_time_ms,
            }),
    {
        if self.sent == u32::MAX {
            return None;
        }
        self.sent = self.sent + 1;
        Some(Job { mobile_id: self.mobile_id, job_id: self.sent, remaining_time_ms: job_time_ms })
    }

    /// The record of the next job, whose service time is drawn from
    /// `MIN_JOB_TIME_MS` up to, not including, `MAX_JOB_TIME_MS`.
    pub fn next_record(&mut self) -> (r: Option<(Job, Vec<u8>)>)
        ensures
            final(self).mobile_id_spec() == old(self).mobile_id_spec(),
            r.is_none() == (old(self).sent_spec() == u32::MAX),
            r.is_none() ==> final(self).sent_spec() == old(self).sent_spec(),
            r matches Some((j, b)) ==> {
                &&& final(self).sent_spec() == old(self).sent_spec() + 1
                &&& j.mobile_id == old(self).mobile_id_spec()
                &&& j.job_id == final(self).sent_spec()
                &&& MIN_JOB_TIME_MS <= j.remaining_time_ms < MAX_JOB_TIME_MS
                &&& b@ == encoded(j)
            },
    {
        if self.sent == u32::MAX {
            return None;
        }
        let t = draw_in_range(MIN_JOB_TIME_MS, MAX_JOB_TIME_MS);
        match self.next_job(t) {
            Some(j) => {
                let b = encode(&j);
                Some((j, b))
            },
            None => None,
        }
    }
}

} // verus!
