//! The job-submission record: three unsigned 32-bit fields, `mobile_id`, `job_id`
//! and the requested service time, each written least significant byte first.
use vstd::prelude::*;
use vstd::arithmetic::div_mod::{lemma_fundamental_div_mod, lemma_div_denominator, lemma_div_pos_is_pos};
use crate::job::Job;

verus! {

/// Number of bytes in one job-submission record.
pub const RECORD_LEN: usize = 12;

/// Why a record could not be decoded.
#[derive(Clone, Copy, Debug, PartialEq, Eq, Structural)]
pub enum DecodeError {
    /// The record does not hold exactly `RECORD_LEN` bytes.
    WrongLength { len: usize },
}

/// The value of four bytes read as an unsigned integer, least significant byte first.
pub open spec fn le_u32(b0: u8, b1: u8, b2: u8, b3: u8) -> int {
    b0 as int + 256 * b1 as int + 65536 * b2 as int + 16777216 * b3 as int
}

/// The four bytes of `x`, least significant first.
pub open spec fn le_bytes(x: u32) -> Seq<u8> {
    seq![(x % 256) as u8, (x / 256 % 256) as u8, (x / 65536 % 256) as u8, (x / 16777216) as u8]
}

/// The record that carries `job`.
pub open spec fn encoded(job: Job) -> Seq<u8> {
    le_bytes(job.mobile_id) + le_bytes(job.job_id) + le_bytes(job.remaining_time_ms)
}

/// The field that starts at `start` in `b`.
pub open spec fn field_at(b: Seq<u8>, start: int) -> u32 {
    le_u32(b[start], b[start + 1], b[start + 2], b[start + 3]) as u32
}

/// The job that a record of `RECORD_LEN` bytes carries.
pub open spec fn decoded(b: Seq<u8>) -> Job {
    Job { mobile_id: field_at(b, 0), job_id: field_at(b, 4), remaining_time_ms: field_at(b, 8) }
}

/// Reading back the four bytes of `x` gives `x`.
pub proof fn lemma_le_bytes_value(x: u32)
    ensures
        le_bytes(x).len() == 4,
        le_u32(le_bytes(x)[0], le_bytes(x)[1], le_bytes(x)[2], le_bytes(x)[3]) == x,
{
    let v = x as int;
    lemma_fundamental_div_mod(v, 256);
    lemma_fundamental_div_mod(v / 256, 256);
    lemma_fundamental_div_mod(v / 65536, 256);
    lemma_div_denominator(v, 256, 256);
    lemma_div_denominator(v, 65536, 256);
    lemma_div_pos_is_pos(v, 16777216);
    assert(v / 16777216 < 256) by {
        vstd::arithmetic::div_mod::lemma_div_is_ordered(v, 4294967295, 16777216);
    }
    assert(v == v % 256 + 256 * (v / 256 % 256) + 65536 * (v / 65536 % 256) + 16777216 * (v
        / 16777216)) by (nonlinear_arith)
        requires
            v == 256 * (v / 256) + v % 256,
            v / 256 == 256 * (v / 256 / 256) + v / 256 % 256,
            v / 65536 == 256 * (v / 65536 / 256) + v / 65536 % 256,
            v / 256 / 256 == v / 65536,
            v / 65536 / 256 == v / 16777216,
    ;
}

/// Decoding the record of a job gives that job back.
pub proof fn lemma_decode_encode(job: Job)
    ensures
        encoded(job).len() == RECORD_LEN,
        decoded(encoded(job)) == job,
{
    lemma_le_bytes_value(job.mobile_id);
    lemma_le_bytes_value(job.job_id);
    lemma_le_bytes_value(job.remaining_time_ms);
}

/// Reads the field that starts at `start` in `bytes`.
pub fn read_u32_le(bytes: &[u8], start: usize) -> (r: u32)
    requires
        start + 4 <= bytes@.len(),
    ensures
        r == field_at(bytes@, start as int),
        r as int == le_u32(bytes@[start as int], bytes@[start + 1], bytes@[start + 2], bytes@[start + 3]),
{
    let b0 = bytes[start] as u32;
    let b1 = bytes[start + 1] as u32;
    let b2 = bytes[start + 2] as u32;
    let b3 = bytes[start + 3] as u32;
    assert(b0 + 256 * b1 + 65536 * b2 + 16777216 * b3 <= u32::MAX) by (nonlinear_arith)
        requires
            b0 <= 255,
            b1 <= 255,
            b2 <= 255,
            b3 <= 255,
    ;
    b0 + 256 * b1 + 65536 * b2 + 16777216 * b3
}

/// Appends the four bytes of `x` to `out`, least significant first.
pub fn write_u32_le(out: &mut Vec<u8>, x: u32)
    ensures
        final(out)@ == old(out)@ + le_bytes(x),
{
    out.push((x % 256) as u8);
    out.push((x / 256 % 256) as u8);
    out.push((x / 65536 % 256) as u8);
    out.push((x / 16777216) as u8);
    assert(final(out)@ =~= old(out)@ + le_bytes(x));
}

/// The record that carries `job`.
pub fn encode(job: &Job) -> (r: Vec<u8>)
    ensures
        r@ == encoded(*job),
        r@.len() == RECORD_LEN,
{
    let mut r: Vec<u8> = Vec::new();
    write_u32_le(&mut r, job.mobile_id);
    write_u32_le(&mut r, job.job_id);
    write_u32_le(&mut r, job.remaining_time_ms);
    assert(r@ =~= encoded(*job));
    r
}

/// The job that `bytes` carries; a record of any other length than `RECORD_LEN`
/// is refused.
pub fn decode(bytes: &[u8]) -> (r: Result<Job, DecodeError>)
    ensures
        bytes@.len() == RECORD_LEN ==> r == Ok::<Job, DecodeError>(decoded(bytes@)),
        bytes@.len() != RECORD_LEN ==> r == Err::<Job, DecodeError>(
            DecodeError::WrongLength { len: bytes@.len() as usize },
        ),
{
    if bytes.len() != RECORD_LEN {
        return Err(DecodeError::WrongLength { len: bytes.len() });
    }
    Ok(Job {
        mobile_id: read_u32_le(bytes, 0),
        job_id: read_u32_le(bytes, 4),
        remaining_time_ms: read_u32_le(bytes, 8),
    })
}

} // verus!
