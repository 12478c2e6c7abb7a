//! The per-request completion record.
//!
//! Every request ends in exactly one such record: client address, method,
//! URI and the response's status code — or the sentinel 0 when the cycle
//! ended before any response was produced. The record renders to one log
//! line; emitting it is the caller's business and may never fail the
//! request.

use vstd::prelude::*;
use crate::bytes::{append_bytes, copy_bytes};

verus! {

/// What the completion logger records for one finished request.
pub struct LogRecord {
    pub client: Vec<u8>,
    pub method: Vec<u8>,
    pub uri: Vec<u8>,
    pub status: u16,
}

/// The status recorded for a response outcome: the code itself, or the
/// sentinel 0 when no response was produced.
pub open spec fn spec_status_of(response_status: Option<u16>) -> u16 {
    match response_status {
        Some(s) => s,
        None => 0,
    }
}

/// The decimal numeral of `n`, most significant digit first.
pub open spec fn spec_decimal(n: int) -> Seq<u8>
    decreases n,
{
    if n < 0 {
        Seq::empty()
    } else if n < 10 {
        seq![(n + 48) as u8]
    } else {
        spec_decimal(n / 10).push((n % 10 + 48) as u8)
    }
}

/// The literal ` - Status: ` that separates the request line from the
/// status in a rendered record.
pub open spec fn spec_status_label() -> Seq<u8> {
    seq![32u8, 45u8, 32u8, 83u8, 116u8, 97u8, 116u8, 117u8, 115u8, 58u8, 32u8]
}

/// The rendered form of a record: client, method and URI separated by
/// spaces, then the status label and the status in decimal.
pub open spec fn spec_log_line(client: Seq<u8>, method: Seq<u8>, uri: Seq<u8>, status: u16) -> Seq<
    u8,
> {
    client + seq![32u8] + method + seq![32u8] + uri + spec_status_label() + spec_decimal(
        status as int,
    )
}

/// Builds the completion record for one request: the identifying fields
/// are taken over unchanged, and the status is the response's code, or 0
/// when there was no response.
pub fn completion_record(
    client: Vec<u8>,
    method: Vec<u8>,
    uri: Vec<u8>,
    response_status: Option<u16>,
) -> (r: LogRecord)
    ensures
        r.client@ == client@,
        r.method@ == method@,
        r.uri@ == uri@,
        r.status == spec_status_of(response_status),
{
    let status: u16 = match response_status {
        Some(s) => s,
        None => 0,
    };
    LogRecord { client, method, uri, status }
}

/// The sentinel 0 appears in a record exactly when no response was
/// produced: real HTTP status codes start at 100.
pub proof fn lemma_status_zero_iff_no_response(response_status: Option<u16>)
    requires
        response_status matches Some(s) ==> 100 <= s,
    ensures
        (spec_status_of(response_status) == 0) <==> (response_status is None),
{
}

/// The decimal numeral of `n`, as bytes.
pub fn u16_decimal(n: u16) -> (r: Vec<u8>)
    ensures
        r@ == spec_decimal(n as int),
    decreases n,
{
    if n < 10 {
        let mut v: Vec<u8> = Vec::new();
        v.push((n as u8) + 48);
        proof {
            assert(v@ =~= spec_decimal(n as int));
        }
        v
    } else {
        let mut v = u16_decimal(n / 10);
        v.push(((n % 10) as u8) + 48);
        v
    }
}

/// Renders a record as its one log line.
pub fn format_log_line(r: &LogRecord) -> (line: Vec<u8>)
    ensures
        line@ == spec_log_line(r.client@, r.method@, r.uri@, r.status),
{
    let mut line = copy_bytes(&r.client);
    line.push(32);
    append_bytes(&mut line, &r.method);
    line.push(32);
    append_bytes(&mut line, &r.uri);
    line.push(32);
    line.push(45);
    line.push(32);
    line.push(83);
    line.push(116);
    line.push(97);
    line.push(116);
    line.push(117);
    line.push(115);
    line.push(58);
    line.push(32);
    let digits = u16_decimal(r.status);
    append_bytes(&mut line, &digits);
    proof {
        assert(line@ =~= spec_log_line(r.client@, r.method@, r.uri@, r.status));
    }
    line
}

} // verus!
