//! Routing policy: derive the upstream target from a request's `Host`
//! header value.
//!
//! The value splits at its first `:` (byte 58). The part before it is the
//! hostname; the part after it is the port, read as an unsigned 16-bit
//! decimal number and falling back to 80 when it does not parse. A request
//! without a `Host` header resolves to the fixed fallback `example.com:80`.
//! The upstream leg is always plaintext, so the TLS flag is always false.

use vstd::prelude::*;
use crate::bytes::{bytes_range, copy_bytes};

verus! {

/// An upstream to connect to: hostname, port, TLS flag, and the SNI /
/// verification name, which this policy always keeps equal to the hostname.
pub struct UpstreamTarget {
    pub hostname: Vec<u8>,
    pub port: u16,
    pub tls: bool,
    pub sni: Vec<u8>,
}

/// The mathematical shape of an upstream target: what `resolve` promises,
/// free of any concrete byte-vector representation.
pub struct TargetModel {
    pub hostname: Seq<u8>,
    pub port: u16,
    pub tls: bool,
}

/// `b` is an ASCII decimal digit.
pub open spec fn spec_is_digit(b: u8) -> bool {
    48 <= b && b <= 57
}

/// Every byte of `s` is an ASCII decimal digit.
pub open spec fn spec_all_digits(s: Seq<u8>) -> bool {
    forall|i: int| 0 <= i < s.len() ==> spec_is_digit(s[i])
}

/// The value of `s` read as a decimal numeral, most significant digit
/// first. Meaningful when `spec_all_digits(s)` holds.
pub open spec fn spec_digits_value(s: Seq<u8>) -> int
    decreases s.len(),
{
    if s.len() == 0 {
        0
    } else {
        spec_digits_value(s.drop_last()) * 10 + (s.last() - 48)
    }
}

/// `s` without one leading `+` sign, if it has one; `u16` parsing in Rust
/// accepts that sign.
pub open spec fn spec_strip_plus(s: Seq<u8>) -> Seq<u8> {
    if s.len() > 0 && s[0] == 43 {
        s.drop_first()
    } else {
        s
    }
}

/// The unsigned 16-bit number that `s` denotes, if any: an optional `+`,
/// then one or more decimal digits, with a value of at most 65535.
pub open spec fn spec_parse_u16(s: Seq<u8>) -> Option<u16> {
    let d = spec_strip_plus(s);
    if d.len() > 0 && spec_all_digits(d) && spec_digits_value(d) <= 65535 {
        Some(spec_digits_value(d) as u16)
    } else {
        None
    }
}

/// The port a host value with a colon resolves to: the parsed number, or 80
/// when the text does not parse.
pub open spec fn spec_port_or_default(s: Seq<u8>) -> u16 {
    match spec_parse_u16(s) {
        Some(p) => p,
        None => 80,
    }
}

/// The fallback hostname used when a request carries no `Host` header:
/// the bytes of `example.com`.
pub open spec fn spec_fallback_host() -> Seq<u8> {
    seq![101u8, 120u8, 97u8, 109u8, 112u8, 108u8, 101u8, 46u8, 99u8, 111u8, 109u8]
}

/// What `resolve` returns for each possible `Host` header value.
pub open spec fn spec_resolve(host: Option<Seq<u8>>) -> TargetModel {
    match host {
        None => TargetModel { hostname: spec_fallback_host(), port: 80, tls: false },
        Some(h) => match h.index_of_first(58u8) {
            None => TargetModel { hostname: h, port: 80, tls: false },
            Some(i) => TargetModel {
                hostname: h.subrange(0, i),
                port: spec_port_or_default(h.subrange(i + 1, h.len() as int)),
                tls: false,
            },
        },
    }
}

/// The concrete target `t` realises the model `m`, with the SNI name tied
/// to the hostname.
pub open spec fn target_matches(t: UpstreamTarget, m: TargetModel) -> bool {
    &&& t.hostname@ == m.hostname
    &&& t.port == m.port
    &&& t.tls == m.tls
    &&& t.sni@ == m.hostname
}

/// The view of an optional borrowed host value.
pub open spec fn spec_host_view(host: Option<&Vec<u8>>) -> Option<Seq<u8>> {
    match host {
        Some(h) => Some(h@),
        None => None,
    }
}

/// A numeral's value is never negative.
proof fn lemma_digits_value_nonneg(s: Seq<u8>)
    requires
        spec_all_digits(s),
    ensures
        spec_digits_value(s) >= 0,
    decreases s.len(),
{
    if s.len() > 0 {
        assert(spec_all_digits(s.drop_last()));
        lemma_digits_value_nonneg(s.drop_last());
        assert(spec_is_digit(s.last()));
    }
}

/// A prefix of a numeral never exceeds the whole numeral in value.
proof fn lemma_digits_value_prefix_le(s: Seq<u8>, i: int)
    requires
        spec_all_digits(s),
        0 <= i <= s.len(),
    ensures
        spec_digits_value(s.subrange(0, i)) <= spec_digits_value(s),
    decreases s.len() - i,
{
    if i == s.len() {
        assert(s.subrange(0, i) =~= s);
    } else {
        let p = s.subrange(0, i + 1);
        assert(p.drop_last() =~= s.subrange(0, i));
        assert(p.last() == s[i]);
        assert(spec_all_digits(s.subrange(0, i)));
        lemma_digits_value_nonneg(s.subrange(0, i));
        assert(spec_is_digit(s[i]));
        assert(spec_digits_value(p) == spec_digits_value(s.subrange(0, i)) * 10 + (s[i] - 48));
        lemma_digits_value_prefix_le(s, i + 1);
    }
}

/// Reads `s` as an unsigned 16-bit decimal number, exactly as
/// `spec_parse_u16` describes.
pub fn parse_u16(s: &Vec<u8>) -> (r: Option<u16>)
    ensures
        r == spec_parse_u16(s@),
{
    let ghost d = spec_strip_plus(s@);
    let n = s.len();
    let start: usize = if n > 0 && s[0] == 43 {
        1
    } else {
        0
    };
    proof {
        assert(d =~= s@.subrange(start as int, n as int));
    }
    if start == n {
        return None;
    }
    let mut acc: u32 = 0;
    let mut i: usize = start;
    proof {
        assert(d.subrange(0, 0) =~= Seq::<u8>::empty());
    }
    while i < n
        invariant
            start <= i <= n,
            n == s@.len(),
            d == spec_strip_plus(s@),
            d =~= s@.subrange(start as int, n as int),
            start < n,
            acc <= 65535,
            acc as int == spec_digits_value(d.subrange(0, i - start)),
            forall|j: int| 0 <= j < i - start ==> spec_is_digit(d[j]),
        decreases n - i,
    {
        let b = s[i];
        assert(d[i - start] == b);
        if b < 48 || b > 57 {
            assert(!spec_is_digit(d[i - start]));
            assert(!spec_all_digits(d));
            return None;
        }
        let dig: u32 = (b - 48) as u32;
        let next: u32 = acc * 10 + dig;
        proof {
            let p = d.subrange(0, i - start + 1);
            assert(p.drop_last() =~= d.subrange(0, i - start));
            assert(p.last() == d[i - start]);
            assert(spec_digits_value(p) == spec_digits_value(d.subrange(0, i - start)) * 10 + (b - 48));
            assert(next as int == spec_digits_value(p));
        }
        if next > 65535 {
            proof {
                if spec_all_digits(d) {
                    lemma_digits_value_prefix_le(d, i - start + 1);
                    assert(spec_digits_value(d) > 65535);
                }
            }
            return None;
        }
        acc = next;
        i += 1;
    }
    proof {
        assert(d.subrange(0, n - start) =~= d);
        assert(spec_digits_value(d) == acc as int);
        assert(spec_all_digits(d));
        assert(d.len() > 0);
    }
    Some(acc as u16)
}

/// The index of the first colon in `h`, if there is one.
fn find_colon(h: &Vec<u8>) -> (r: Option<usize>)
    ensures
        match r {
            Some(i) => i < h@.len() && h@[i as int] == 58 && (forall|j: int|
                0 <= j < i ==> h@[j] != 58),
            None => forall|j: int| 0 <= j < h@.len() ==> h@[j] != 58,
        },
{
    let n = h.len();
    let mut i: usize = 0;
    while i < n
        invariant
            0 <= i <= n,
            n == h@.len(),
            forall|j: int| 0 <= j < i ==> h@[j] != 58,
        decreases n - i,
    {
        if h[i] == 58 {
            return Some(i);
        }
        i += 1;
    }
    None
}

/// The fallback hostname, `example.com`, as bytes.
pub fn fallback_host() -> (r: Vec<u8>)
    ensures
        r@ == spec_fallback_host(),
{
    let mut v: Vec<u8> = Vec::new();
    v.push(101);
    v.push(120);
    v.push(97);
    v.push(109);
    v.push(112);
    v.push(108);
    v.push(101);
    v.push(46);
    v.push(99);
    v.push(111);
    v.push(109);
    proof {
        assert(v@ =~= spec_fallback_host());
    }
    v
}

/// Routing policy: the upstream target for a request whose `Host` header
/// holds `host` (or that has none). Total: every input resolves to a
/// target, malformed ports fall back to 80, and the upstream leg is always
/// plaintext.
pub fn resolve(host: Option<&Vec<u8>>) -> (t: UpstreamTarget)
    ensures
        target_matches(t, spec_resolve(spec_host_view(host))),
{
    match host {
        None => {
            let name = fallback_host();
            let sni = copy_bytes(&name);
            UpstreamTarget { hostname: name, port: 80, tls: false, sni }
        },
        Some(h) => {
            match find_colon(h) {
                None => {
                    proof {
                        h@.index_of_first_ensures(58u8);
                        if h@.index_of_first(58u8) is Some {
                            let k = h@.index_of_first(58u8)->0;
                            assert(h@[k] != 58);
                        }
                    }
                    let name = copy_bytes(h);
                    let sni = copy_bytes(h);
                    UpstreamTarget { hostname: name, port: 80, tls: false, sni }
                },
                Some(i) => {
                    proof {
                        h@.index_of_first_ensures(58u8);
                        assert(h@.contains(58u8)) by {
                            assert(h@[i as int] == 58u8);
                        }
                        let k = h@.index_of_first(58u8)->0;
                        assert(h@[k] == 58);
                        assert(k == i);
                    }
                    let hn = h.len();
                    let name = bytes_range(h, 0, i);
                    let rest = bytes_range(h, i + 1, hn);
                    let port: u16 = match parse_u16(&rest) {
                        Some(p) => p,
                        None => 80,
                    };
                    let sni = copy_bytes(&name);
                    UpstreamTarget { hostname: name, port, tls: false, sni }
                },
            }
        },
    }
}

/// The prefix `Proxying request to: ` of the informational line announcing
/// a resolution.
pub open spec fn spec_announce_prefix() -> Seq<u8> {
    seq![80u8, 114u8, 111u8, 120u8, 121u8, 105u8, 110u8, 103u8, 32u8, 114u8, 101u8, 113u8, 117u8, 101u8, 115u8, 116u8, 32u8, 116u8, 111u8, 58u8, 32u8]
}

/// The host string an announcement names: the raw header value, or
/// `example.com:80` when the request carried none.
pub open spec fn spec_announced_host(host: Option<Seq<u8>>) -> Seq<u8> {
    match host {
        Some(h) => h,
        None => spec_fallback_host() + seq![58u8, 56u8, 48u8],
    }
}

/// The informational line that accompanies each resolution, naming the
/// host value it worked from. Emitting it is the caller's business.
pub fn announce_line(host: Option<&Vec<u8>>) -> (line: Vec<u8>)
    ensures
        line@ == spec_announce_prefix() + spec_announced_host(spec_host_view(host)),
{
    let mut line: Vec<u8> = Vec::new();
    line.push(80);
    line.push(114);
    line.push(111);
    line.push(120);
    line.push(121);
    line.push(105);
    line.push(110);
    line.push(103);
    line.push(32);
    line.push(114);
    line.push(101);
    line.push(113);
    line.push(117);
    line.push(101);
    line.push(115);
    line.push(116);
    line.push(32);
    line.push(116);
    line.push(111);
    line.push(58);
    line.push(32);
    proof {
        assert(line@ =~= spec_announce_prefix());
    }
    match host {
        Some(h) => {
            crate::bytes::append_bytes(&mut line, h);
        },
        None => {
            let mut tail = fallback_host();
            tail.push(58);
            tail.push(56);
            tail.push(48);
            crate::bytes::append_bytes(&mut line, &tail);
            proof {
                assert(tail@ =~= spec_announced_host(None::<Seq<u8>>));
            }
        },
    }
    line
}

/// Splitting law: a value of the form `host:port`, with no colon in the
/// host part and a port that reads as an unsigned 16-bit number, resolves
/// to exactly that host and that port, without TLS.
pub proof fn lemma_resolve_host_port(h: Seq<u8>, p: Seq<u8>, port: u16)
    requires
        !h.contains(58u8),
        spec_parse_u16(p) == Some(port),
    ensures
        spec_resolve(Some(h + seq![58u8] + p)).hostname == h,
        spec_resolve(Some(h + seq![58u8] + p)).port == port,
        spec_resolve(Some(h + seq![58u8] + p)).tls == false,
{
    let s = h + seq![58u8] + p;
    lemma_first_colon_at_split(h, p);
    let i = h.len() as int;
    assert(s.subrange(0, i) =~= h);
    assert(s.subrange(i + 1, s.len() as int) =~= p);
}

/// A value with no colon at all resolves to itself as hostname, port 80,
/// without TLS.
pub proof fn lemma_resolve_no_colon(h: Seq<u8>)
    requires
        !h.contains(58u8),
    ensures
        spec_resolve(Some(h)).hostname == h,
        spec_resolve(Some(h)).port == 80,
        spec_resolve(Some(h)).tls == false,
{
    h.index_of_first_ensures(58u8);
    if h.index_of_first(58u8) is Some {
        assert(h.contains(58u8));
    }
}

/// A value of the form `host:rest` whose `rest` does not read as an
/// unsigned 16-bit number resolves to the host part with the default
/// port 80, without TLS.
pub proof fn lemma_resolve_bad_port(h: Seq<u8>, p: Seq<u8>)
    requires
        !h.contains(58u8),
        spec_parse_u16(p) is None,
    ensures
        spec_resolve(Some(h + seq![58u8] + p)).hostname == h,
        spec_resolve(Some(h + seq![58u8] + p)).port == 80,
        spec_resolve(Some(h + seq![58u8] + p)).tls == false,
{
    let s = h + seq![58u8] + p;
    lemma_first_colon_at_split(h, p);
    let i = h.len() as int;
    assert(s.subrange(0, i) =~= h);
    assert(s.subrange(i + 1, s.len() as int) =~= p);
}

/// In `h + ":" + p` with a colon-free `h`, the first colon stands exactly
/// at index `h.len()`.
proof fn lemma_first_colon_at_split(h: Seq<u8>, p: Seq<u8>)
    requires
        !h.contains(58u8),
    ensures
        (h + seq![58u8] + p).index_of_first(58u8) == Some(h.len() as int),
{
    let s = h + seq![58u8] + p;
    s.index_of_first_ensures(58u8);
    assert(s[h.len() as int] == 58u8);
    assert(s.contains(58u8));
    let k = s.index_of_first(58u8)->0;
    assert(forall|j: int| 0 <= j < h.len() ==> s[j] == h[j]);
    if k < h.len() {
        assert(h[k] == 58u8);
        assert(h.contains(58u8));
    }
    if k > h.len() {
        assert(s[h.len() as int] != 58u8);
    }
}

} // verus!
