//! Header-mutation policies for the two proxy legs.
//!
//! Outbound (towards the upstream): the hop-by-hop `Proxy-Connection`
//! header is stripped, matched case-insensitively; every other header is
//! kept, in order. Inbound (back to the client): the identification header
//! `X-Proxy-Server: pinproxy` is set, replacing any header of that name.

use vstd::prelude::*;
use crate::bytes::{spec_lower, lower_eq, copy_bytes};

verus! {

/// One HTTP header: a name and a value, both plain bytes. Names compare
/// case-insensitively; duplicates may occur in a header list.
pub struct Header {
    pub name: Vec<u8>,
    pub value: Vec<u8>,
}

/// The mathematical shape of a header.
pub struct HeaderModel {
    pub name: Seq<u8>,
    pub value: Seq<u8>,
}

/// The model of one concrete header.
pub open spec fn header_model(h: Header) -> HeaderModel {
    HeaderModel { name: h.name@, value: h.value@ }
}

/// The model of a header list.
pub open spec fn headers_model(s: Seq<Header>) -> Seq<HeaderModel> {
    s.map_values(|h: Header| header_model(h))
}

/// The header `h` is named `name`, up to ASCII case; `name` is given
/// already lowercased.
pub open spec fn is_named(h: HeaderModel, name: Seq<u8>) -> bool {
    spec_lower(h.name) == name
}

/// The bytes of `proxy-connection`, the hop-by-hop header the outbound
/// filter strips.
pub open spec fn spec_proxy_connection_name() -> Seq<u8> {
    seq![112u8, 114u8, 111u8, 120u8, 121u8, 45u8, 99u8, 111u8, 110u8, 110u8, 101u8, 99u8, 116u8, 105u8, 111u8, 110u8]
}

/// The bytes of `x-proxy-server`, the identification header's name,
/// lowercased for matching.
pub open spec fn spec_x_proxy_server_name() -> Seq<u8> {
    seq![120u8, 45u8, 112u8, 114u8, 111u8, 120u8, 121u8, 45u8, 115u8, 101u8, 114u8, 118u8, 101u8, 114u8]
}

/// The bytes of `X-Proxy-Server`, the casing under which the inbound
/// filter writes the identification header.
pub open spec fn spec_x_proxy_server_insert_name() -> Seq<u8> {
    seq![88u8, 45u8, 80u8, 114u8, 111u8, 120u8, 121u8, 45u8, 83u8, 101u8, 114u8, 118u8, 101u8, 114u8]
}

/// The bytes of `pinproxy`, the identification header's value.
pub open spec fn spec_pinproxy_value() -> Seq<u8> {
    seq![112u8, 105u8, 110u8, 112u8, 114u8, 111u8, 120u8, 121u8]
}

/// What the outbound filter leaves: the original headers, in order, minus
/// every header named `Proxy-Connection`.
pub open spec fn spec_filter_outbound(s: Seq<HeaderModel>) -> Seq<HeaderModel> {
    s.filter(|h: HeaderModel| !is_named(h, spec_proxy_connection_name()))
}

/// What the inbound filter leaves: the original headers, in order, minus
/// every header named `X-Proxy-Server`, then that header once with the
/// value `pinproxy`.
pub open spec fn spec_filter_inbound(s: Seq<HeaderModel>) -> Seq<HeaderModel> {
    s.filter(|h: HeaderModel| !is_named(h, spec_x_proxy_server_name())).push(
        HeaderModel { name: spec_x_proxy_server_insert_name(), value: spec_pinproxy_value() },
    )
}

/// The name `proxy-connection` as bytes.
pub fn proxy_connection_name() -> (r: Vec<u8>)
    ensures
        r@ == spec_proxy_connection_name(),
{
    let mut v: Vec<u8> = Vec::new();
    v.push(112);
    v.push(114);
    v.push(111);
    v.push(120);
    v.push(121);
    v.push(45);
    v.push(99);
    v.push(111);
    v.push(110);
    v.push(110);
    v.push(101);
    v.push(99);
    v.push(116);
    v.push(105);
    v.push(111);
    v.push(110);
    proof {
        assert(v@ =~= spec_proxy_connection_name());
    }
    v
}

/// The name `x-proxy-server` as lowercase bytes.
pub fn x_proxy_server_name() -> (r: Vec<u8>)
    ensures
        r@ == spec_x_proxy_server_name(),
{
    let mut v: Vec<u8> = Vec::new();
    v.push(120);
    v.push(45);
    v.push(112);
    v.push(114);
    v.push(111);
    v.push(120);
    v.push(121);
    v.push(45);
    v.push(115);
    v.push(101);
    v.push(114);
    v.push(118);
    v.push(101);
    v.push(114);
    proof {
        assert(v@ =~= spec_x_proxy_server_name());
    }
    v
}

/// The name `X-Proxy-Server` as written into responses.
pub fn x_proxy_server_insert_name() -> (r: Vec<u8>)
    ensures
        r@ == spec_x_proxy_server_insert_name(),
{
    let mut v: Vec<u8> = Vec::new();
    v.push(88);
    v.push(45);
    v.push(80);
    v.push(114);
    v.push(111);
    v.push(120);
    v.push(121);
    v.push(45);
    v.push(83);
    v.push(101);
    v.push(114);
    v.push(118);
    v.push(101);
    v.push(114);
    proof {
        assert(v@ =~= spec_x_proxy_server_insert_name());
    }
    v
}

/// The value `pinproxy` as bytes.
pub fn pinproxy_value() -> (r: Vec<u8>)
    ensures
        r@ == spec_pinproxy_value(),
{
    let mut v: Vec<u8> = Vec::new();
    v.push(112);
    v.push(105);
    v.push(110);
    v.push(112);
    v.push(114);
    v.push(111);
    v.push(120);
    v.push(121);
    proof {
        assert(v@ =~= spec_pinproxy_value());
    }
    v
}

/// A fresh copy of one header.
fn copy_header(h: &Header) -> (r: Header)
    ensures
        header_model(r) == header_model(*h),
{
    Header { name: copy_bytes(&h.name), value: copy_bytes(&h.value) }
}

/// Keeps, in order, the headers not named `name` (given lowercased).
fn retain_not_named(headers: &mut Vec<Header>, name: &Vec<u8>)
    requires
        spec_lower(name@) == name@,
    ensures
        headers_model(final(headers)@) == headers_model(old(headers)@).filter(
            |h: HeaderModel| !is_named(h, name@),
        ),
{
    let ghost pred = |h: HeaderModel| !is_named(h, name@);
    let mut kept: Vec<Header> = Vec::new();
    let n = headers.len();
    proof {
        reveal(Seq::filter);
        assert(headers_model(headers@.subrange(0, 0)) =~= Seq::<HeaderModel>::empty());
        assert(headers_model(kept@) =~= headers_model(headers@.subrange(0, 0)).filter(pred));
    }
    let mut i: usize = 0;
    while i < n
        invariant
            0 <= i <= n,
            n == headers@.len(),
            headers@ == old(headers)@,
            pred == (|h: HeaderModel| !is_named(h, name@)),
            headers_model(kept@) == headers_model(headers@.subrange(0, i as int)).filter(pred),
        decreases n - i,
    {
        let h = &headers[i];
        let keep = !lower_eq(&h.name, name);
        proof {
            reveal(Seq::filter);
            let prefix = headers_model(headers@.subrange(0, i as int));
            let next = headers_model(headers@.subrange(0, i as int + 1));
            assert(headers@.subrange(0, i as int + 1).drop_last() =~= headers@.subrange(
                0,
                i as int,
            ));
            assert(next.drop_last() =~= prefix);
            assert(next.last() == header_model(headers@[i as int]));
            assert(next.len() > 0);
            assert(next.filter(pred) == if pred(next.last()) {
                prefix.filter(pred).push(next.last())
            } else {
                prefix.filter(pred)
            });
        }
        if keep {
            let c = copy_header(h);
            kept.push(c);
            proof {
                assert(headers_model(kept@) =~= headers_model(headers@.subrange(
                    0,
                    i as int,
                )).filter(pred).push(header_model(headers@[i as int])));
            }
        }
        i += 1;
    }
    proof {
        assert(headers@.subrange(0, n as int) =~= headers@);
    }
    *headers = kept;
}

/// Outbound header filter: removes every header named `Proxy-Connection`
/// (matched case-insensitively) and leaves all other headers untouched,
/// in their original order. A no-op when the header is absent.
pub fn filter_outbound(headers: &mut Vec<Header>)
    ensures
        headers_model(final(headers)@) == spec_filter_outbound(headers_model(old(headers)@)),
{
    let name = proxy_connection_name();
    proof {
        assert(spec_lower(spec_proxy_connection_name()) =~= spec_proxy_connection_name());
    }
    retain_not_named(headers, &name);
}

/// Inbound header filter: sets `X-Proxy-Server: pinproxy`, replacing any
/// existing header of that name, and leaves all other headers untouched,
/// in their original order.
pub fn filter_inbound(headers: &mut Vec<Header>)
    ensures
        headers_model(final(headers)@) == spec_filter_inbound(headers_model(old(headers)@)),
{
    let name = x_proxy_server_name();
    proof {
        assert(spec_lower(spec_x_proxy_server_name()) =~= spec_x_proxy_server_name());
    }
    retain_not_named(headers, &name);
    let stamp = Header { name: x_proxy_server_insert_name(), value: pinproxy_value() };
    headers.push(stamp);
    proof {
        assert(headers_model(headers@) =~= spec_filter_inbound(headers_model(old(headers)@)));
    }
}

/// After the outbound filter, no header named `Proxy-Connection` remains.
pub proof fn lemma_outbound_strips_proxy_connection(s: Seq<HeaderModel>)
    ensures
        forall|i: int|
            0 <= i < spec_filter_outbound(s).len() ==> !is_named(
                #[trigger] spec_filter_outbound(s)[i],
                spec_proxy_connection_name(),
            ),
{
    let pred = |h: HeaderModel| !is_named(h, spec_proxy_connection_name());
    assert forall|i: int| 0 <= i < spec_filter_outbound(s).len() implies !is_named(
        spec_filter_outbound(s)[i],
        spec_proxy_connection_name(),
    ) by {
        s.lemma_filter_pred(pred, i);
    }
}

/// After the inbound filter, the header `X-Proxy-Server` is present
/// exactly once — as the last header, with the value `pinproxy` — and no
/// earlier header carries that name.
pub proof fn lemma_inbound_sets_header_once(s: Seq<HeaderModel>)
    ensures
        spec_filter_inbound(s).len() >= 1,
        is_named(spec_filter_inbound(s).last(), spec_x_proxy_server_name()),
        spec_filter_inbound(s).last().value == spec_pinproxy_value(),
        forall|i: int|
            0 <= i < spec_filter_inbound(s).len() - 1 ==> !is_named(
                #[trigger] spec_filter_inbound(s)[i],
                spec_x_proxy_server_name(),
            ),
{
    let pred = |h: HeaderModel| !is_named(h, spec_x_proxy_server_name());
    let out = spec_filter_inbound(s);
    assert(spec_lower(spec_x_proxy_server_insert_name()) =~= spec_x_proxy_server_name());
    assert forall|i: int| 0 <= i < out.len() - 1 implies !is_named(
        out[i],
        spec_x_proxy_server_name(),
    ) by {
        assert(out[i] == s.filter(pred)[i]);
        s.lemma_filter_pred(pred, i);
    }
}

} // verus!
