//! The per-request lifecycle: the order in which the engine's hooks may
//! fire, one fresh machine per request.
//!
//! A request walks `Init → ContextCreated → PeerResolved → RequestFiltered
//! → Forwarded → ResponseFiltered`, and from any of those states moves to
//! `Completed` exactly once, when the completion record is built. The
//! response-filter step may be skipped: a transport failure can end the
//! cycle before any response exists, and completion is still owed then.

use vstd::prelude::*;
use crate::headers::{Header, headers_model, spec_filter_inbound, spec_filter_outbound, filter_inbound, filter_outbound};
use crate::record::{LogRecord, completion_record, spec_status_of};
use crate::routing::{UpstreamTarget, resolve, spec_host_view, spec_resolve, target_matches};

verus! {

/// Where in its lifecycle a request stands. No state is ever revisited.
#[derive(Clone, Copy, PartialEq, Eq, Structural, Debug)]
pub enum Phase {
    Init,
    ContextCreated,
    PeerResolved,
    RequestFiltered,
    Forwarded,
    ResponseFiltered,
    Completed,
}

/// The per-request context handed to the engine's hooks. It deliberately
/// carries no state: nothing of one request may leak into another, so a
/// fresh, empty value is made for every request and dropped at its end.
pub struct PerRequestContext {}

/// One request's lifecycle machine. A fresh one is made per request and
/// never reused.
pub struct RequestLifecycle {
    pub phase: Phase,
}

impl RequestLifecycle {
    /// The context-creation step is enabled only at the very start.
    pub open spec fn can_create_context(self) -> bool {
        self.phase == Phase::Init
    }

    /// Peer resolution follows context creation, unconditionally: the
    /// routing policy is total and cannot fail.
    pub open spec fn can_resolve_peer(self) -> bool {
        self.phase == Phase::ContextCreated
    }

    /// The outbound filter runs once the peer is resolved.
    pub open spec fn can_filter_request(self) -> bool {
        self.phase == Phase::PeerResolved
    }

    /// The forwarding step (the engine's network exchange) follows the
    /// outbound filter.
    pub open spec fn can_mark_forwarded(self) -> bool {
        self.phase == Phase::RequestFiltered
    }

    /// The inbound filter runs only when a response came back.
    pub open spec fn can_filter_response(self) -> bool {
        self.phase == Phase::Forwarded
    }

    /// Completion is owed from every state but `Completed` itself —
    /// regardless of how far the request got — and therefore fires at
    /// most once.
    pub open spec fn can_complete(self) -> bool {
        self.phase != Phase::Completed
    }

    /// A fresh machine for one request.
    pub fn begin() -> (lc: Self)
        ensures
            lc.phase == Phase::Init,
    {
        RequestLifecycle { phase: Phase::Init }
    }

    /// Creates the fresh, empty per-request context.
    pub fn create_context(&mut self) -> (ctx: PerRequestContext)
        requires
            old(self).can_create_context(),
        ensures
            final(self).phase == Phase::ContextCreated,
    {
        self.phase = Phase::ContextCreated;
        PerRequestContext {  }
    }

    /// Resolves the upstream target from the request's `Host` header
    /// value. Total: this transition never fails.
    pub fn resolve_peer(&mut self, host: Option<&Vec<u8>>) -> (t: UpstreamTarget)
        requires
            old(self).can_resolve_peer(),
        ensures
            final(self).phase == Phase::PeerResolved,
            target_matches(t, spec_resolve(spec_host_view(host))),
    {
        self.phase = Phase::PeerResolved;
        resolve(host)
    }

    /// Applies the outbound header filter to the request about to be
    /// forwarded.
    pub fn filter_request(&mut self, headers: &mut Vec<Header>)
        requires
            old(self).can_filter_request(),
        ensures
            final(self).phase == Phase::RequestFiltered,
            headers_model(final(headers)@) == spec_filter_outbound(
                headers_model(old(headers)@),
            ),
    {
        self.phase = Phase::RequestFiltered;
        filter_outbound(headers);
    }

    /// Records that the engine has performed the upstream exchange.
    pub fn mark_forwarded(&mut self)
        requires
            old(self).can_mark_forwarded(),
        ensures
            final(self).phase == Phase::Forwarded,
    {
        self.phase = Phase::Forwarded;
    }

    /// Applies the inbound header filter to the response about to be
    /// returned.
    pub fn filter_response(&mut self, headers: &mut Vec<Header>)
        requires
            old(self).can_filter_response(),
        ensures
            final(self).phase == Phase::ResponseFiltered,
            headers_model(final(headers)@) == spec_filter_inbound(headers_model(old(headers)@)),
    {
        self.phase = Phase::ResponseFiltered;
        filter_inbound(headers);
    }

    /// Ends the lifecycle and builds the one completion record, from
    /// whatever state the request reached; afterwards no transition is
    /// enabled, so completion cannot fire twice.
    pub fn complete(
        &mut self,
        client: Vec<u8>,
        method: Vec<u8>,
        uri: Vec<u8>,
        response_status: Option<u16>,
    ) -> (r: LogRecord)
        requires
            old(self).can_complete(),
        ensures
            final(self).phase == Phase::Completed,
            r.client@ == client@,
            r.method@ == method@,
            r.uri@ == uri@,
            r.status == spec_status_of(response_status),
    {
        self.phase = Phase::Completed;
        completion_record(client, method, uri, response_status)
    }

    /// Whether this lifecycle stands in phase `p`.
    pub fn phase_is(&self, p: Phase) -> (r: bool)
        ensures
            r == (self.phase == p),
    {
        self.phase == p
    }
}

/// Terminality law: a completed lifecycle enables no transition at all —
/// in particular, the completion step itself fires at most once per
/// request, and no state is ever revisited after it.
pub proof fn lemma_completed_is_terminal(lc: RequestLifecycle)
    requires
        lc.phase == Phase::Completed,
    ensures
        !lc.can_create_context(),
        !lc.can_resolve_peer(),
        !lc.can_filter_request(),
        !lc.can_mark_forwarded(),
        !lc.can_filter_response(),
        !lc.can_complete(),
{
}

} // verus!
