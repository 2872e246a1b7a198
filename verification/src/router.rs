//! Resolves which channel endpoint a request must use: an explicit target
//! first, else the session's binding, else the default — and queues an
//! unbound session for manual binding instead of failing it.

use vstd::prelude::*;
use crate::registry::{ChannelEndpoint, ChannelRegistry, EndpointModel, RegistryModel};

verus! {

/// Why no endpoint could be resolved.
#[derive(Clone, Copy, Debug, PartialEq, Eq, Structural)]
pub enum RouteError {
    /// The explicitly named channel is not registered: a hard error, the
    /// request must not silently fall through to another channel.
    UnknownChannel,
    /// No binding applies and no endpoint is registered at all.
    NoChannelConfigured,
}

/// The view of an optional owned string.
pub open spec fn opt_view(o: Option<&String>) -> Option<Seq<char>> {
    match o {
        Some(s) => Some(s@),
        None => None,
    }
}

/// Routing without an applicable binding: the default endpoint, if any.
pub open spec fn spec_route_default(m: RegistryModel) -> Result<EndpointModel, RouteError> {
    match m.default_endpoint() {
        Some(e) => Ok(e),
        None => Err(RouteError::NoChannelConfigured),
    }
}

/// The endpoint (or error) the priority chain yields: explicit name, then
/// session binding, then default.
pub open spec fn spec_route(
    m: RegistryModel,
    explicit: Option<Seq<char>>,
    session: Option<Seq<char>>,
) -> Result<EndpointModel, RouteError> {
    match explicit {
        Some(name) => if m.has_endpoint(name) {
            Ok(m.endpoint_named(name))
        } else {
            Err(RouteError::UnknownChannel)
        },
        None => match session {
            Some(sid) => if m.binds(sid) {
                Ok(m.endpoint_named(m.bound_name(sid)))
            } else {
                spec_route_default(m)
            },
            None => spec_route_default(m),
        },
    }
}

/// The pending queue after routing: an unbound session id is enqueued
/// (idempotently), everything else leaves the queue alone.
pub open spec fn spec_route_pending(
    m: RegistryModel,
    explicit: Option<Seq<char>>,
    session: Option<Seq<char>>,
) -> Seq<Seq<char>> {
    match (explicit, session) {
        (None, Some(sid)) => if !m.binds(sid) && !m.is_pending(sid) {
            m.pending.push(sid)
        } else {
            m.pending
        },
        _ => m.pending,
    }
}

/// Law: routing an explicit channel name reads nothing but the endpoint
/// table — two registries with the same endpoints route it alike, whatever
/// their bindings, defaults and pending queues, and whatever session id
/// accompanies the request.
pub proof fn lemma_explicit_route_ignores_bindings(
    m1: RegistryModel,
    m2: RegistryModel,
    name: Seq<char>,
    s1: Option<Seq<char>>,
    s2: Option<Seq<char>>,
)
    requires
        m1.endpoints == m2.endpoints,
        m1.names_unique(),
    ensures
        spec_route(m1, Some(name), s1) == spec_route(m2, Some(name), s2),
{
    if m1.has_endpoint(name) {
        assert(m2.has_endpoint(name));
        let i1 = m1.endpoint_index(name);
        let i2 = m2.endpoint_index(name);
        assert(0 <= i1 < m1.endpoints.len() && m1.endpoints[i1].name == name);
        assert(0 <= i2 < m2.endpoints.len() && m2.endpoints[i2].name == name);
        if i1 != i2 {
            if i1 < i2 {
                assert(m1.endpoints[i1].name != m1.endpoints[i2].name);
            } else {
                assert(m1.endpoints[i2].name != m1.endpoints[i1].name);
            }
        }
    } else {
        assert(!m2.has_endpoint(name));
    }
}

/// Resolves the endpoint for a request. Priority, first match wins:
/// the explicit name (unknown name is a hard error), else the session's
/// binding, else the default. An unbound session id is recorded as pending
/// while the request still degrades to the default channel.
pub fn route(
    registry: &mut ChannelRegistry,
    explicit_name: Option<&String>,
    session_id: Option<&String>,
) -> (r: Result<ChannelEndpoint, RouteError>)
    requires
        old(registry)@.wf(),
    ensures
        final(registry)@.wf(),
        final(registry)@.endpoints == old(registry)@.endpoints,
        final(registry)@.bindings == old(registry)@.bindings,
        final(registry)@.default_name == old(registry)@.default_name,
        final(registry)@.pending == spec_route_pending(
            old(registry)@,
            opt_view(explicit_name),
            opt_view(session_id),
        ),
        match r {
            Ok(e) => spec_route(old(registry)@, opt_view(explicit_name), opt_view(session_id))
                == Ok::<EndpointModel, RouteError>(e@),
            Err(err) => spec_route(old(registry)@, opt_view(explicit_name), opt_view(session_id))
                == Err::<EndpointModel, RouteError>(err),
        },
{
    match explicit_name {
        Some(name) => {
            match registry.get(name.as_str()) {
                Some(e) => Ok(e.clone()),
                None => Err(RouteError::UnknownChannel),
            }
        }
        None => {
            if let Some(sid) = session_id {
                let resolved = match registry.resolve_for_session(sid.as_str()) {
                    Some(e) => Some(e.clone()),
                    None => None,
                };
                match resolved {
                    Some(e) => {
                        return Ok(e);
                    }
                    None => {
                        registry.record_pending(sid.as_str());
                    }
                }
            }
            match registry.get_default() {
                Ok(e) => Ok(e.clone()),
                Err(_) => Err(RouteError::NoChannelConfigured),
            }
        }
    }
}

} // verus!
