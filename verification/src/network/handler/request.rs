use vstd::prelude::*;

use crate::network::session::state::{SessionState, StateChange};
use crate::network::session::Session;

verus! {

/// How a client's protocol version compares with the server's.
#[derive(Debug, Clone, Copy, PartialEq, Eq, Structural)]
pub enum LoginVerdict {
    Accepted,
    /// The client speaks an older protocol.
    ClientOutdated,
    /// The client speaks a newer protocol.
    ServerOutdated,
}

/// What the network-settings request of a client leads to.
pub struct RequestOutcome {
    pub verdict: LoginVerdict,
    /// A disconnect is to be sent with the verdict's reason.
    pub send_disconnect: bool,
    /// The stage change to announce.
    pub state_change: Option<StateChange>,
}

impl LoginVerdict {
    /// The disconnect reason shown to a refused client.
    pub fn disconnect_reason(self) -> (r: Option<&'static str>)
        ensures
            r == match self {
                LoginVerdict::Accepted => None::<&'static str>,
                LoginVerdict::ClientOutdated => Some("disconnectionScreen.outdatedClient"),
                LoginVerdict::ServerOutdated => Some("disconnectionScreen.outdatedServer"),
            },
    {
        match self {
            LoginVerdict::Accepted => None,
            LoginVerdict::ClientOutdated => Some("disconnectionScreen.outdatedClient"),
            LoginVerdict::ServerOutdated => Some("disconnectionScreen.outdatedServer"),
        }
    }
}

/// Compares the client's network version, read as unsigned, with the server's.
pub fn check_protocol(client_network_version: i32, server_protocol: u32) -> (r: LoginVerdict)
    ensures
        r == if client_network_version as u32 == server_protocol {
            LoginVerdict::Accepted
        } else if (client_network_version as u32) < server_protocol {
            LoginVerdict::ClientOutdated
        } else {
            LoginVerdict::ServerOutdated
        },
{
    let protocol = client_network_version as u32;
    if protocol == server_protocol {
        LoginVerdict::Accepted
    } else if protocol < server_protocol {
        LoginVerdict::ClientOutdated
    } else {
        LoginVerdict::ServerOutdated
    }
}

/// Handles a network-settings request. A session past the request stage
/// ignores it and is left as it was (`None`). Otherwise a client of another
/// protocol is refused and the session closed; either way the session then
/// moves to the login stage.
pub fn handle_request<P>(session: &mut Session<P>, client_network_version: i32, server_protocol: u32) -> (r:
    Option<RequestOutcome>)
    ensures
        old(session).spec_state() != SessionState::Request ==> r is None && *final(session) == *old(
            session,
        ),
        old(session).spec_state() == SessionState::Request ==> (r matches Some(o) && {
            &&& o.verdict == if client_network_version as u32 == server_protocol {
                LoginVerdict::Accepted
            } else if (client_network_version as u32) < server_protocol {
                LoginVerdict::ClientOutdated
            } else {
                LoginVerdict::ServerOutdated
            }
            &&& o.send_disconnect == (o.verdict != LoginVerdict::Accepted && !old(session).spec_closed())
            &&& final(session).spec_closed() == (old(session).spec_closed() || o.verdict
                != LoginVerdict::Accepted)
            &&& final(session).spec_state() == SessionState::Login
            &&& o.state_change == Some((StateChange { from: SessionState::Request, to: SessionState::Login }))
            &&& final(session).queue() == old(session).queue()
        }),
{
    if session.get_state() != SessionState::Request {
        return None;
    }
    let verdict = check_protocol(client_network_version, server_protocol);
    let send_disconnect = match verdict {
        LoginVerdict::Accepted => false,
        _ => session.close(verdict.disconnect_reason()),
    };
    let state_change = session.set_state(SessionState::Login);
    Some(RequestOutcome { verdict, send_disconnect, state_change })
}

} // verus!
