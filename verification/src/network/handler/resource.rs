use vstd::prelude::*;

use crate::network::session::state::{SessionState, StateChange};
use crate::network::session::Session;

verus! {

/// A client's answer during the resource pack exchange.
#[derive(Debug, Clone, Copy, PartialEq, Eq, Structural)]
pub enum ResourcePackResponse {
    Cancel,
    Downloading,
    DownloadingFinished,
    ResourcePackStackFinished,
}

/// What answering a resource pack response takes.
#[derive(Debug, Clone, Copy, PartialEq, Eq, Structural)]
pub enum ResourceAction {
    /// The session was closed; `send_disconnect` tells whether the disconnect
    /// with the reason of `cancel_reason` is to be sent.
    Closed { send_disconnect: bool },
    /// Nothing to do.
    Wait,
    /// The resource pack stack is to be sent.
    SendPackStack,
    /// The session moved on to the setup stage; the change to announce.
    Setup { change: Option<StateChange> },
}

/// The disconnect reason when a client cancels the resource pack exchange.
pub fn cancel_reason() -> (r: &'static str)
    ensures
        r@ == "disconnectionScreen.noReason"@,
{
    "disconnectionScreen.noReason"
}

/// Whether `action`, with the session going from `before` to `after`, is the
/// answer to `response`.
pub open spec fn answers<P>(
    before: Session<P>,
    after: Session<P>,
    response: ResourcePackResponse,
    action: ResourceAction,
) -> bool {
    &&& response == ResourcePackResponse::Cancel ==> {
        &&& action == ResourceAction::Closed { send_disconnect: !before.spec_closed() }
        &&& after.spec_closed()
        &&& after.spec_state() == before.spec_state()
    }
    &&& response == ResourcePackResponse::Downloading ==> action == ResourceAction::Wait && after == before
    &&& response == ResourcePackResponse::DownloadingFinished ==> action == ResourceAction::SendPackStack
        && after == before
    &&& response == ResourcePackResponse::ResourcePackStackFinished ==> {
        &&& after.spec_state() == SessionState::Setup
        &&& after.spec_closed() == before.spec_closed()
        &&& action == ResourceAction::Setup {
            change: if before.spec_state() == SessionState::Setup {
                None
            } else {
                Some((StateChange { from: before.spec_state(), to: SessionState::Setup }))
            },
        }
    }
    &&& after.queue() == before.queue()
    &&& after.spec_unhandled_packets() == before.spec_unhandled_packets()
}

/// Answers a resource pack response of the client of `session`.
pub fn handle_response<P>(session: &mut Session<P>, response: ResourcePackResponse) -> (r: ResourceAction)
    ensures
        answers(*old(session), *final(session), response, r),
{
    match response {
        ResourcePackResponse::Cancel => {
            let send_disconnect = session.close(Some(cancel_reason()));
            ResourceAction::Closed { send_disconnect }
        },
        ResourcePackResponse::Downloading => ResourceAction::Wait,
        ResourcePackResponse::DownloadingFinished => ResourceAction::SendPackStack,
        ResourcePackResponse::ResourcePackStackFinished => {
            let change = session.set_state(SessionState::Setup);
            ResourceAction::Setup { change }
        },
    }
}

/// What the resource stage is told: a stage change of the session, a
/// client's request for a pack chunk, or a client's response.
#[derive(Debug, Clone, Copy, PartialEq, Eq, Structural)]
pub enum ResourceEvent {
    StateChanged(StateChange),
    ChunkRequest,
    Response(ResourcePackResponse),
}

/// The settings that the resource packs info carries; the server offers no
/// packs, so the rest of it is empty.
#[derive(Debug, Clone, Copy, PartialEq, Eq, Structural)]
pub struct ResourcePacksInfo {
    pub resource_pack_required: bool,
    pub force_disable_vibrant_visuals: bool,
}

/// What to send in answer to a resource-stage event.
#[derive(Debug, Clone, Copy, PartialEq, Eq, Structural)]
pub enum ResourceReply {
    /// The session has just entered the resource stage: send the packs info.
    SendPacksInfo(ResourcePacksInfo),
    /// A pack chunk was requested: send an empty chunk.
    SendEmptyChunk,
    /// A response was answered with `action`.
    Answer(ResourceAction),
    /// Nothing to do.
    Ignore,
}

/// The resource stage of a session: entering it sends the packs info with
/// the two configured flags, a chunk request gets an empty chunk, and a
/// response is answered as `handle_response` does.
pub fn handle_resource<P>(
    session: &mut Session<P>,
    event: ResourceEvent,
    force_accept_resource_packs: bool,
    force_disable_vibrant_visuals: bool,
) -> (r: ResourceReply)
    ensures
        match event {
            ResourceEvent::StateChanged(change) => *final(session) == *old(session) && r == if change.to
                == SessionState::Resource {
                ResourceReply::SendPacksInfo(
                    ResourcePacksInfo {
                        resource_pack_required: force_accept_resource_packs,
                        force_disable_vibrant_visuals,
                    },
                )
            } else {
                ResourceReply::Ignore
            },
            ResourceEvent::ChunkRequest => *final(session) == *old(session) && r == ResourceReply::SendEmptyChunk,
            ResourceEvent::Response(response) => r matches ResourceReply::Answer(action) && answers(
                *old(session),
                *final(session),
                response,
                action,
            ),
        },
{
    match event {
        ResourceEvent::StateChanged(change) => {
            if change.to == SessionState::Resource {
                ResourceReply::SendPacksInfo(
                    ResourcePacksInfo {
                        resource_pack_required: force_accept_resource_packs,
                        force_disable_vibrant_visuals,
                    },
                )
            } else {
                ResourceReply::Ignore
            }
        },
        ResourceEvent::ChunkRequest => ResourceReply::SendEmptyChunk,
        ResourceEvent::Response(response) => ResourceReply::Answer(handle_response(session, response)),
    }
}

} // verus!
