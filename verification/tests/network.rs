use std::collections::HashMap;

use chorus::level::dimension::Dimension;
use chorus::level::generator::void::VoidGenerator;
use chorus::level::level::Level;
use chorus::network::handler::chunks::{sub_chunk_entry, SubChunkRequestResult};
use chorus::network::handler::request::{check_protocol, handle_request, LoginVerdict};
use chorus::network::handler::resource::{
    handle_resource, handle_response, ResourceAction, ResourceEvent, ResourcePackResponse, ResourcePacksInfo, ResourceReply,
};
use chorus::network::handler::setup::{handle_request_chunk_radius, handle_set_local_player_as_initialized};
use chorus::network::session::state::{SessionState, StateChange};
use chorus::network::session::Session;
use chorus::player::Player;
use chorus::registry::block_registry::BlockRegistry;

#[test]
fn session_queue_and_ticks() {
    let mut s: Session<u8> = Session::new();
    assert_eq!(s.get_state(), SessionState::Request);
    assert_eq!(s.tick(), None);
    s.send(1);
    s.send(2);
    assert_eq!(s.tick(), Some(vec![1, 2]));
    assert_eq!(s.tick(), None);
}

#[test]
fn session_state_changes() {
    let mut s: Session<u8> = Session::new();
    assert_eq!(s.set_state(SessionState::Login), Some(StateChange { from: SessionState::Request, to: SessionState::Login }));
    assert_eq!(s.set_state(SessionState::Login), None);
    assert_eq!(s.get_state(), SessionState::Login);
}

#[test]
fn session_closes_once() {
    let mut s: Session<u8> = Session::new();
    assert!(!s.is_closed());
    assert!(s.close(Some("bye")));
    assert!(s.is_closed());
    assert!(!s.close(Some("again")));
    let mut t: Session<u8> = Session::new();
    assert!(!t.close(None));
    assert!(t.is_closed());
}

#[test]
fn protocol_checks() {
    assert_eq!(check_protocol(944, 944), LoginVerdict::Accepted);
    assert_eq!(check_protocol(900, 944), LoginVerdict::ClientOutdated);
    assert_eq!(check_protocol(950, 944), LoginVerdict::ServerOutdated);
    // a negative version reads as a huge unsigned one
    assert_eq!(check_protocol(-1, 944), LoginVerdict::ServerOutdated);
    assert_eq!(LoginVerdict::ClientOutdated.disconnect_reason(), Some("disconnectionScreen.outdatedClient"));
    assert_eq!(LoginVerdict::Accepted.disconnect_reason(), None);
}

#[test]
fn request_moves_to_login() {
    let mut s: Session<u8> = Session::new();
    let o = handle_request(&mut s, 944, 944).unwrap();
    assert_eq!(o.verdict, LoginVerdict::Accepted);
    assert!(!o.send_disconnect);
    assert_eq!(o.state_change, Some(StateChange { from: SessionState::Request, to: SessionState::Login }));
    assert!(!s.is_closed());

    let mut t: Session<u8> = Session::new();
    let o = handle_request(&mut t, 1, 944).unwrap();
    assert_eq!(o.verdict, LoginVerdict::ClientOutdated);
    assert!(o.send_disconnect);
    assert!(t.is_closed());
    assert_eq!(t.get_state(), SessionState::Login);
}

#[test]
fn request_past_the_request_stage_is_ignored() {
    let mut s: Session<u8> = Session::new();
    s.set_state(SessionState::Play);
    assert!(handle_request(&mut s, 1, 944).is_none());
    assert_eq!(s.get_state(), SessionState::Play);
    assert!(!s.is_closed());
}

#[test]
fn resource_responses() {
    let mut s: Session<u8> = Session::new();
    assert_eq!(handle_response(&mut s, ResourcePackResponse::Downloading), ResourceAction::Wait);
    assert_eq!(handle_response(&mut s, ResourcePackResponse::DownloadingFinished), ResourceAction::SendPackStack);
    assert_eq!(
        handle_response(&mut s, ResourcePackResponse::ResourcePackStackFinished),
        ResourceAction::Setup { change: Some(StateChange { from: SessionState::Request, to: SessionState::Setup }) }
    );
    assert_eq!(handle_response(&mut s, ResourcePackResponse::Cancel), ResourceAction::Closed { send_disconnect: true });
    assert_eq!(handle_response(&mut s, ResourcePackResponse::Cancel), ResourceAction::Closed { send_disconnect: false });
}

#[test]
fn chunk_radius_positions() {
    let (view, positions) = handle_request_chunk_radius(1);
    assert_eq!(view, 16);
    assert_eq!(positions, vec![(-1, -1), (-1, 0), (0, -1), (0, 0)]);
    let (view, positions) = handle_request_chunk_radius(0);
    assert_eq!(view, 0);
    assert!(positions.is_empty());
    let (view, positions) = handle_request_chunk_radius(-2);
    assert_eq!(view, (-32i32) as u32);
    assert!(positions.is_empty());
    assert_eq!(handle_request_chunk_radius(3).1.len(), 36);
}

#[test]
fn player_initialised() {
    let p = Player::new(7);
    assert_eq!(p.runtime_id(), 7);
    let mut s: Session<u8> = Session::new();
    s.set_state(SessionState::Setup);
    assert_eq!(handle_set_local_player_as_initialized(8, &p, &mut s), None);
    assert_eq!(s.get_state(), SessionState::Setup);
    assert_eq!(
        handle_set_local_player_as_initialized(7, &p, &mut s),
        Some(StateChange { from: SessionState::Setup, to: SessionState::Play })
    );
}

#[test]
fn sub_chunk_answers() {
    let mut level = Level { dimensions: HashMap::new() };
    level.dimensions.insert(0, Dimension::new(0, -4, 19, Box::new(VoidGenerator { biome: 1 })));
    let mut reg = BlockRegistry::new();
    reg.register("minecraft:air".to_string(), 0);
    level.overworld_mut().get_or_generate_chunk(&reg, 0, 0);
    level.set_block(0, 1, 2, 3, 0, 9, &mut Vec::new());

    let e = sub_chunk_entry(&level, 0, (0, 0, 0), (0, 0, 0));
    assert_eq!(e.result, SubChunkRequestResult::Success);
    assert_eq!(&e.serialized[..3], &[9, 2, 0]);
    let e = sub_chunk_entry(&level, 0, (0, 0, 0), (0, 1, 0));
    assert_eq!(e.result, SubChunkRequestResult::SuccessAllAir);
    assert!(e.serialized.is_empty());
    let e = sub_chunk_entry(&level, 0, (0, 0, 0), (0, 100, 0));
    assert_eq!(e.result, SubChunkRequestResult::SuccessAllAir);
    let e = sub_chunk_entry(&level, 0, (0, 0, 0), (1, 0, 0));
    assert_eq!(e.result, SubChunkRequestResult::LevelChunkDoesntExist);
    let e = sub_chunk_entry(&level, 1, (0, 0, 0), (0, 0, 0));
    assert_eq!(e.result, SubChunkRequestResult::LevelChunkDoesntExist);
    assert_eq!(e.offset, (0, 0, 0));
}

#[test]
fn resource_stage_events() {
    let mut s: Session<u8> = Session::new();
    let enter = StateChange { from: SessionState::Login, to: SessionState::Resource };
    assert_eq!(
        handle_resource(&mut s, ResourceEvent::StateChanged(enter), true, false),
        ResourceReply::SendPacksInfo(ResourcePacksInfo { resource_pack_required: true, force_disable_vibrant_visuals: false })
    );
    let other = StateChange { from: SessionState::Resource, to: SessionState::Setup };
    assert_eq!(handle_resource(&mut s, ResourceEvent::StateChanged(other), true, true), ResourceReply::Ignore);
    assert_eq!(handle_resource(&mut s, ResourceEvent::ChunkRequest, false, false), ResourceReply::SendEmptyChunk);
    assert_eq!(
        handle_resource(&mut s, ResourceEvent::Response(ResourcePackResponse::DownloadingFinished), false, false),
        ResourceReply::Answer(ResourceAction::SendPackStack)
    );
    assert_eq!(
        handle_resource(&mut s, ResourceEvent::Response(ResourcePackResponse::Cancel), false, false),
        ResourceReply::Answer(ResourceAction::Closed { send_disconnect: true })
    );
    assert!(s.is_closed());
}

#[test]
fn stage_changes_and_closes_keep_unhandled_counts() {
    let mut s: Session<u8> = Session::new();
    s.unhandled_packets.insert("TextPacket", 2);
    s.set_state(SessionState::Play);
    s.close(None);
    s.close(Some("again"));
    assert_eq!(s.unhandled_packets.get("TextPacket"), Some(&2));
}
