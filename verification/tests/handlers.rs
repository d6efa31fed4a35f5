use std::collections::HashMap;

use chorus::command::builtin::debug::DebugCommand;
use chorus::command::builtin::dev::DevCommand;
use chorus::level::dimension::{chunk_key_of, chunk_position, Dimension};
use chorus::level::generator::void::VoidGenerator;
use chorus::level::level::Level;
use chorus::network::handler::chat::{broadcast_chat, handle_text};
use chorus::network::handler::chunks::{handle_sub_chunk_request, send_pending_chunks, SubChunkRequestResult};
use chorus::network::handler::play::broadcast_block_updates;
use chorus::network::handler::setup::on_enter_setup;
use chorus::network::session::state::{SessionState, StateChange};
use chorus::network::session::{
    connection_action, connection_continues, ConnectionAction, ConnectionEvent, ConnectionStep, Polled, Session,
};
use chorus::player::Player;
use chorus::registry::block_registry::BlockRegistry;
use chorus::server::ServerState;

#[test]
fn chat_lines_are_trimmed() {
    let m = handle_text(Some("  hello there \n"), "Steve", "123").unwrap();
    assert_eq!(m.message, "hello there");
    assert_eq!(m.sender_name, "Steve");
    assert_eq!(m.sender_xuid, "123");
}

#[test]
fn empty_or_non_chat_text_is_dropped() {
    assert!(handle_text(Some("   \t"), "Steve", "123").is_none());
    assert!(handle_text(Some(""), "Steve", "123").is_none());
    assert!(handle_text(None, "Steve", "123").is_none());
}

#[test]
fn chat_reaches_only_playing_sessions() {
    let mut playing: Session<u8> = Session::new();
    playing.set_state(SessionState::Play);
    playing.send(1);
    let waiting: Session<u8> = Session::new();
    let mut sessions = vec![playing, waiting];
    broadcast_chat(&mut sessions, &7);
    assert_eq!(sessions[0].tick(), Some(vec![1, 7]));
    assert_eq!(sessions[1].tick(), None);
}

#[test]
fn block_updates_reach_every_session() {
    let mut playing: Session<u8> = Session::new();
    playing.set_state(SessionState::Play);
    let waiting: Session<u8> = Session::new();
    let mut sessions = vec![playing, waiting];
    broadcast_block_updates(&mut sessions, &3);
    assert_eq!(sessions[0].tick(), Some(vec![3]));
    assert_eq!(sessions[1].tick(), Some(vec![3]));
    assert_eq!(sessions[1].get_state(), SessionState::Request);
}

#[test]
fn connection_requests() {
    let e: ConnectionEvent<u8, (), ()> = ConnectionEvent::Recv;
    assert_eq!(connection_action(&e), ConnectionAction::Poll);
    let e: ConnectionEvent<u8, (), ()> = ConnectionEvent::Send(vec![1, 2]);
    assert_eq!(connection_action(&e), ConnectionAction::Transmit);
    let e: ConnectionEvent<u8, (), ()> = ConnectionEvent::Send(vec![]);
    assert_eq!(connection_action(&e), ConnectionAction::Skip);
    let e: ConnectionEvent<u8, (), ()> = ConnectionEvent::SetCompression(Some(()));
    assert_eq!(connection_action(&e), ConnectionAction::Apply);
    let e: ConnectionEvent<u8, (), ()> = ConnectionEvent::SetEncryption(None);
    assert_eq!(connection_action(&e), ConnectionAction::Apply);
}

#[test]
fn receiving_from_a_gone_connection_closes() {
    let mut s: Session<u8> = Session::new();
    assert_eq!(s.recv(Polled::Packet(4)), Some(4));
    assert_eq!(s.recv(Polled::Empty), None);
    assert!(!s.is_closed());
    assert_eq!(s.recv(Polled::Disconnected), None);
    assert!(s.is_closed());
}

#[test]
fn entering_setup_makes_a_player() {
    let mut state = ServerState::new();
    let other = StateChange { from: SessionState::Login, to: SessionState::Resource };
    assert!(on_enter_setup(other, &mut state).is_none());
    let setup = StateChange { from: SessionState::Resource, to: SessionState::Setup };
    let p = on_enter_setup(setup, &mut state).unwrap();
    assert_eq!(p.runtime_id(), 1);
    let q = on_enter_setup(setup, &mut state).unwrap();
    assert_eq!(q.runtime_id(), 2);
    assert_eq!(state.get_runtime_id(), 3);
}

fn registry() -> BlockRegistry {
    let mut r = BlockRegistry::new();
    r.register("minecraft:air".to_string(), 0);
    r
}

#[test]
fn sub_chunk_request_answers_each_offset() {
    let mut level = Level { dimensions: HashMap::new() };
    level.dimensions.insert(0, Dimension::new(0, -4, 19, Box::new(VoidGenerator { biome: 1 })));
    level.overworld_mut().get_or_generate_chunk(&registry(), 0, 0);
    level.set_block(0, 1, 2, 3, 0, 9, &mut Vec::new());
    let entries = handle_sub_chunk_request(&level, 0, (0, 0, 0), &vec![(0, 0, 0), (0, 1, 0), (1, 0, 0)]);
    assert_eq!(entries.len(), 3);
    assert_eq!(entries[0].result, SubChunkRequestResult::Success);
    assert_eq!(entries[1].result, SubChunkRequestResult::SuccessAllAir);
    assert_eq!(entries[2].result, SubChunkRequestResult::LevelChunkDoesntExist);
    assert_eq!(entries[2].offset, (1, 0, 0));
    assert!(handle_sub_chunk_request(&level, 0, (0, 0, 0), &vec![]).is_empty());
}

#[test]
fn pending_chunks_are_sent_in_order() {
    let reg = registry();
    let mut d = Dimension::new(0, -4, 19, Box::new(VoidGenerator { biome: 1 }));
    let mut p = Player::new(1);
    p.chunks_pending.push_back((0, 0));
    p.chunks_pending.push_back((1, 0));
    // no view radius yet: nothing goes out
    assert!(send_pending_chunks(&mut p, &mut d, &reg).is_none());
    assert_eq!(p.chunks_pending.len(), 2);

    p.chunks_radius = 2;
    let first = send_pending_chunks(&mut p, &mut d, &reg).unwrap();
    assert_eq!((first.x, first.z), (0, 0));
    // an all-air column reports its lowest height
    assert_eq!(first.sub_chunk_limit, 0);
    assert_eq!(first.publish_radius, None);
    assert!(d.get_chunk(0, 0).is_some());

    d.get_or_generate_chunk(&reg, 1, 0);
    assert!(d.set_block(16, 5, 0, 0, 7));
    let second = send_pending_chunks(&mut p, &mut d, &reg).unwrap();
    assert_eq!((second.x, second.z), (1, 0));
    // block y 5 lies in sub-chunk 0, four above the lowest (-4)
    assert_eq!(second.sub_chunk_limit, 4);
    assert_eq!(second.publish_radius, Some(32));
    assert!(p.chunks_sent.contains(&chunk_key_of(0, 0)) && p.chunks_sent.contains(&chunk_key_of(1, 0)));
    assert_eq!(p.chunks_sent.len(), 2);
    assert!(send_pending_chunks(&mut p, &mut d, &reg).is_none());
}

#[test]
fn greeting_forms_need_a_player() {
    let f = DevCommand.execute("Alex", true).unwrap();
    assert_eq!(f.title, "Simple Form");
    assert_eq!(f.body, "Hello Alex!");
    assert_eq!(f.buttons, vec!["Hey!".to_string(), "Fuck you".to_string()]);
    assert_eq!(DevCommand.execute("Alex", false).err(), Some("must be sent by player!".to_string()));
    assert_eq!(DebugCommand.execute("Sam", true).unwrap().body, "Hello Sam!");
    assert!(DebugCommand.execute("Sam", false).is_err());
}

#[test]
fn chunk_keys_round_trip() {
    for &(x, z) in &[(0, 0), (1, -1), (-5, 7), (i32::MIN, i32::MAX)] {
        assert_eq!(chunk_position(chunk_key_of(x, z)), (x, z));
    }
    assert_ne!(chunk_key_of(1, 0), chunk_key_of(0, 1));
}

#[test]
fn new_sessions_have_no_unhandled_packets() {
    let s: Session<u8> = Session::new();
    assert!(s.unhandled_packets.is_empty());
}

#[test]
fn connection_task_stops_on_fatal_steps() {
    assert!(!connection_continues(ConnectionStep::ConnectionClosed));
    assert!(!connection_continues(ConnectionStep::ForwardFailed));
    assert!(!connection_continues(ConnectionStep::SendFailed));
    assert!(connection_continues(ConnectionStep::ReceiveFailed));
    assert!(connection_continues(ConnectionStep::Done));
}
