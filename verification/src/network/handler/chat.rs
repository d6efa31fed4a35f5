use vstd::prelude::*;

use crate::network::session::state::SessionState;
use crate::network::session::Session;
use crate::text::{trim, trim_result};

verus! {

/// A chat line that a player sent, to be passed on to every player.
pub struct PlayerChatMessage {
    pub sender_name: String,
    pub sender_xuid: String,
    pub message: String,
}

/// A text packet from `sender`: a chat line (`chat` is its text; other kinds
/// of text have none) becomes a message to pass on, its text trimmed; a line
/// that is empty once trimmed, and text of any other kind, is dropped.
pub fn handle_text(chat: Option<&str>, sender_name: &str, sender_xuid: &str) -> (r: Option<
    PlayerChatMessage,
>)
    ensures
        r is Some <==> (chat is Some && trim_result(chat.unwrap()@).len() > 0),
        r is Some ==> {
            &&& r.unwrap().message@ == trim_result(chat.unwrap()@)
            &&& r.unwrap().sender_name@ == sender_name@
            &&& r.unwrap().sender_xuid@ == sender_xuid@
        },
{
    let text = match chat {
        Some(text) => text,
        None => return None,
    };
    let message = trim(text);
    if message.unicode_len() == 0 {
        return None;
    }
    Some(
        PlayerChatMessage {
            sender_name: sender_name.to_owned(),
            sender_xuid: sender_xuid.to_owned(),
            message: message.to_owned(),
        },
    )
}

/// Queues a copy of `packet` on every session whose stage is `Play` (when
/// `play_only`) or on every session; the others are left as they were.
pub fn broadcast<P: Clone>(sessions: &mut Vec<Session<P>>, packet: &P, play_only: bool)
    ensures
        final(sessions)@.len() == old(sessions)@.len(),
        forall|i: int|
            0 <= i < old(sessions)@.len() ==> {
                let before = #[trigger] old(sessions)@[i];
                let after = final(sessions)@[i];
                &&& after.spec_state() == before.spec_state()
                &&& after.spec_closed() == before.spec_closed()
                &&& if play_only && before.spec_state() != SessionState::Play {
                    after.queue() == before.queue()
                } else {
                    &&& after.queue().len() == before.queue().len() + 1
                    &&& after.queue().take(before.queue().len() as int) == before.queue()
                    &&& cloned(*packet, after.queue().last())
                }
            },
{
    let mut i: usize = 0;
    while i < sessions.len()
        invariant
            i <= sessions@.len(),
            sessions@.len() == old(sessions)@.len(),
            forall|j: int| i <= j < sessions@.len() ==> #[trigger] sessions@[j] == old(sessions)@[j],
            forall|j: int|
                0 <= j < i ==> {
                    let before = #[trigger] old(sessions)@[j];
                    let after = sessions@[j];
                    &&& after.spec_state() == before.spec_state()
                    &&& after.spec_closed() == before.spec_closed()
                    &&& if play_only && before.spec_state() != SessionState::Play {
                        after.queue() == before.queue()
                    } else {
                        &&& after.queue().len() == before.queue().len() + 1
                        &&& after.queue().take(before.queue().len() as int) == before.queue()
                        &&& cloned(*packet, after.queue().last())
                    }
                },
        decreases sessions@.len() - i,
    {
        if !play_only || sessions[i].get_state() == SessionState::Play {
            let copy = packet.clone();
            sessions[i].send(copy);
            proof {
                let q = old(sessions)@[i as int].queue();
                assert(sessions@[i as int].queue().take(q.len() as int) =~= q);
            }
        }
        i = i + 1;
    }
}

/// Passes a chat message on to every session at the play stage.
pub fn broadcast_chat<P: Clone>(sessions: &mut Vec<Session<P>>, packet: &P)
    ensures
        final(sessions)@.len() == old(sessions)@.len(),
        forall|i: int|
            0 <= i < old(sessions)@.len() ==> {
                let before = #[trigger] old(sessions)@[i];
                let after = final(sessions)@[i];
                &&& after.spec_state() == before.spec_state()
                &&& after.spec_closed() == before.spec_closed()
                &&& if before.spec_state() != SessionState::Play {
                    after.queue() == before.queue()
                } else {
                    &&& after.queue().len() == before.queue().len() + 1
                    &&& after.queue().take(before.queue().len() as int) == before.queue()
                    &&& cloned(*packet, after.queue().last())
                }
            },
{
    broadcast(sessions, packet, true);
}

} // verus!
