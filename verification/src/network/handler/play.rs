use vstd::prelude::*;

use crate::network::handler::chat::broadcast;
use crate::network::session::Session;

verus! {

/// Passes a block change on to every session, whatever its stage.
pub fn broadcast_block_updates<P: Clone>(sessions: &mut Vec<Session<P>>, packet: &P)
    ensures
        final(sessions)@.len() == old(sessions)@.len(),
        forall|i: int|
            0 <= i < old(sessions)@.len() ==> {
                let before = #[trigger] old(sessions)@[i];
                let after = final(sessions)@[i];
                &&& after.spec_state() == before.spec_state()
                &&& after.spec_closed() == before.spec_closed()
                &&& after.queue().len() == before.queue().len() + 1
                &&& after.queue().take(before.queue().len() as int) == before.queue()
                &&& cloned(*packet, after.queue().last())
            },
{
    broadcast(sessions, packet, false);
}

} // verus!
