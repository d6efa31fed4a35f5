use vstd::prelude::*;

use crate::network::session::state::{SessionState, StateChange};
use crate::network::session::Session;
use crate::player::Player;
use crate::server::ServerState;

verus! {

/// A session that enters the setup stage gets its player, with the next
/// runtime id of the server; a change to any other stage makes none.
pub fn on_enter_setup(change: StateChange, server_state: &mut ServerState) -> (r: Option<Player>)
    ensures
        change.to != SessionState::Setup ==> r is None && *final(server_state) == *old(server_state),
        change.to == SessionState::Setup ==> {
            &&& r is Some
            &&& r.unwrap().spec_runtime_id() == old(server_state).spec_runtime_id()
            &&& final(server_state).spec_runtime_id() == old(server_state).spec_runtime_id().wrapping_add(1)
            &&& final(server_state).spec_tick() == old(server_state).spec_tick()
        },
{
    if change.to != SessionState::Setup {
        return None;
    }
    Some(Player::new(server_state.get_runtime_id()))
}

/// The chunk positions `(x, z)` for `x` and `z` in `-radius..radius`,
/// `x` in the outer order.
pub open spec fn radius_positions(radius: int) -> Seq<(i32, i32)> {
    let side = if radius > 0 {
        2 * radius
    } else {
        0
    };
    Seq::new(
        (side * side) as nat,
        |k: int| ((-radius + k / side) as i32, (-radius + k % side) as i32),
    )
}

/// What a chunk radius request is answered with: the view radius in blocks
/// (the radius shifted by four bits, wrapping) and the chunks to send.
pub fn handle_request_chunk_radius(radius: i32) -> (r: (u32, Vec<(i32, i32)>))
    requires
        radius > i32::MIN,
    ensures
        r.0 == (radius << 4i32) as u32,
        r.1@ == radius_positions(radius as int),
{
    let view_radius = (radius << 4) as u32;
    let mut positions: Vec<(i32, i32)> = Vec::new();
    let ghost side: int = if radius > 0 { 2 * radius } else { 0 };
    let mut x = -radius;
    assert((x + radius) * side == 0) by (nonlinear_arith)
        requires
            x == -radius,
    ;
    while x < radius
        invariant
            radius > i32::MIN,
            side == if radius > 0 { 2 * radius } else { 0 },
            -radius <= x,
            radius > 0 ==> x <= radius,
            radius <= 0 ==> x == -radius,
            positions@.len() == (x + radius) * side,
            forall|k: int|
                0 <= k < positions@.len() ==> #[trigger] positions@[k] == ((-radius + k / side) as i32, (
                -radius + k % side) as i32),
        decreases radius - x,
    {
        let mut z = -radius;
        while z < radius
            invariant
                radius > 0,
                side == 2 * radius,
                -radius <= x < radius,
                -radius <= z <= radius,
                positions@.len() == (x + radius) * side + (z + radius),
                forall|k: int|
                    0 <= k < positions@.len() ==> #[trigger] positions@[k] == ((-radius + k / side) as i32,
                    (-radius + k % side) as i32),
            decreases radius - z,
        {
            proof {
                let k = (x + radius) * side + (z + radius);
                assert(k / side == x + radius && k % side == z + radius) by (nonlinear_arith)
                    requires
                        k == (x + radius) * side + (z + radius),
                        0 <= z + radius < side,
                        x + radius >= 0,
                ;
            }
            positions.push((x, z));
            z = z + 1;
        }
        proof {
            assert((x + radius) * side + side == (x + 1 + radius) * side) by (nonlinear_arith);
        }
        x = x + 1;
    }
    proof {
        if radius > 0 {
            assert(x == radius);
            assert((x + radius) * side == side * side) by (nonlinear_arith)
                requires
                    x == radius,
                    side == 2 * radius,
            ;
        }
        assert(positions@ =~= radius_positions(radius as int));
    }
    (view_radius, positions)
}

/// A client of the setup stage reports its player initialised: when it names
/// the player's runtime id the session moves to play, and the change to
/// announce is returned; another id is ignored.
pub fn handle_set_local_player_as_initialized<P>(
    player_id: u64,
    player: &Player,
    session: &mut Session<P>,
) -> (r: Option<StateChange>)
    ensures
        player_id != player.spec_runtime_id() ==> r is None && *final(session) == *old(session),
        player_id == player.spec_runtime_id() ==> {
            &&& final(session).spec_state() == SessionState::Play
            &&& final(session).spec_closed() == old(session).spec_closed()
            &&& final(session).queue() == old(session).queue()
            &&& r == if old(session).spec_state() == SessionState::Play {
                None
            } else {
                Some((StateChange { from: old(session).spec_state(), to: SessionState::Play }))
            }
        },
{
    if player_id != player.runtime_id() {
        return None;
    }
    session.set_state(SessionState::Play)
}

} // verus!
