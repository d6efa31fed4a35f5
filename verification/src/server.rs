use vstd::prelude::*;

use std::time::Instant;

verus! {

#[verifier::external_type_specification]
#[verifier::external_body]
pub struct ExInstant(Instant);

/// `std::time::Instant::now`: the current time. Nothing is claimed of the value.
#[verifier::external_body]
fn instant_now() -> Instant {
    Instant::now()
}

/// The server: it counts ticks and hands out runtime ids.
pub struct Server;

/// The tick counter, when the current tick started, and the next runtime id.
pub struct ServerState {
    tick: i64,
    tick_instant: Instant,
    runtime_id: u64,
}

impl ServerState {
    pub closed spec fn spec_tick(&self) -> i64 {
        self.tick
    }

    /// When the current tick started.
    pub closed spec fn spec_tick_instant(&self) -> Instant {
        self.tick_instant
    }

    /// The runtime id that the next call of `get_runtime_id` hands out.
    pub closed spec fn spec_runtime_id(&self) -> u64 {
        self.runtime_id
    }

    /// The state of a server that has not ticked yet: tick 0, first runtime id 1.
    pub fn new() -> (r: Self)
        ensures
            r.spec_tick() == 0,
            r.spec_runtime_id() == 1,
    {
        ServerState { tick: 0, tick_instant: instant_now(), runtime_id: 1 }
    }

    pub fn tick(&self) -> (r: i64)
        ensures
            r == self.spec_tick(),
    {
        self.tick
    }

    /// When the current tick started.
    pub fn tick_instant(&self) -> (r: Instant)
        ensures
            r == self.spec_tick_instant(),
    {
        self.tick_instant
    }

    /// Hands out the next runtime id; the counter wraps around past `u64::MAX`.
    pub fn get_runtime_id(&mut self) -> (r: u64)
        ensures
            r == old(self).spec_runtime_id(),
            final(self).spec_runtime_id() == old(self).spec_runtime_id().wrapping_add(1),
            final(self).spec_tick() == old(self).spec_tick(),
    {
        let id = self.runtime_id;
        self.runtime_id = self.runtime_id.wrapping_add(1);
        id
    }
}

impl Server {
    /// Starts a new tick: counts it and records when it started.
    pub fn start_tick(server_state: &mut ServerState)
        requires
            old(server_state).spec_tick() < i64::MAX,
        ensures
            final(server_state).spec_tick() == old(server_state).spec_tick() + 1,
            final(server_state).spec_runtime_id() == old(server_state).spec_runtime_id(),
    {
        server_state.tick = server_state.tick + 1;
        server_state.tick_instant = instant_now();
    }
}

} // verus!
