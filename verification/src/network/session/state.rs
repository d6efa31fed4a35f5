use vstd::prelude::*;

verus! {

/// The stages of a client session, in the order they are passed through.
#[derive(Debug, Clone, Copy, PartialEq, Eq, Structural)]
pub enum SessionState {
    Request,
    Login,
    Resource,
    Setup,
    Play,
}

/// A session moving from one stage to another.
#[derive(Debug, Clone, Copy, PartialEq, Eq, Structural)]
pub struct StateChange {
    pub from: SessionState,
    pub to: SessionState,
}

} // verus!
