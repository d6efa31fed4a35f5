use vstd::prelude::*;

use crate::command::builtin::form::{is_greeting, player_greeting, SimpleForm};
use crate::command::command::Command;

verus! {

/// Used for debugging.
pub struct DebugCommand;

impl DebugCommand {
    /// Shows the sender the greeting form; only a player can be shown one.
    pub fn execute(&self, sender_name: &str, sent_by_player: bool) -> (r: Result<SimpleForm, String>)
        ensures
            !sent_by_player ==> (r matches Err(e) && e@ == "must be sent by player!"@),
            sent_by_player ==> (r matches Ok(f) && is_greeting(f, sender_name@)),
    {
        player_greeting(sender_name, sent_by_player)
    }
}

impl Command for DebugCommand {
    open spec fn spec_name(&self) -> Seq<char> {
        "debug"@
    }

    fn name(&self) -> (r: &str) {
        "debug"
    }

    open spec fn spec_description(&self) -> Seq<char> {
        "Used for debugging"@
    }

    fn description(&self) -> (r: &str) {
        "Used for debugging"
    }

    /// No other names.
    fn aliases(&self) -> (r: &[&'static str]) {
        let none: &[&'static str] = &[];
        assert(none@.len() == 0);
        none
    }
}

} // verus!
