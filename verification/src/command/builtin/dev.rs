use vstd::prelude::*;

use crate::command::builtin::form::{is_greeting, player_greeting, SimpleForm};
use crate::command::command::Command;

verus! {

/// Used for testing of internal features.
pub struct DevCommand;

impl DevCommand {
    /// Shows the sender the greeting form; only a player can be shown one.
    pub fn execute(&self, sender_name: &str, sent_by_player: bool) -> (r: Result<SimpleForm, String>)
        ensures
            !sent_by_player ==> (r matches Err(e) && e@ == "must be sent by player!"@),
            sent_by_player ==> (r matches Ok(f) && is_greeting(f, sender_name@)),
    {
        player_greeting(sender_name, sent_by_player)
    }
}

impl Command for DevCommand {
    open spec fn spec_name(&self) -> Seq<char> {
        "dev"@
    }

    fn name(&self) -> (r: &str) {
        "dev"
    }

    open spec fn spec_description(&self) -> Seq<char> {
        "Used for testing of internal features"@
    }

    fn description(&self) -> (r: &str) {
        "Used for testing of internal features"
    }

    /// No other names.
    fn aliases(&self) -> (r: &[&'static str]) {
        let none: &[&'static str] = &[];
        assert(none@.len() == 0);
        none
    }
}

} // verus!
