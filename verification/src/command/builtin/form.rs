use vstd::prelude::*;

use vstd::string::StringExecFns;

verus! {

/// A form with a title, a body and a column of buttons, each a label.
pub struct SimpleForm {
    pub title: String,
    pub body: String,
    pub buttons: Vec<String>,
}

/// Whether `f` is the greeting form for the player `name`.
pub open spec fn is_greeting(f: SimpleForm, name: Seq<char>) -> bool {
    &&& f.title@ == "Simple Form"@
    &&& f.body@ == "Hello "@ + name + "!"@
    &&& f.buttons@.len() == 2
    &&& f.buttons@[0]@ == "Hey!"@
    &&& f.buttons@[1]@ == "Fuck you"@
}

/// The form that greets the player `name`: "Hello" and two buttons to
/// answer with.
pub fn greeting_form(name: &str) -> (r: SimpleForm)
    ensures
        is_greeting(r, name@),
{
    let mut body = String::from_str("Hello ");
    body.append(name);
    body.append("!");
    let mut buttons: Vec<String> = Vec::new();
    buttons.push(String::from_str("Hey!"));
    buttons.push(String::from_str("Fuck you"));
    SimpleForm { title: String::from_str("Simple Form"), body, buttons }
}

/// What a form-showing command answers its sender: the greeting form for a
/// player, an error for any other sender.
pub fn player_greeting(sender_name: &str, sent_by_player: bool) -> (r: Result<SimpleForm, String>)
    ensures
        !sent_by_player ==> (r matches Err(e) && e@ == "must be sent by player!"@),
        sent_by_player ==> (r matches Ok(f) && is_greeting(f, sender_name@)),
{
    if !sent_by_player {
        return Err(String::from_str("must be sent by player!"));
    }
    Ok(greeting_form(sender_name))
}

} // verus!
