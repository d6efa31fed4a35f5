use vstd::prelude::*;

use vstd::string::StringExecFns;

verus! {

/// The reply to `/ping` from the sender `name`.
pub fn ping_reply(name: &str) -> (r: String)
    ensures
        r@ == "Pong, "@ + name@ + "!"@,
{
    let mut reply = String::from_str("Pong, ");
    reply.append(name);
    reply.append("!");
    reply
}

} // verus!
