use vstd::prelude::*;

use vstd::string::StringExecFns;

use crate::command::command::Command;
use crate::name_index::NameIndex;
use crate::text::{split_whitespace, split_whitespace_result, strip_leading, trim, trim_result, trim_start_matches};

verus! {

broadcast use vstd::string::group_string_axioms;

/// What a command line asks for.
pub enum Dispatch<'a> {
    /// The line holds no command name.
    Empty,
    /// No command answers to the name.
    Unknown(&'a str),
    /// The command at `position` is to run with `args`.
    Found { position: usize, args: Vec<&'a str> },
}

/// The registered commands, and the names and aliases they answer to.
pub struct CommandRegistry<C> {
    commands: Vec<C>,
    index: NameIndex<usize>,
}

/// The reply to a line that names no known command.
pub fn unknown_command_reply(name: &str) -> (r: String)
    ensures
        r@ == "§cUnknown command: "@ + name@,
{
    let mut reply = String::from_str("§cUnknown command: ");
    reply.append(name);
    reply
}

/// The reply that reports a command's error.
pub fn error_reply(error: &str) -> (r: String)
    ensures
        r@ == "§c"@ + error@,
{
    let mut reply = String::from_str("§c");
    reply.append(error);
    reply
}

/// The replies a command run ends with: its own, then its error, if any.
pub open spec fn run_replies(outcome: (Vec<String>, Result<(), String>)) -> Seq<Seq<char>> {
    let own = outcome.0@.map_values(|s: String| s@);
    match outcome.1 {
        Ok(_) => own,
        Err(e) => own.push("§c"@ + e@),
    }
}

/// The words of a command line: what is left after trimming white space and
/// leading slashes, split at white space.
pub open spec fn line_words(line: Seq<char>) -> Seq<Seq<char>> {
    split_whitespace_result(strip_leading(trim_result(line), '/'))
}

impl<C: Command> CommandRegistry<C> {
    /// The commands in registration order.
    pub closed spec fn spec_commands(&self) -> Seq<C> {
        self.commands@
    }

    /// The position of the command answering to `name`: the one registered
    /// last under that name or alias.
    pub closed spec fn lookup(&self, name: Seq<char>) -> Option<usize> {
        if self.index@.contains_key(name) {
            Some(self.index@[name])
        } else {
            None
        }
    }

    pub closed spec fn wf(&self) -> bool {
        &&& self.index.wf()
        &&& forall|name: Seq<char>| #[trigger] self.index@.contains_key(name) ==> self.index@[name] < self.commands@.len()
    }

    pub fn new() -> (r: Self)
        ensures
            r.wf(),
            r.spec_commands() == Seq::<C>::empty(),
            forall|name: Seq<char>| #[trigger] r.lookup(name) is None,
    {
        Self { commands: Vec::new(), index: NameIndex::new() }
    }

    /// Makes `name` answer to the command at `position`.
    fn bind(&mut self, name: String, position: usize)
        requires
            old(self).wf(),
            position < old(self).commands@.len(),
        ensures
            final(self).wf(),
            final(self).commands@ == old(self).commands@,
            forall|n: Seq<char>|
                #[trigger] final(self).lookup(n) == if n == name@ {
                    Some(position)
                } else {
                    old(self).lookup(n)
                },
    {
        self.index.insert(name, position);
    }

    /// Adds `command`, answering to its name and its aliases; a name or
    /// alias already in use moves to the new command, and every other name
    /// keeps its command.
    pub fn register(&mut self, command: C)
        requires
            old(self).wf(),
        ensures
            final(self).wf(),
            final(self).spec_commands() == old(self).spec_commands().push(command),
            final(self).lookup(command.spec_name()) == Some(old(self).spec_commands().len() as usize),
            forall|k: int|
                0 <= k < command.spec_aliases().len() ==> #[trigger] final(self).lookup(command.spec_aliases()[k])
                    == Some(old(self).spec_commands().len() as usize),
            forall|n: Seq<char>|
                n != command.spec_name() && !command.spec_aliases().contains(n)
                    ==> #[trigger] final(self).lookup(n) == old(self).lookup(n),
    {
        let position = self.commands.len();
        let name: String = command.name().to_owned();
        let aliases = command.aliases();
        let ghost names = command.spec_aliases();
        let mut alias_names: Vec<String> = Vec::new();
        let mut k: usize = 0;
        while k < aliases.len()
            invariant
                k <= aliases@.len(),
                aliases@.len() == names.len(),
                forall|i: int| 0 <= i < aliases@.len() ==> #[trigger] aliases@[i]@ == names[i],
                alias_names@.len() == k,
                forall|i: int| 0 <= i < k ==> #[trigger] alias_names@[i]@ == names[i],
            decreases aliases.len() - k,
        {
            let alias: String = aliases[k].to_owned();
            alias_names.push(alias);
            k = k + 1;
        }
        self.commands.push(command);
        assert(forall|n: Seq<char>| #[trigger] self.lookup(n) == old(self).lookup(n));
        self.bind(name, position);
        let mut i: usize = 0;
        while i < alias_names.len()
            invariant
                self.wf(),
                position == old(self).commands@.len(),
                self.commands@ == old(self).commands@.push(command),
                alias_names@.len() == names.len(),
                forall|j: int| 0 <= j < names.len() ==> #[trigger] alias_names@[j]@ == names[j],
                i <= names.len(),
                forall|j: int| 0 <= j < i ==> #[trigger] self.lookup(names[j]) == Some(position),
                forall|n: Seq<char>|
                    n != command.spec_name() && !names.take(i as int).contains(n) ==> #[trigger] self.lookup(n)
                        == old(self).lookup(n),
                forall|n: Seq<char>|
                    n == command.spec_name() && !names.take(i as int).contains(n) ==> #[trigger] self.lookup(n)
                        == Some(position),
            decreases alias_names@.len() - i,
        {
            let alias = alias_names[i].clone();
            self.bind(alias, position);
            proof {
                assert forall|n: Seq<char>| !names.take(i + 1).contains(n) implies !names.take(
                    i as int,
                ).contains(n) && n != names[i as int] by {
                    if names.take(i as int).contains(n) {
                        let w = choose|w: int| 0 <= w < i && names.take(i as int)[w] == n;
                        assert(names.take(i + 1)[w] == n);
                    }
                    if n == names[i as int] {
                        assert(names.take(i + 1)[i as int] == n);
                    }
                }
            }
            i = i + 1;
        }
        proof {
            assert(names.take(names.len() as int) =~= names);
            if names.contains(command.spec_name()) {
                let w = choose|w: int| 0 <= w < names.len() && names[w] == command.spec_name();
                assert(self.lookup(names[w]) == Some(position));
            }
        }
    }

    /// The command answering to `name`.
    pub fn get(&self, name: &str) -> (r: Option<&C>)
        requires
            self.wf(),
        ensures
            r == match self.lookup(name@) {
                Some(p) => Some(&self.spec_commands()[p as int]),
                None => None,
            },
    {
        match self.index.get(name) {
            Some(position) => Some(&self.commands[position]),
            None => None,
        }
    }

    /// The commands in registration order.
    pub fn commands(&self) -> (r: &[C])
        ensures
            r@ == self.spec_commands(),
    {
        self.commands.as_slice()
    }

    /// The command that a line names, once the line is split into words:
    /// the first word names it, the others are its arguments.
    pub fn dispatch_words<'a>(&self, words: Vec<&'a str>) -> (r: Dispatch<'a>)
        requires
            self.wf(),
        ensures
            words@.len() == 0 ==> r is Empty,
            words@.len() > 0 ==> match self.lookup(words@[0]@) {
                None => r == Dispatch::Unknown(words@[0]),
                Some(p) => r matches Dispatch::Found { position, args } && position == p && args@
                    == words@.drop_first(),
            },
    {
        if words.len() == 0 {
            return Dispatch::Empty;
        }
        let name = words[0];
        let mut args: Vec<&'a str> = Vec::new();
        let mut i: usize = 1;
        while i < words.len()
            invariant
                1 <= i <= words@.len(),
                args@ == words@.subrange(1, i as int),
            decreases words@.len() - i,
        {
            args.push(words[i]);
            i = i + 1;
        }
        assert(args@ =~= words@.drop_first());
        match self.find(name) {
            Some(position) => Dispatch::Found { position, args },
            None => Dispatch::Unknown(name),
        }
    }

    /// The command that `line` asks for: leading and trailing white space and
    /// then leading slashes are dropped, the first word names the command and
    /// the other words are its arguments.
    pub fn dispatch<'a>(&self, line: &'a str) -> (r: Dispatch<'a>)
        requires
            self.wf(),
        ensures
            line_words(line@).len() == 0 ==> r is Empty,
            line_words(line@).len() > 0 ==> match self.lookup(line_words(line@)[0]) {
                None => r matches Dispatch::Unknown(name) && name@ == line_words(line@)[0],
                Some(p) => r matches Dispatch::Found { position, args } && position == p && args@.len()
                    == line_words(line@).len() - 1 && forall|i: int|
                    0 <= i < args@.len() ==> #[trigger] args@[i]@ == line_words(line@)[i + 1],
            },
    {
        let trimmed = trim(line);
        let stripped = trim_start_matches(trimmed, '/');
        let words = split_whitespace(stripped);
        let r = self.dispatch_words(words);
        proof {
            if words@.len() > 0 {
                assert(words@[0]@ == line_words(line@)[0]);
            }
        }
        r
    }

    /// The position of the command answering to `name`.
    fn find(&self, name: &str) -> (r: Option<usize>)
        requires
            self.wf(),
        ensures
            r == self.lookup(name@),
    {
        self.index.get(name)
    }

    /// Runs the command that `line` asks for with `execute`, which gets the
    /// command's position and its arguments and gives the command's replies
    /// and result; the replies to send back: none for an empty line, the
    /// unknown-command reply for a name no command answers to, and otherwise
    /// the command's replies followed by the report of its error, if any.
    pub fn run<'a, F>(&self, line: &'a str, execute: F) -> (r: Vec<String>)
        where
            F: Fn(usize, Vec<&'a str>) -> (Vec<String>, Result<(), String>),
        requires
            self.wf(),
            forall|p: usize, args: Vec<&'a str>| call_requires(execute, (p, args)),
        ensures
            line_words(line@).len() == 0 ==> r@.len() == 0,
            line_words(line@).len() > 0 ==> match self.lookup(line_words(line@)[0]) {
                None => r@.len() == 1 && r@[0]@ == "§cUnknown command: "@ + line_words(line@)[0],
                Some(p) => exists|args: Vec<&'a str>, outcome: (Vec<String>, Result<(), String>)|
                    {
                        &&& args@.len() == line_words(line@).len() - 1
                        &&& forall|i: int| 0 <= i < args@.len() ==> #[trigger] args@[i]@ == line_words(line@)[i + 1]
                        &&& call_ensures(execute, (p, args), outcome)
                        &&& r@.map_values(|s: String| s@) == run_replies(outcome)
                    },
            },
    {
        match self.dispatch(line) {
            Dispatch::Empty => Vec::new(),
            Dispatch::Unknown(name) => {
                let mut replies: Vec<String> = Vec::new();
                replies.push(unknown_command_reply(name));
                replies
            },
            Dispatch::Found { position, args } => {
                let ghost called_with = args;
                let outcome = execute(position, args);
                let ghost result = outcome;
                let (mut replies, status) = outcome;
                match status {
                    Ok(()) => {},
                    Err(e) => {
                        replies.push(error_reply(e.as_str()));
                    },
                }
                proof {
                    assert(replies@.map_values(|s: String| s@) =~= run_replies(result));
                }
                replies
            },
        }
    }
}

} // verus!
