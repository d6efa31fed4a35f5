use vstd::prelude::*;

use vstd::string::StringExecFns;

use crate::command::command::Command;
use crate::command::registry::CommandRegistry;
use crate::sort::{sort_positions, sorted_by_key};
use crate::text::{decimal, decimal_usize, lowercase_result, parse_usize, push_decimal, to_lowercase};

verus! {

/// Commands listed on one help page.
pub const PAGE_SIZE: usize = 7;

/// Lists the commands a page at a time, or describes one command.
pub struct HelpCommand;

/// One page of the command list: its number, the number of pages, and the
/// positions `start..end` in the sorted command list that it shows.
#[derive(Debug, Clone, Copy, PartialEq, Eq, Structural)]
pub struct HelpPage {
    pub page: usize,
    pub total_pages: usize,
    pub start: usize,
    pub end: usize,
}

/// What a help request shows.
pub enum HelpAction<'r, C> {
    /// A page of the command list.
    List(HelpPage),
    /// The description of one command.
    Describe(&'r C),
}

/// The words of `parts` joined with single spaces.
pub open spec fn join_words(parts: Seq<Seq<char>>) -> Seq<char>
    decreases parts.len(),
{
    if parts.len() == 0 {
        Seq::empty()
    } else if parts.len() == 1 {
        parts[0]
    } else {
        join_words(parts.drop_last()) + seq![' '] + parts.last()
    }
}

/// The number of pages for `count` commands: at least one.
pub open spec fn page_count(count: nat) -> nat {
    let pages = (count + PAGE_SIZE - 1) / (PAGE_SIZE as int);
    if pages < 1 {
        1
    } else {
        pages as nat
    }
}

/// The page a help request asks for, and how many of its arguments name a
/// command: a last argument that reads as a number is the page (0 counts as
/// 1) and does not belong to the name.
pub open spec fn help_arguments(args: Seq<Seq<char>>) -> (usize, nat) {
    if args.len() > 0 && decimal_usize(args.last()) is Some {
        let parsed = decimal_usize(args.last()).unwrap();
        (if parsed < 1 { 1 } else { parsed }, (args.len() - 1) as nat)
    } else {
        (1, args.len())
    }
}

/// The message for a help request that names no command.
pub(crate) fn no_command_message(name: &str) -> (r: String)
    ensures
        r@ == "No command matching \""@ + name@ + "\" found."@,
{
    let mut message = String::from_str("No command matching \"");
    message.append(name);
    message.append("\" found.");
    message
}

/// The parts of `parts` joined with `sep` between them.
pub open spec fn join_with(parts: Seq<Seq<char>>, sep: Seq<char>) -> Seq<char>
    decreases parts.len(),
{
    if parts.len() == 0 {
        Seq::empty()
    } else if parts.len() == 1 {
        parts[0]
    } else {
        join_with(parts.drop_last(), sep) + sep + parts.last()
    }
}

/// The first line of a page of the command list.
pub open spec fn page_header(page: HelpPage) -> Seq<char> {
    "§2--- Showing help page "@ + decimal(page.page as nat) + " of "@ + decimal(page.total_pages as nat)
        + " (/help <page>) ---"@
}

/// The line that lists `command`.
pub open spec fn list_line<C: Command>(command: C) -> Seq<char> {
    "§2/"@ + command.spec_name() + ": §r"@ + command.spec_description()
}

/// The lower-cased names of `commands`, by which the list is sorted.
pub open spec fn lowercase_names<C: Command>(commands: Seq<C>) -> Seq<Seq<char>> {
    commands.map_values(|c: C| lowercase_result(c.spec_name()))
}

/// Whether `lines` show `page` of `commands` sorted by lower-cased name: the
/// header, then a line for each command of the page.
pub open spec fn is_list_reply<C: Command>(commands: Seq<C>, page: HelpPage, lines: Seq<Seq<char>>) -> bool {
    exists|order: Seq<usize>|
        {
            &&& sorted_by_key(lowercase_names(commands), order)
            &&& lines.len() == 1 + page.end - page.start
            &&& lines[0] == page_header(page)
            &&& forall|k: int|
                0 <= k < page.end - page.start ==> #[trigger] lines[1 + k] == list_line(
                    commands[order[page.start + k] as int],
                )
        }
}

/// Whether `lines` describe `command`: its name, its description and, when
/// it has any, its aliases sorted and joined with commas.
pub open spec fn is_describe_reply<C: Command>(command: C, lines: Seq<Seq<char>>) -> bool {
    &&& lines.len() == if command.spec_aliases().len() == 0 {
        2int
    } else {
        3int
    }
    &&& lines[0] == "§e--------- §fHelp: /"@ + command.spec_name() + " §e---------"@
    &&& lines[1] == "§6Description: §f"@ + command.spec_description()
    &&& command.spec_aliases().len() > 0 ==> exists|order: Seq<usize>|
        {
            &&& sorted_by_key(command.spec_aliases(), order)
            &&& lines[2] == "§6Aliases: §f"@ + join_with(
                order.map_values(|p: usize| command.spec_aliases()[p as int]),
                ", "@,
            )
        }
}

impl HelpCommand {
    /// The page to show of `command_count` commands when page `page` is asked
    /// for; a page past the end shows the last one.
    pub fn list(&self, command_count: usize, page: usize) -> (r: HelpPage)
        requires
            page >= 1,
        ensures
            r.total_pages == page_count(command_count as nat),
            r.page == if page < r.total_pages {
                page
            } else {
                r.total_pages
            },
            r.start == (r.page - 1) * PAGE_SIZE,
            r.end == if r.start + PAGE_SIZE < command_count {
                r.start + PAGE_SIZE
            } else {
                command_count as int
            },
            r.start <= r.end,
    {
        let pages = command_count / PAGE_SIZE + if command_count % PAGE_SIZE == 0 {
            0
        } else {
            1
        };
        assert(pages == (command_count + PAGE_SIZE - 1) / (PAGE_SIZE as int));
        let total_pages = if pages < 1 {
            1
        } else {
            pages
        };
        let page = if page < total_pages {
            page
        } else {
            total_pages
        };
        assert((page - 1) * 7 < command_count || (page == 1 && command_count == 0)) by (nonlinear_arith)
            requires
                pages == (command_count + 7 - 1) / 7,
                total_pages == if pages < 1 { 1 } else { pages },
                1 <= page <= total_pages,
        ;
        let start = (page - 1) * PAGE_SIZE;
        let remaining = command_count - start;
        let end = if remaining > PAGE_SIZE {
            start + PAGE_SIZE
        } else {
            command_count
        };
        HelpPage { page, total_pages, start, end }
    }

    /// Answers `/help` with the arguments `args`: a page of the command list
    /// when no command is named, the named command otherwise.
    pub fn execute<'r, C: Command>(&self, registry: &'r CommandRegistry<C>, args: &[&str]) -> (r: Result<
        HelpAction<'r, C>,
        String,
    >)
        requires
            registry.wf(),
        ensures
            ({
                let views = args@.map_values(|a: &str| a@);
                let (page, name_len) = help_arguments(views);
                let name = join_words(views.take(name_len as int));
                if name.len() == 0 {
                    r matches Ok(HelpAction::List(p)) && p == self.list_spec(
                        registry.spec_commands().len(),
                        page,
                    )
                } else {
                    match registry.lookup(name) {
                        Some(position) => r matches Ok(HelpAction::Describe(c)) && *c
                            == registry.spec_commands()[position as int],
                        None => r matches Err(message) && message@ == "No command matching \""@ + name
                            + "\" found."@,
                    }
                }
            }),
    {
        let ghost views = args@.map_values(|a: &str| a@);
        let mut page: usize = 1;
        let mut name_len = args.len();
        if args.len() > 0 {
            match parse_usize(args[args.len() - 1]) {
                Some(parsed) => {
                    page = if parsed < 1 {
                        1
                    } else {
                        parsed
                    };
                    name_len = args.len() - 1;
                },
                None => {},
            }
        }
        proof {
            if args@.len() > 0 {
                assert(views.last() == args@[args@.len() - 1]@);
            }
        }
        let mut name = String::new();
        let mut i: usize = 0;
        while i < name_len
            invariant
                name_len <= args@.len(),
                i <= name_len,
                views == args@.map_values(|a: &str| a@),
                name@ == join_words(views.take(i as int)),
            decreases name_len - i,
        {
            proof {
                reveal_strlit(" ");
                assert(views.take(i + 1).drop_last() =~= views.take(i as int));
                assert(views.take(i + 1).last() == args@[i as int]@);
            }
            if i > 0 {
                name.append(" ");
            }
            name.append(args[i]);
            proof {
                if i == 0 {
                    assert(name@ =~= join_words(views.take(1)));
                }
            }
            i = i + 1;
        }
        if name.as_str().is_empty() {
            return Ok(HelpAction::List(self.list(registry.commands().len(), page)));
        }
        match registry.get(name.as_str()) {
            Some(command) => Ok(HelpAction::Describe(command)),
            None => Err(no_command_message(name.as_str())),
        }
    }

    /// The lines that show `page` of the commands of `registry`, sorted by
    /// lower-cased name.
    pub fn list_lines<C: Command>(&self, registry: &CommandRegistry<C>, page: HelpPage) -> (r: Vec<String>)
        requires
            page.start <= page.end <= registry.spec_commands().len(),
        ensures
            is_list_reply(registry.spec_commands(), page, r@.map_values(|s: String| s@)),
    {
        let commands = registry.commands();
        let ghost cmds = registry.spec_commands();
        let mut keys: Vec<String> = Vec::new();
        let mut i: usize = 0;
        while i < commands.len()
            invariant
                commands@ == cmds,
                i <= cmds.len(),
                keys@.len() == i,
                forall|j: int| 0 <= j < i ==> #[trigger] keys@[j]@ == lowercase_names(cmds)[j],
            decreases cmds.len() - i,
        {
            let key = to_lowercase(commands[i].name());
            keys.push(key);
            i = i + 1;
        }
        assert(keys@.map_values(|k: String| k@) =~= lowercase_names(cmds));
        let order = sort_positions(&keys);
        let mut header = String::from_str("§2--- Showing help page ");
        push_decimal(&mut header, page.page);
        header.append(" of ");
        push_decimal(&mut header, page.total_pages);
        header.append(" (/help <page>) ---");
        let mut lines: Vec<String> = Vec::new();
        lines.push(header);
        let mut k: usize = page.start;
        while k < page.end
            invariant
                commands@ == cmds,
                page.start <= k <= page.end <= cmds.len(),
                sorted_by_key(lowercase_names(cmds), order@),
                lines@.len() == 1 + k - page.start,
                lines@[0]@ == page_header(page),
                forall|j: int|
                    0 <= j < k - page.start ==> #[trigger] lines@[1 + j]@ == list_line(
                        cmds[order@[page.start + j] as int],
                    ),
            decreases page.end - k,
        {
            let command = &commands[order[k]];
            let mut line = String::from_str("§2/");
            line.append(command.name());
            line.append(": §r");
            line.append(command.description());
            lines.push(line);
            k = k + 1;
        }
        let ghost views = lines@.map_values(|s: String| s@);
        assert(views.len() == 1 + page.end - page.start);
        assert(views[0] == page_header(page));
        assert(forall|j: int|
            0 <= j < page.end - page.start ==> #[trigger] views[1 + j] == list_line(
                cmds[order@[page.start + j] as int],
            ));
        lines
    }

    /// The lines that describe `command`.
    pub fn describe_lines<C: Command>(&self, command: &C) -> (r: Vec<String>)
        ensures
            is_describe_reply(*command, r@.map_values(|s: String| s@)),
    {
        let mut lines: Vec<String> = Vec::new();
        let mut title = String::from_str("§e--------- §fHelp: /");
        title.append(command.name());
        title.append(" §e---------");
        lines.push(title);
        let mut description = String::from_str("§6Description: §f");
        description.append(command.description());
        lines.push(description);
        let aliases = command.aliases();
        let ghost names = command.spec_aliases();
        if aliases.len() > 0 {
            let mut keys: Vec<String> = Vec::new();
            let mut i: usize = 0;
            while i < aliases.len()
                invariant
                    aliases@.len() == names.len(),
                    forall|j: int| 0 <= j < aliases@.len() ==> #[trigger] aliases@[j]@ == names[j],
                    i <= names.len(),
                    keys@.len() == i,
                    forall|j: int| 0 <= j < i ==> #[trigger] keys@[j]@ == names[j],
                decreases names.len() - i,
            {
                let key: String = aliases[i].to_owned();
                keys.push(key);
                i = i + 1;
            }
            assert(keys@.map_values(|k: String| k@) =~= names);
            let order = sort_positions(&keys);
            let ghost parts = order@.map_values(|p: usize| names[p as int]);
            let mut joined = String::from_str("§6Aliases: §f");
            let mut j: usize = 0;
            while j < order.len()
                invariant
                    sorted_by_key(names, order@),
                    keys@.len() == names.len(),
                    forall|q: int| 0 <= q < keys@.len() ==> #[trigger] keys@[q]@ == names[q],
                    parts == order@.map_values(|p: usize| names[p as int]),
                    j <= order@.len(),
                    j > 0 ==> joined@ == "§6Aliases: §f"@ + join_with(parts.take(j as int), ", "@),
                    j == 0 ==> joined@ == "§6Aliases: §f"@,
                decreases order@.len() - j,
            {
                if j > 0 {
                    joined.append(", ");
                }
                joined.append(keys[order[j]].as_str());
                proof {
                    assert(parts.take(j + 1).drop_last() =~= parts.take(j as int));
                    assert(parts.take(j + 1).last() == names[order@[j as int] as int]);
                    if j == 0 {
                        assert(joined@ =~= "§6Aliases: §f"@ + join_with(parts.take(1), ", "@));
                    } else {
                        assert(joined@ =~= "§6Aliases: §f"@ + join_with(parts.take(j + 1), ", "@));
                    }
                }
                j = j + 1;
            }
            assert(parts.take(order@.len() as int) =~= parts);
            lines.push(joined);
        }
        let ghost views = lines@.map_values(|s: String| s@);
        assert(views[0] == "§e--------- §fHelp: /"@ + command.spec_name() + " §e---------"@);
        assert(views[1] == "§6Description: §f"@ + command.spec_description());
        lines
    }

    /// The reply lines to `/help` with the arguments `args`, or the error to
    /// show: the lines of `execute`'s page of the command list, or those that
    /// describe the command it names.
    pub fn reply<C: Command>(&self, registry: &CommandRegistry<C>, args: &[&str]) -> (r: Result<
        Vec<String>,
        String,
    >)
        requires
            registry.wf(),
        ensures
            ({
                let views = args@.map_values(|a: &str| a@);
                let (page, name_len) = help_arguments(views);
                let name = join_words(views.take(name_len as int));
                if name.len() == 0 {
                    r matches Ok(lines) && is_list_reply(
                        registry.spec_commands(),
                        self.list_spec(registry.spec_commands().len(), page),
                        lines@.map_values(|s: String| s@),
                    )
                } else {
                    match registry.lookup(name) {
                        Some(position) => r matches Ok(lines) && is_describe_reply(
                            registry.spec_commands()[position as int],
                            lines@.map_values(|s: String| s@),
                        ),
                        None => r matches Err(message) && message@ == "No command matching \""@ + name
                            + "\" found."@,
                    }
                }
            }),
    {
        match self.execute(registry, args) {
            Ok(HelpAction::List(page)) => {
                let n = registry.commands().len();
                proof {
                    assert(n == registry.spec_commands().len());
                    let count = registry.spec_commands().len();
                    let total = page_count(count);
                    assert(page.page <= total);
                    assert(page.page >= 1);
                    assert((page.page - 1) * 7 <= count) by (nonlinear_arith)
                        requires
                            total == page_count(count),
                            1 <= page.page <= total,
                    ;
                }
                Ok(self.list_lines(registry, page))
            },
            Ok(HelpAction::Describe(command)) => Ok(self.describe_lines(command)),
            Err(message) => Err(message),
        }
    }

    /// The page that `list` computes.
    pub open spec fn list_spec(&self, command_count: nat, page: usize) -> HelpPage {
        let total_pages = page_count(command_count);
        let shown = if page < total_pages {
            page as int
        } else {
            total_pages as int
        };
        let start = (shown - 1) * PAGE_SIZE;
        HelpPage {
            page: shown as usize,
            total_pages: total_pages as usize,
            start: start as usize,
            end: (if start + PAGE_SIZE < command_count {
                start + PAGE_SIZE
            } else {
                command_count as int
            }) as usize,
        }
    }
}

impl Command for HelpCommand {
    open spec fn spec_name(&self) -> Seq<char> {
        "help"@
    }

    open spec fn spec_description(&self) -> Seq<char> {
        "Provides help/list of commands"@
    }

    fn name(&self) -> (r: &str) {
        "help"
    }

    fn description(&self) -> (r: &str) {
        "Provides help/list of commands"
    }

    open spec fn spec_aliases(&self) -> Seq<Seq<char>> {
        seq!["?"@]
    }

    fn aliases(&self) -> (r: &[&'static str]) {
        let names: &[&'static str] = &["?"];
        names
    }
}

} // verus!
