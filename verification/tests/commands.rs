use chorus::command::builtin::debug::DebugCommand;
use chorus::command::builtin::dev::DevCommand;
use chorus::command::builtin::ping::ping_reply;
use chorus::command::builtin::help::{HelpAction, HelpCommand, HelpPage};
use chorus::command::command::Command;
use chorus::command::registry::{error_reply, unknown_command_reply, CommandRegistry, Dispatch};

enum Builtin {
    Help(HelpCommand),
    Dev(DevCommand),
    Debug(DebugCommand),
}

impl Command for Builtin {
    fn name(&self) -> &str {
        match self {
            Builtin::Help(c) => c.name(),
            Builtin::Dev(c) => c.name(),
            Builtin::Debug(c) => c.name(),
        }
    }

    fn description(&self) -> &str {
        match self {
            Builtin::Help(c) => c.description(),
            Builtin::Dev(c) => c.description(),
            Builtin::Debug(c) => c.description(),
        }
    }

    fn aliases(&self) -> &[&'static str] {
        match self {
            Builtin::Help(c) => c.aliases(),
            Builtin::Dev(c) => c.aliases(),
            Builtin::Debug(c) => c.aliases(),
        }
    }
}

fn registry() -> CommandRegistry<Builtin> {
    let mut r = CommandRegistry::new();
    r.register(Builtin::Help(HelpCommand));
    r.register(Builtin::Dev(DevCommand));
    r.register(Builtin::Debug(DebugCommand));
    r
}

#[test]
fn lookup_by_name_and_alias() {
    let r = registry();
    assert_eq!(r.commands().len(), 3);
    assert_eq!(r.get("help").map(|c| c.name()), Some("help"));
    assert_eq!(r.get("?").map(|c| c.name()), Some("help"));
    assert_eq!(r.get("dev").map(|c| c.description()), Some("Used for testing of internal features"));
    assert!(r.get("nope").is_none());
}

#[test]
fn dispatch_lines() {
    let r = registry();
    match r.dispatch("  /help 2  x ") {
        Dispatch::Found { position, args } => {
            assert_eq!(position, 0);
            assert_eq!(args, vec!["2", "x"]);
        }
        _ => panic!("expected a command"),
    }
    match r.dispatch("//debug") {
        Dispatch::Found { position, args } => {
            assert_eq!(position, 2);
            assert!(args.is_empty());
        }
        _ => panic!("expected a command"),
    }
    assert!(matches!(r.dispatch("   "), Dispatch::Empty));
    assert!(matches!(r.dispatch("/"), Dispatch::Empty));
    assert!(matches!(r.dispatch("/nope a"), Dispatch::Unknown("nope")));
}

#[test]
fn help_pages() {
    let h = HelpCommand;
    assert_eq!(h.list(20, 5), HelpPage { page: 3, total_pages: 3, start: 14, end: 20 });
    assert_eq!(h.list(20, 2), HelpPage { page: 2, total_pages: 3, start: 7, end: 14 });
    assert_eq!(h.list(0, 1), HelpPage { page: 1, total_pages: 1, start: 0, end: 0 });
    assert_eq!(h.list(7, 1), HelpPage { page: 1, total_pages: 1, start: 0, end: 7 });
}

#[test]
fn help_arguments() {
    let r = registry();
    let h = HelpCommand;
    match h.execute(&r, &[]) {
        Ok(HelpAction::List(p)) => assert_eq!(p, HelpPage { page: 1, total_pages: 1, start: 0, end: 3 }),
        _ => panic!("expected a list"),
    }
    match h.execute(&r, &["0"]) {
        Ok(HelpAction::List(p)) => assert_eq!(p.page, 1),
        _ => panic!("expected a list"),
    }
    match h.execute(&r, &["dev"]) {
        Ok(HelpAction::Describe(c)) => assert_eq!(c.name(), "dev"),
        _ => panic!("expected a description"),
    }
    match h.execute(&r, &["?", "+3"]) {
        Ok(HelpAction::Describe(c)) => assert_eq!(c.name(), "help"),
        _ => panic!("expected a description"),
    }
    match h.execute(&r, &["no", "such"]) {
        Err(message) => assert_eq!(message, "No command matching \"no such\" found."),
        _ => panic!("expected an error"),
    }
}

#[test]
fn running_lines() {
    let r = registry();
    let run = |line: &str| {
        r.run(line, |position, args| {
            if position == 1 {
                (vec![format!("dev {}", args.len())], Err("must be sent by player!".to_string()))
            } else {
                (vec![format!("ran {position}")], Ok(()))
            }
        })
    };
    assert!(run("   ").is_empty());
    assert_eq!(run("/nope a"), vec!["§cUnknown command: nope".to_string()]);
    assert_eq!(run("/? 3"), vec!["ran 0".to_string()]);
    assert_eq!(run("/dev a b"), vec!["dev 2".to_string(), "§cmust be sent by player!".to_string()]);
    assert_eq!(unknown_command_reply("x"), "§cUnknown command: x");
    assert_eq!(error_reply("bad"), "§cbad");
}

struct Named(&'static str, &'static [&'static str]);

impl Command for Named {
    fn name(&self) -> &str {
        self.0
    }

    fn description(&self) -> &str {
        ""
    }

    fn aliases(&self) -> &[&'static str] {
        self.1
    }
}

#[test]
fn later_registrations_take_over_names() {
    let mut r = CommandRegistry::new();
    r.register(Named("a", &["x", "y"]));
    r.register(Named("b", &["y"]));
    assert_eq!(r.get("a").map(|c| c.name()), Some("a"));
    assert_eq!(r.get("x").map(|c| c.name()), Some("a"));
    assert_eq!(r.get("y").map(|c| c.name()), Some("b"));
    assert_eq!(r.get("b").map(|c| c.name()), Some("b"));
    assert!(r.get("z").is_none());
}

#[test]
fn help_reports_an_unknown_name() {
    let mut r = CommandRegistry::new();
    r.register(HelpCommand);
    match HelpCommand.execute(&r, &["foo", "3"]) {
        Err(message) => assert_eq!(message, "No command matching \"foo\" found."),
        Ok(_) => panic!("expected an error"),
    }
}

#[test]
fn ping_answers_by_name() {
    assert_eq!(ping_reply("Steve"), "Pong, Steve!");
}

#[test]
fn help_reply_lines() {
    let mut r = CommandRegistry::new();
    r.register(HelpCommand);
    assert_eq!(
        HelpCommand.reply(&r, &["5"]).unwrap(),
        vec![
            "§2--- Showing help page 1 of 1 (/help <page>) ---".to_string(),
            "§2/help: §rProvides help/list of commands".to_string(),
        ]
    );
    assert_eq!(
        HelpCommand.reply(&r, &["?"]).unwrap(),
        vec![
            "§e--------- §fHelp: /help §e---------".to_string(),
            "§6Description: §fProvides help/list of commands".to_string(),
            "§6Aliases: §f?".to_string(),
        ]
    );
    assert!(HelpCommand.reply(&r, &["foo", "3"]).is_err());
}

#[test]
fn help_list_is_sorted_by_lowercase_name() {
    let mut r = CommandRegistry::new();
    r.register(Named("beta", &[]));
    r.register(Named("Alpha", &["z", "b", "a"]));
    r.register(Named("gamma", &[]));
    r.register(Named("alpha", &[]));
    let lines = HelpCommand.reply(&r, &[]).unwrap();
    assert_eq!(
        lines,
        vec![
            "§2--- Showing help page 1 of 1 (/help <page>) ---".to_string(),
            "§2/Alpha: §r".to_string(),
            "§2/alpha: §r".to_string(),
            "§2/beta: §r".to_string(),
            "§2/gamma: §r".to_string(),
        ]
    );
    let lines = HelpCommand.reply(&r, &["Alpha"]).unwrap();
    assert_eq!(lines[2], "§6Aliases: §fa, b, z");
    assert_eq!(lines.len(), 3);
    assert_eq!(HelpCommand.reply(&r, &["beta"]).unwrap().len(), 2);
}
