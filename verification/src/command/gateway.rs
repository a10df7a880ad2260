//! Routing of a message to a command: help, unknown commands, the
//! permission check, and the handler that runs.

use vstd::prelude::*;

use crate::text::{owned, push_str, strs, str_eq};
use crate::ui::{status_spec, Status};

use super::parser::{parse_spec, ParsedCommand, Parser};
use super::permission::{allows, display_name_of, Permission};
use super::registry::{CommandInfo, CommandRegistry};

verus! {

/// Where a message goes.
pub enum Route<'a, H> {
    /// Not a command.
    Ignore,
    /// The help command.
    Help,
    /// A command that nobody registered; its name.
    Unknown(String),
    /// A registered command, its handler and its arguments; the permission
    /// is still to be checked.
    Found { info: &'a CommandInfo, handler: &'a H, args: Vec<String> },
}

/// Routes messages to registered commands.
pub struct CommandGateway<H> {
    parser: Parser,
    registry: CommandRegistry<H>,
    bot_owners: Vec<String>,
}

/// Plain text refusing an unknown command.
pub open spec fn unknown_text(cmd: Seq<char>) -> Seq<char> {
    "未知命令: !"@ + cmd
}

/// Plain text refusing a command for want of a level.
pub open spec fn denied_text(p: Permission) -> Seq<char> {
    "权限不足: 需要 "@ + display_name_of(p)
}

impl<H> CommandGateway<H> {
    /// The prefix.
    pub closed spec fn prefix_spec(&self) -> Seq<char> {
        self.parser.prefix_view()
    }

    /// The registered commands by name.
    pub closed spec fn commands_spec(&self) -> Map<Seq<char>, (CommandInfo, H)> {
        self.registry.commands_spec()
    }

    /// The owners.
    pub closed spec fn owners_spec(&self) -> Seq<Seq<char>> {
        strs(self.bot_owners@)
    }

    /// Internal consistency.
    pub closed spec fn wf(&self) -> bool {
        self.registry.wf()
    }

    /// A gateway with the prefix, the owners and no command.
    pub fn new(prefix: String, bot_owners: Vec<String>) -> (r: Self)
        ensures
            r.wf(),
            r.prefix_spec() == prefix@,
            r.owners_spec() == strs(bot_owners@),
            r.commands_spec() == Map::<Seq<char>, (CommandInfo, H)>::empty(),
    {
        CommandGateway { parser: Parser::new(prefix), registry: CommandRegistry::new(), bot_owners }
    }

    /// Registers a command, replacing one of the same name.
    pub fn register(&mut self, info: CommandInfo, handler: H)
        requires
            old(self).wf(),
        ensures
            final(self).wf(),
            final(self).commands_spec() == old(self).commands_spec().insert(info.name@, (info, handler)),
            final(self).prefix_spec() == old(self).prefix_spec(),
            final(self).owners_spec() == old(self).owners_spec(),
    {
        self.registry.register(info, handler);
    }

    /// Changes the prefix.
    pub fn set_prefix(&mut self, prefix: String)
        ensures
            final(self).prefix_spec() == prefix@,
            final(self).commands_spec() == old(self).commands_spec(),
            final(self).owners_spec() == old(self).owners_spec(),
            final(self).wf() == old(self).wf(),
    {
        self.parser.set_prefix(prefix);
    }

    /// Whether the message starts with the prefix (see [`Parser::is_command`]).
    pub fn is_command(&self, msg: &str) -> (r: bool)
        ensures
            r == crate::text::starts_with(crate::text::trim(msg@), self.prefix_spec()),
    {
        self.parser.is_command(msg)
    }

    /// The registry.
    pub fn registry(&self) -> (r: &CommandRegistry<H>)
        ensures
            r.commands_spec() == self.commands_spec(),
            r.wf() == self.wf(),
    {
        &self.registry
    }

    /// Where a message goes: nowhere when it does not parse, the help for
    /// `help`, an unknown command when no command has that name, and
    /// otherwise the registered command with the arguments.
    pub fn route(&self, msg: &str) -> (r: Route<'_, H>)
        requires
            self.wf(),
        ensures
            match parse_spec(self.prefix_spec(), msg@) {
                None => r is Ignore,
                Some((cmd, args)) => if cmd == "help"@ {
                    r is Help
                } else if !self.commands_spec().dom().contains(cmd) {
                    r matches Route::Unknown(c) && c@ == cmd
                } else {
                    r matches Route::Found { info, handler, args: a } && *info
                        == self.commands_spec()[cmd].0 && *handler == self.commands_spec()[cmd].1
                        && strs(a@) == args
                },
            },
    {
        let parsed = match self.parser.parse(msg) {
            None => {
                return Route::Ignore;
            },
            Some(p) => p,
        };
        let ParsedCommand { cmd, args } = parsed;
        if str_eq(cmd.as_str(), "help") {
            return Route::Help;
        }
        match self.registry.get(cmd.as_str()) {
            None => Route::Unknown(cmd),
            Some(entry) => Route::Found { info: &entry.0, handler: &entry.1, args },
        }
    }

    /// Whether `sender` may run a command that needs `p`; whether the room
    /// is direct and the sender's power level in it are looked up by the
    /// caller.
    pub fn authorize(&self, p: Permission, is_direct: bool, power_level: i64, sender: &str) -> (r: bool)
        ensures
            r == allows(p, is_direct, power_level, self.owners_spec(), sender@),
    {
        p.check(is_direct, power_level, sender, &self.bot_owners)
    }
}

/// Reply to an unknown command: the HTML error and its plain text.
pub fn unknown_reply(cmd: &str) -> (r: (String, String))
    ensures
        r.0@ == status_spec(Status::Error, unknown_text(cmd@)),
        r.1@ == unknown_text(cmd@),
{
    let mut plain = owned("未知命令: !");
    push_str(&mut plain, cmd);
    let html = crate::ui::error(plain.as_str());
    (html, plain)
}

/// Reply to a command refused for want of `p`: the HTML error and its plain text.
pub fn denied_reply(p: Permission) -> (r: (String, String))
    ensures
        r.0@ == status_spec(Status::Error, denied_text(p)),
        r.1@ == denied_text(p),
{
    let mut plain = owned("权限不足: 需要 ");
    push_str(&mut plain, p.display_name());
    let html = crate::ui::error(plain.as_str());
    (html, plain)
}

} // verus!
