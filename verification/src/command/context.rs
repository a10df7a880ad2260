//! What a command handler is told about its invocation.

use vstd::prelude::*;

use crate::text::{join, join_strings, strs};

verus! {

/// Fields of a new [`CommandContext`].
#[derive(Debug, Clone)]
pub struct CommandContextArgs {
    /// Room the command came from.
    pub room_id: String,
    /// Who sent it.
    pub sender: String,
    /// Arguments; the first may name a subcommand.
    pub args: Vec<String>,
    /// The bot's owners.
    pub bot_owners: Vec<String>,
}

/// A command invocation.
#[derive(Debug, Clone)]
pub struct CommandContext {
    /// Room the command came from.
    pub room_id: String,
    /// Who sent it.
    pub sender: String,
    /// Arguments; the first may name a subcommand.
    pub args: Vec<String>,
    /// The bot's owners.
    pub bot_owners: Vec<String>,
}

impl CommandContext {
    /// A context with the given fields.
    pub fn new(args: CommandContextArgs) -> (r: Self)
        ensures
            r.room_id == args.room_id,
            r.sender == args.sender,
            r.args == args.args,
            r.bot_owners == args.bot_owners,
    {
        CommandContext {
            room_id: args.room_id,
            sender: args.sender,
            args: args.args,
            bot_owners: args.bot_owners,
        }
    }

    /// Room the command came from.
    pub fn room_id(&self) -> (r: &str)
        ensures
            r@ == self.room_id@,
    {
        self.room_id.as_str()
    }

    /// The subcommand: the first argument, if any.
    pub fn sub_command(&self) -> (r: Option<&str>)
        ensures
            match r {
                Some(s) => self.args@.len() > 0 && s@ == self.args@[0]@,
                None => self.args@.len() == 0,
            },
    {
        if self.args.len() > 0 {
            Some(self.args[0].as_str())
        } else {
            None
        }
    }

    /// All arguments joined by single spaces: the free text of commands
    /// such as `称号 <名称>` or `meme <关键词>`; empty without arguments.
    pub fn args_text(&self) -> (r: String)
        ensures
            r@ == join(strs(self.args@), " "@),
    {
        join_strings(&self.args, " ")
    }

    /// The arguments after the subcommand; none when there is at most one
    /// argument.
    pub fn sub_args(&self) -> (r: &[String])
        ensures
            self.args@.len() > 1 ==> r@ == self.args@.drop_first(),
            self.args@.len() <= 1 ==> r@.len() == 0,
    {
        if self.args.len() > 1 {
            let r = vstd::slice::slice_subrange(self.args.as_slice(), 1, self.args.len());
            assert(r@ =~= self.args@.drop_first());
            r
        } else {
            let r = vstd::slice::slice_subrange(self.args.as_slice(), 0, 0);
            r
        }
    }
}

} // verus!
