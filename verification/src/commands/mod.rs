//! The bot's slash commands: how they are declared to Discord, which one an
//! interaction runs, and the replies they give.

pub mod deploy;
pub mod logs;
pub mod ping;
pub mod totp;

use vstd::prelude::*;
use crate::config::totp::TotpError;

verus! {

/// The kind of value that a command option takes.
#[derive(Debug, PartialEq, Eq)]
pub enum OptionKind {
    String,
}

/// One option of a slash command, as declared to Discord.
pub struct OptionSpec {
    pub kind: OptionKind,
    pub name: String,
    pub description: String,
    pub required: bool,
}

/// A slash command, as declared to Discord.
pub struct CommandSpec {
    pub name: String,
    pub description: String,
    pub options: Vec<OptionSpec>,
}

/// `o` is an option of kind string with this name, description and
/// requiredness.
pub open spec fn is_string_option(o: OptionSpec, name: Seq<char>, description: Seq<char>, required: bool) -> bool {
    &&& o.kind == OptionKind::String
    &&& o.name@ == name
    &&& o.description@ == description
    &&& o.required == required
}

/// One option that an interaction carries.
pub struct CommandOption {
    pub name: String,
    /// The option's value when it is a string.
    pub value: Option<String>,
}

/// The string value of the first option, if the first option has one.
pub open spec fn first_text(options: Seq<CommandOption>) -> Option<Seq<char>> {
    if options.len() == 0 {
        None
    } else {
        match options[0].value {
            Some(s) => Some(s@),
            None => None,
        }
    }
}

/// The string value of the first option of an interaction, if it has one.
pub fn first_text_option(options: &Vec<CommandOption>) -> (res: Option<String>)
    ensures
        match res {
            Some(s) => first_text(options@) == Some(s@),
            None => first_text(options@) is None,
        },
{
    if options.len() == 0 {
        None
    } else {
        match &options[0].value {
            Some(s) => Some(s.clone()),
            None => None,
        }
    }
}

/// One field of an embed.
#[derive(Debug, PartialEq, Eq)]
pub struct EmbedField {
    pub name: String,
    pub value: String,
    pub inline: bool,
}

/// `f` is a field with this name, value and inlineness.
pub open spec fn is_field(f: EmbedField, name: Seq<char>, value: Seq<char>, inline: bool) -> bool {
    &&& f.name@ == name
    &&& f.value@ == value
    &&& f.inline == inline
}

/// A rich message.
#[derive(Debug, PartialEq, Eq)]
pub struct Embed {
    pub title: String,
    pub url: String,
    /// The colour of the embed's border, as 0xRRGGBB.
    pub color: u32,
    pub fields: Vec<EmbedField>,
}

/// What the bot answers to an interaction.
#[derive(Debug, PartialEq, Eq)]
pub enum Reply {
    /// A plain message.
    Text(String),
    /// A rich message.
    Embed(Embed),
    /// A file attachment with this name and contents.
    File { filename: String, data: String },
}

/// `r` is a plain message with this text.
pub open spec fn is_text(r: Reply, text: Seq<char>) -> bool {
    r matches Reply::Text(s) && s@ == text
}

/// Why a command failed.
#[derive(Debug)]
pub enum HandleError {
    /// Talking to Discord failed; what the failure said.
    Serenity(String),
    /// No TOTP code could be made.
    Totp(TotpError),
    /// Talking to Cloudflare failed; what the failure said.
    Cloudflare(String),
    /// A required option was not given; its name.
    OptionNF(String),
}

impl HandleError {
    /// What the error says.
    pub fn to_string(&self) -> (s: String)
        ensures
            self matches HandleError::OptionNF(name) ==> s@ == "Option not found: "@ + name@,
            self matches HandleError::Serenity(m) ==> s@ == m@,
            self matches HandleError::Cloudflare(m) ==> s@ == m@,
            self matches HandleError::Totp(e) ==> e.message_spec(s@),
    {
        match self {
            HandleError::Serenity(m) => m.clone(),
            HandleError::Totp(e) => e.to_string(),
            HandleError::Cloudflare(m) => m.clone(),
            HandleError::OptionNF(name) => {
                let mut s = String::from_str("Option not found: ");
                s.append(name.as_str());
                s
            },
        }
    }
}

/// The commands that the bot declares, in this order.
pub fn register() -> (commands: Vec<CommandSpec>)
    ensures
        commands@.len() == 4,
        ping::declares(commands@[0]),
        deploy::declares(commands@[1]),
        logs::declares(commands@[2]),
        totp::declares(commands@[3]),
{
    let mut commands = Vec::new();
    commands.push(ping::register());
    commands.push(deploy::register());
    commands.push(logs::register());
    commands.push(totp::register());
    commands
}

/// The commands that the bot runs.
#[derive(Debug, PartialEq, Eq)]
pub enum CommandKind {
    Ping,
    Deploy,
    Logs,
    Totp,
}

/// The command named `name`, if the bot has one by that name.
pub open spec fn command_named(name: Seq<char>) -> Option<CommandKind> {
    if name == "ping"@ {
        Some(CommandKind::Ping)
    } else if name == "deploy"@ {
        Some(CommandKind::Deploy)
    } else if name == "logs"@ {
        Some(CommandKind::Logs)
    } else if name == "totp"@ {
        Some(CommandKind::Totp)
    } else {
        None
    }
}

/// Every command that `register` declares is run by `handle` when the
/// access rules let it run.
pub proof fn lemma_registered_commands_run(c: CommandSpec)
    ensures
        ping::declares(c) ==> command_named(c.name@) == Some(CommandKind::Ping),
        deploy::declares(c) ==> command_named(c.name@) == Some(CommandKind::Deploy),
        logs::declares(c) ==> command_named(c.name@) == Some(CommandKind::Logs),
        totp::declares(c) ==> command_named(c.name@) == Some(CommandKind::Totp),
{
    reveal_strlit("ping");
    reveal_strlit("deploy");
    reveal_strlit("logs");
    reveal_strlit("totp");
    assert("deploy"@ != "ping"@) by {
        assert("deploy"@.len() != "ping"@.len());
    }
    assert("logs"@ != "ping"@) by {
        assert("logs"@[0] != "ping"@[0]);
    }
    assert("logs"@ != "deploy"@) by {
        assert("logs"@.len() != "deploy"@.len());
    }
    assert("totp"@ != "ping"@) by {
        assert("totp"@[0] != "ping"@[0]);
    }
    assert("totp"@ != "deploy"@) by {
        assert("totp"@.len() != "deploy"@.len());
    }
    assert("totp"@ != "logs"@) by {
        assert("totp"@[0] != "logs"@[0]);
    }
}

/// What to do with an interaction.
#[derive(Debug, PartialEq, Eq)]
pub enum Dispatch {
    /// Run this command.
    Run(CommandKind),
    /// Answer with this text and do nothing else.
    Respond(String),
}

/// The answer to an interaction that its user may not run.
pub const ACCESS_DENIED: &'static str = "**Access Denied!**";

/// The answer to an interaction for a command that the bot does not have.
pub const NOT_IMPLEMENTED: &'static str = "Not Implemented!";


/// Decides what an interaction for the command `name` leads to: nothing but
/// "**Access Denied!**" when the access rules refuse it, else the command
/// by that name, or "Not Implemented!" when there is none.
pub fn handle(allowed: bool, name: &String) -> (d: Dispatch)
    ensures
        !allowed ==> (d matches Dispatch::Respond(text) && text@ == ACCESS_DENIED@),
        allowed && command_named(name@) is None ==> (d matches Dispatch::Respond(text) && text@
            == NOT_IMPLEMENTED@),
        allowed && command_named(name@) is Some ==> d == Dispatch::Run(command_named(name@)->0),
{
    if !allowed {
        return Dispatch::Respond(String::from_str(ACCESS_DENIED));
    }
    if *name == String::from_str(ping::NAME) {
        Dispatch::Run(CommandKind::Ping)
    } else if *name == String::from_str(deploy::NAME) {
        Dispatch::Run(CommandKind::Deploy)
    } else if *name == String::from_str(logs::NAME) {
        Dispatch::Run(CommandKind::Logs)
    } else if *name == String::from_str(totp::NAME) {
        Dispatch::Run(CommandKind::Totp)
    } else {
        Dispatch::Respond(String::from_str(NOT_IMPLEMENTED))
    }
}

} // verus!
