//! The slash commands the bot registers with its guild, and which command
//! handles an interaction.

use vstd::prelude::*;
use vstd::string::StringExecFns;
use crate::commands::nrep::grant_options_read;
use crate::commands::profile::profile_option_kind;
use crate::commands::rep::{OptionValue, target_option_read};

verus! {

/// The kind of value a command option takes.
#[derive(PartialEq, Eq, Structural)]
pub enum OptionKind {
    Text,
    User,
}

/// An option of a slash command.
pub struct CommandOption {
    pub name: String,
    pub description: String,
    pub kind: OptionKind,
    pub required: bool,
}

/// A slash command and its options, in order.
pub struct SlashCommand {
    pub name: String,
    pub description: String,
    pub options: Vec<CommandOption>,
}

/// An option as plain values: name, description, kind, whether required.
pub open spec fn option_view(o: CommandOption) -> (Seq<char>, Seq<char>, OptionKind, bool) {
    (o.name@, o.description@, o.kind, o.required)
}

/// A command as plain values: name, description, options.
pub open spec fn command_view(c: SlashCommand) -> (
    Seq<char>,
    Seq<char>,
    Seq<(Seq<char>, Seq<char>, OptionKind, bool)>,
) {
    (c.name@, c.description@, c.options@.map_values(|o: CommandOption| option_view(o)))
}

/// The commands the bot registers, in order.
pub open spec fn registered_commands() -> Seq<
    (Seq<char>, Seq<char>, Seq<(Seq<char>, Seq<char>, OptionKind, bool)>),
> {
    seq![
        ("ping"@, "A ping command"@, seq![]),
        (
            "profile"@,
            "Shows the profile & stats of the group member"@,
            seq![("name"@, "The name of the person to show the profile of"@, OptionKind::Text, true)],
        ),
        (
            "leaderboard"@,
            "Shows the leaderboard of last week's top XP earners"@,
            seq![
                (
                    "start_date"@,
                    "The date on which to start the leaderboard. Formatted as YYYY-mm-dd"@,
                    OptionKind::Text,
                    false,
                ),
            ],
        ),
        (
            "prep"@,
            "Gives +rep to a member."@,
            seq![
                ("member"@, "The member to give +rep to"@, OptionKind::User, true),
                ("reason"@, "The reason for which you give +rep"@, OptionKind::Text, true),
            ],
        ),
        (
            "nrep"@,
            "Gives -rep to a member."@,
            seq![
                ("member"@, "The member to give -rep to"@, OptionKind::User, true),
                ("reason"@, "The reason for which you give +rep"@, OptionKind::Text, true),
            ],
        ),
        (
            "rep"@,
            "Shows the rep of a member"@,
            seq![("member"@, "The member to show the rep of"@, OptionKind::User, true)],
        ),
    ]
}

fn option(name: &str, description: &str, kind: OptionKind, required: bool) -> (o: CommandOption)
    ensures
        option_view(o) == (name@, description@, kind, required),
{
    CommandOption {
        name: String::from_str(name),
        description: String::from_str(description),
        kind,
        required,
    }
}

fn command(name: &str, description: &str, options: Vec<CommandOption>) -> (c: SlashCommand)
    ensures
        c.name@ == name@,
        c.description@ == description@,
        c.options@ == options@,
{
    SlashCommand { name: String::from_str(name), description: String::from_str(description), options }
}

/// The commands the bot registers with its guild when it is ready.
pub fn slash_commands() -> (commands: Vec<SlashCommand>)
    ensures
        commands@.map_values(|c: SlashCommand| command_view(c)) == registered_commands(),
{
    let ping = command("ping", "A ping command", Vec::new());
    assert(command_view(ping) =~= registered_commands()[0]);
    let mut profile_options = Vec::new();
    profile_options.push(
        option("name", "The name of the person to show the profile of", OptionKind::Text, true),
    );
    let profile = command(
        "profile",
        "Shows the profile & stats of the group member",
        profile_options,
    );
    assert(command_view(profile) =~= registered_commands()[1]);
    let mut leaderboard_options = Vec::new();
    leaderboard_options.push(
        option(
            "start_date",
            "The date on which to start the leaderboard. Formatted as YYYY-mm-dd",
            OptionKind::Text,
            false,
        ),
    );
    let leaderboard = command(
        "leaderboard",
        "Shows the leaderboard of last week's top XP earners",
        leaderboard_options,
    );
    assert(command_view(leaderboard) =~= registered_commands()[2]);
    let mut prep_options = Vec::new();
    prep_options.push(option("member", "The member to give +rep to", OptionKind::User, true));
    prep_options.push(option("reason", "The reason for which you give +rep", OptionKind::Text, true));
    let prep = command("prep", "Gives +rep to a member.", prep_options);
    assert(command_view(prep) =~= registered_commands()[3]);
    let mut nrep_options = Vec::new();
    nrep_options.push(option("member", "The member to give -rep to", OptionKind::User, true));
    nrep_options.push(option("reason", "The reason for which you give +rep", OptionKind::Text, true));
    let nrep = command("nrep", "Gives -rep to a member.", nrep_options);
    assert(command_view(nrep) =~= registered_commands()[4]);
    let mut rep_options = Vec::new();
    rep_options.push(option("member", "The member to show the rep of", OptionKind::User, true));
    let rep = command("rep", "Shows the rep of a member", rep_options);
    assert(command_view(rep) =~= registered_commands()[5]);
    let mut commands = Vec::new();
    commands.push(ping);
    commands.push(profile);
    commands.push(leaderboard);
    commands.push(prep);
    commands.push(nrep);
    commands.push(rep);
    assert(commands@.map_values(|c: SlashCommand| command_view(c)) =~= registered_commands());
    commands
}

/// The kind of an option value, none for a kind no command registers.
pub open spec fn value_kind(v: OptionValue) -> Option<OptionKind> {
    match v {
        OptionValue::User(_, _) => Some(OptionKind::User),
        OptionValue::Text(_) => Some(OptionKind::Text),
        OptionValue::Other => None,
    }
}

/// Each command registers the options it reads, in the order it reads them
/// and of the kinds it reads: `/profile` one required text, `/prep` and
/// `/nrep` a required user then a required text, from which a grant is read
/// exactly when the values have those kinds, and `/rep` one required user.
pub proof fn lemma_registered_options_are_the_ones_read(u: OptionValue, r: OptionValue)
    ensures
        registered_commands()[1].2.len() == 1,
        registered_commands()[1].2[0].2 == profile_option_kind(),
        registered_commands()[1].2[0].3,
        registered_commands()[3].2.len() == 2,
        registered_commands()[3].2[0].3 && registered_commands()[3].2[1].3,
        grant_options_read(u, r) <==> (value_kind(u) == Some(registered_commands()[3].2[0].2)
            && value_kind(r) == Some(registered_commands()[3].2[1].2)),
        registered_commands()[4].2.len() == 2,
        registered_commands()[4].2[0].3 && registered_commands()[4].2[1].3,
        grant_options_read(u, r) <==> (value_kind(u) == Some(registered_commands()[4].2[0].2)
            && value_kind(r) == Some(registered_commands()[4].2[1].2)),
        registered_commands()[5].2.len() == 1,
        registered_commands()[5].2[0].3,
        target_option_read(u) <==> value_kind(u) == Some(registered_commands()[5].2[0].2),
{
}

/// The command that handles an interaction.
#[derive(PartialEq, Eq, Structural)]
pub enum CommandKind {
    Profile,
    Leaderboard,
    Prep,
    Nrep,
    Rep,
}

/// Which command handles an interaction with the given name; none for any
/// other name, `ping` included.
pub open spec fn command_for(name: Seq<char>) -> Option<CommandKind> {
    if name == "profile"@ {
        Some(CommandKind::Profile)
    } else if name == "leaderboard"@ {
        Some(CommandKind::Leaderboard)
    } else if name == "prep"@ {
        Some(CommandKind::Prep)
    } else if name == "nrep"@ {
        Some(CommandKind::Nrep)
    } else if name == "rep"@ {
        Some(CommandKind::Rep)
    } else {
        None
    }
}

fn named(name: &String, literal: &str) -> (r: bool)
    ensures
        r == (name@ == literal@),
{
    *name == String::from_str(literal)
}

/// Which command handles an interaction with the given name.
pub fn command_kind(name: &str) -> (r: Option<CommandKind>)
    ensures
        r == command_for(name@),
{
    let name = String::from_str(name);
    if named(&name, "profile") {
        Some(CommandKind::Profile)
    } else if named(&name, "leaderboard") {
        Some(CommandKind::Leaderboard)
    } else if named(&name, "prep") {
        Some(CommandKind::Prep)
    } else if named(&name, "nrep") {
        Some(CommandKind::Nrep)
    } else if named(&name, "rep") {
        Some(CommandKind::Rep)
    } else {
        None
    }
}

/// Every registered command but `ping` is handled by the command of its name,
/// and `ping` by none.
pub proof fn lemma_registered_commands_dispatch()
    ensures
        command_for(registered_commands()[0].0) is None,
        command_for(registered_commands()[1].0) == Some(CommandKind::Profile),
        command_for(registered_commands()[2].0) == Some(CommandKind::Leaderboard),
        command_for(registered_commands()[3].0) == Some(CommandKind::Prep),
        command_for(registered_commands()[4].0) == Some(CommandKind::Nrep),
        command_for(registered_commands()[5].0) == Some(CommandKind::Rep),
{
    reveal_strlit("ping");
    reveal_strlit("profile");
    reveal_strlit("leaderboard");
    reveal_strlit("prep");
    reveal_strlit("nrep");
    reveal_strlit("rep");
    assert("ping"@[1] != "prep"@[1]);
    assert("ping"@[0] != "nrep"@[0]);
    assert("prep"@[0] != "nrep"@[0]);
    assert("ping"@.len() != "profile"@.len() && "ping"@.len() != "leaderboard"@.len());
    assert("ping"@.len() != "rep"@.len());
    assert("leaderboard"@.len() != "profile"@.len());
    assert("prep"@.len() != "profile"@.len() && "prep"@.len() != "leaderboard"@.len());
    assert("nrep"@.len() != "profile"@.len() && "nrep"@.len() != "leaderboard"@.len());
    assert("rep"@.len() != "profile"@.len() && "rep"@.len() != "leaderboard"@.len());
    assert("rep"@.len() != "prep"@.len() && "rep"@.len() != "nrep"@.len());
}

} // verus!
