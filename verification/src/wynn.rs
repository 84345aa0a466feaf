//! The records of the Wynncraft and Mojang web APIs that the bot reads, as
//! plain values, and the checks it makes on their HTTP responses.

use vstd::prelude::*;
use vstd::string::StringExecFns;

verus! {

/// A member of a guild, as the guild statistics report it.
pub struct GuildMember {
    pub name: String,
    pub uuid: String,
    pub rank: String,
    /// Guild XP contributed since the member joined.
    pub contributed: u64,
    pub joined_friendly: String,
}

/// A guild and its members, in the order the API lists them.
pub struct Guild {
    pub name: String,
    pub members: Vec<GuildMember>,
}

/// A dungeon and how often a character completed it.
pub struct Dungeon {
    pub name: String,
    pub completed: u64,
}

/// One character class of a player, with its dungeon record.
pub struct PlayerClass {
    pub dungeons: Vec<Dungeon>,
}

/// A player's statistics.
pub struct Player {
    pub classes: Vec<PlayerClass>,
}

/// The guild that the bot serves.
pub open spec fn home_guild_name() -> Seq<char> {
    "The Broken Gasmask"@
}

/// The name of the guild that the bot serves.
pub fn home_guild() -> (s: String)
    ensures
        s@ == home_guild_name(),
{
    String::from_str("The Broken Gasmask")
}

/// Whether a Mojang profile lookup answered with a profile: the status is a
/// success and the body is not empty.
pub fn get_uuid_from_username_usable(success: bool, content_length: Option<u64>) -> (r: bool)
    requires
        success ==> content_length is Some,
    ensures
        r == (success && content_length->0 != 0),
{
    success && content_length.unwrap() != 0
}

/// Whether a guild lookup answered with a guild: the status is a success and
/// the body is not the 27-byte error that the API sends with status 200.
pub fn get_guild_usable(success: bool, content_length: Option<u64>) -> (r: bool)
    requires
        success ==> content_length is Some,
    ensures
        r == (success && content_length->0 != 27),
{
    success && content_length.unwrap() != 27
}

} // verus!
