//! The logic of the bot's slash commands.

pub mod leaderboard;
pub mod nrep;
pub mod profile;
pub mod rep;
