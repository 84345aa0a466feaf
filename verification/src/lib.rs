//! Verified core of the guild Discord bot: text rendering, calendar days,
//! reputation bookkeeping, the XP leaderboard and the member profile.

pub mod calendar;
pub mod commands;
pub mod handler;
pub mod text;
pub mod util;
pub mod wynn;
