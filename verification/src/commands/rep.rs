//! Showing a member's reputation, and the resolved values of the command
//! options that the reputation commands read.

use vstd::prelude::*;
use vstd::string::StringExecFns;
use crate::text::{
    decimal_digits, decimal_text, signed_decimal_digits, signed_decimal_text, starts_with_chars,
    text_starts_with,
};
use crate::util::RepData;

verus! {

/// A Discord user named in a command option.
pub struct ResolvedUser {
    pub id: u64,
    pub name: String,
    pub discriminator: u16,
    /// The hash of the user's avatar, if the user set one.
    pub avatar: Option<String>,
}

/// The address of a user's avatar image on Discord's CDN: an animated avatar
/// (hash beginning with `a_`) as GIF, any other as WEBP, at size 1024.
pub open spec fn avatar_url_text(id: u64, hash: Seq<char>) -> Seq<char> {
    "https://cdn.discordapp.com/avatars/"@ + decimal_digits(id as nat) + "/"@ + hash + (if starts_with_chars(
        hash,
        "a_"@,
    ) {
        ".gif"@
    } else {
        ".webp"@
    }) + "?size=1024"@
}

/// The address of the user's avatar, none when the user has none
/// (serenity's `User::avatar_url`).
pub fn avatar_url(user: &ResolvedUser) -> (r: Option<String>)
    ensures
        match user.avatar {
            Some(h) => r matches Some(u) && u@ == avatar_url_text(user.id, h@),
            None => r is None,
        },
{
    match &user.avatar {
        Some(hash) => {
            let mut url = String::from_str("https://cdn.discordapp.com/avatars/");
            url.append(decimal_text(user.id).as_str());
            url.append("/");
            url.append(hash.as_str());
            if text_starts_with(hash.as_str(), "a_") {
                url.append(".gif");
            } else {
                url.append(".webp");
            }
            url.append("?size=1024");
            Some(url)
        },
        None => None,
    }
}

/// The guild membership of a user named in a command option.
pub struct ResolvedMember {
    pub nick: Option<String>,
}

/// The resolved value of a command option.
pub enum OptionValue {
    /// A user, and the member record when the user is in the guild.
    User(ResolvedUser, Option<ResolvedMember>),
    /// A string.
    Text(String),
    /// Any other kind of value.
    Other,
}

/// The answer when the user option does not name a user.
pub open spec fn bad_user_message() -> Seq<char> {
    "Failed to parse user"@
}

/// The message for an option that should name a user and does not.
pub fn bad_user() -> (s: String)
    ensures
        s@ == bad_user_message(),
{
    String::from_str("Failed to parse user")
}

/// The option value from which `/rep` reads its user.
pub open spec fn target_option_read(user_option: OptionValue) -> bool {
    user_option is User
}

/// The user that `/rep` asks about, with its member record.
pub fn rep_target(user_option: OptionValue) -> (r: Result<(ResolvedUser, Option<ResolvedMember>), String>)
    ensures
        match user_option {
            OptionValue::User(u, m) => r == Ok::<(ResolvedUser, Option<ResolvedMember>), String>((u, m)),
            _ => r matches Err(e) && e@ == bad_user_message(),
        },
        r is Ok <==> target_option_read(user_option),
{
    match user_option {
        OptionValue::User(u, m) => Ok((u, m)),
        _ => Err(bad_user()),
    }
}

/// The values that the reputation embed shows.
pub struct RepCard {
    pub title: String,
    pub footer: String,
    pub positive: String,
    pub negative: String,
    pub image: String,
}

/// The name the embed calls a user by: the nickname, if any, else the name.
pub open spec fn shown_name(user: ResolvedUser, member: ResolvedMember) -> Seq<char> {
    match member.nick {
        Some(n) => n@,
        None => user.name@,
    }
}

/// The reputation embed for `user`, who is in the guild as `member`.
pub fn rep_card(user: &ResolvedUser, member: &ResolvedMember, data: &RepData) -> (card: RepCard)
    ensures
        card.title@ == "Reputation of "@ + shown_name(*user, *member) + "#"@ + decimal_digits(
            user.discriminator as nat,
        ),
        card.footer@ == "Developed by Ziikmar#3262"@,
        card.positive@ == "+"@ + signed_decimal_digits(data.positive as int),
        card.negative@ == "-"@ + signed_decimal_digits(data.negative as int),
        card.image@ == match user.avatar {
            Some(h) => avatar_url_text(user.id, h@),
            None => Seq::<char>::empty(),
        },
{
    let mut title = String::from_str("Reputation of ");
    match &member.nick {
        Some(n) => title.append(n.as_str()),
        None => title.append(user.name.as_str()),
    }
    title.append("#");
    title.append(decimal_text(user.discriminator as u64).as_str());
    let mut positive = String::from_str("+");
    positive.append(signed_decimal_text(data.positive as i64).as_str());
    let mut negative = String::from_str("-");
    negative.append(signed_decimal_text(data.negative as i64).as_str());
    let image = match avatar_url(user) {
        Some(a) => a,
        None => String::new(),
    };
    RepCard { title, footer: String::from_str("Developed by Ziikmar#3262"), positive, negative, image }
}

} // verus!
