//! Giving a member reputation: what the command options ask for, and
//! whether the giver may give it now.

use vstd::prelude::*;
use vstd::string::StringExecFns;
use crate::commands::rep::{OptionValue, bad_user, bad_user_message};
use crate::util::RepType;

verus! {

/// A reputation to store: of which kind, for which member, why and from whom.
pub struct RepGrant {
    pub rep_type: RepType,
    pub member: i64,
    pub reason: String,
    pub giver: i64,
}

/// The answer when the reason option is not a string.
pub open spec fn bad_reason_message() -> Seq<char> {
    "Failed to parse reason"@
}

/// The answer when the giver already gave the member reputation within a day.
pub open spec fn too_soon_message() -> Seq<char> {
    "You have already given this person reputation in the last 24h."@
}

/// The option values from which a grant can be read: a user, then a text.
pub open spec fn grant_options_read(user_option: OptionValue, reason_option: OptionValue) -> bool {
    user_option is User && reason_option is Text
}

/// The reputation that the command options ask for: the reason is checked
/// first, then the user; Discord ids are stored as `i64`.
pub fn rep_grant_request(
    rep_type: RepType,
    user_option: &OptionValue,
    reason_option: &OptionValue,
    giver: u64,
) -> (r: Result<RepGrant, String>)
    ensures
        match reason_option {
            OptionValue::Text(reason) => match user_option {
                OptionValue::User(u, _) => r matches Ok(g) && g.rep_type == rep_type && g.member == u.id
                    as i64 && g.reason@ == reason@ && g.giver == giver as i64,
                _ => r matches Err(e) && e@ == bad_user_message(),
            },
            _ => r matches Err(e) && e@ == bad_reason_message(),
        },
        r is Ok <==> grant_options_read(*user_option, *reason_option),
{
    let reason = match reason_option {
        OptionValue::Text(reason) => reason,
        _ => return Err(String::from_str("Failed to parse reason")),
    };
    let user = match user_option {
        OptionValue::User(u, _) => u,
        _ => return Err(bad_user()),
    };
    Ok(RepGrant { rep_type, member: user.id as i64, reason: reason.clone(), giver: giver as i64 })
}

/// The reputation `/nrep` asks for: a negative one.
pub fn nrep_request(user_option: &OptionValue, reason_option: &OptionValue, giver: u64) -> (r:
    Result<RepGrant, String>)
    ensures
        match reason_option {
            OptionValue::Text(reason) => match user_option {
                OptionValue::User(u, _) => r matches Ok(g) && g.rep_type == RepType::MinRep
                    && g.member == u.id as i64 && g.reason@ == reason@ && g.giver == giver as i64,
                _ => r matches Err(e) && e@ == bad_user_message(),
            },
            _ => r matches Err(e) && e@ == bad_reason_message(),
        },
{
    rep_grant_request(RepType::MinRep, user_option, reason_option, giver)
}

/// The grant, if the giver gave the member no reputation within the last
/// day (`reps_in_window` counts those it gave), else the refusal.
pub fn rep_permission(grant: RepGrant, reps_in_window: usize) -> (r: Result<RepGrant, String>)
    ensures
        reps_in_window == 0 ==> r == Ok::<RepGrant, String>(grant),
        reps_in_window != 0 ==> (r matches Err(e) && e@ == too_soon_message()),
{
    if crate::util::can_give_rep(reps_in_window) {
        Ok(grant)
    } else {
        Err(String::from_str("You have already given this person reputation in the last 24h."))
    }
}

} // verus!
