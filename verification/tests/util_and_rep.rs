use chrono::TimeZone;
use gasmask_bot::calendar::{stamp_seconds, ClockReading};
use gasmask_bot::commands::nrep::{nrep_request, rep_grant_request, rep_permission, RepGrant};
use gasmask_bot::commands::rep::{avatar_url, rep_card, rep_target, OptionValue, ResolvedMember, ResolvedUser};
use gasmask_bot::util::{
    can_give_rep, give_rep_outcome, millis_to_secs, period_bound_text, rep_data_or_default, rep_window_start,
    time_period_bounds, ContributionLogs, DBClient, RepData, RepType, TimePeriod,
};

fn user(id: u64, name: &str) -> ResolvedUser {
    ResolvedUser { id, name: name.to_string(), discriminator: 42, avatar: None }
}

#[test]
fn db_client_get_returns_the_handle() {
    let DBClient = DBClient::get();
}

#[test]
fn rep_type_values() {
    assert_eq!(RepType::PlusRep.value(), 1);
    assert_eq!(RepType::MinRep.value(), 0);
}

#[test]
fn rep_data_default_is_zero() {
    let d = RepData::default();
    assert_eq!((d.positive, d.negative), (0, 0));
    let d = rep_data_or_default(None);
    assert_eq!((d.positive, d.negative), (0, 0));
    let d = rep_data_or_default(Some(RepData { positive: 3, negative: 1 }));
    assert_eq!((d.positive, d.negative), (3, 1));
}

#[test]
fn contribution_log_default_is_empty() {
    let d = ContributionLogs::default();
    assert_eq!((d.id, d.contributed_xp), (0, 0));
    assert!(d.username.is_empty() && d.uuid.is_empty());
    let now = chrono::Utc::now().timestamp();
    assert!(d.ts <= now && now - d.ts < 60);
}

#[test]
fn rep_window_starts_a_day_earlier() {
    assert_eq!(rep_window_start(86_400_000 + 5_500), 5);
    assert_eq!(rep_window_start(1_700_000_000_000), 1_699_913_600);
    assert_eq!(rep_window_start(0), -86_400);
    assert_eq!(rep_window_start(-1_999), (-1_999i64 - 86_400_000) / 1000);
}

#[test]
fn millis_to_secs_truncates_toward_zero() {
    for ms in [0i64, 999, 1000, 1999, -1, -999, -1000, -1001, -1999, i64::MIN, i64::MAX] {
        assert_eq!(millis_to_secs(ms), ms / 1000, "{ms}");
    }
}

#[test]
fn can_give_rep_only_without_recent_rep() {
    assert!(can_give_rep(0));
    assert!(!can_give_rep(1));
    assert!(!can_give_rep(7));
}

#[test]
fn give_rep_outcome_reports_failure() {
    assert!(give_rep_outcome(true).is_ok());
    assert_eq!(give_rep_outcome(false).err().unwrap(), "An error occurred");
}

#[test]
fn period_bounds_are_plain_dates() {
    assert_eq!(period_bound_text(2022, 7, 13), "2022-07-13");
    assert_eq!(period_bound_text(-5, 1, 2), "-0005-01-02");
    let (a, b) = time_period_bounds(&TimePeriod(738_349, 738_356)).unwrap();
    assert_eq!((a.as_str(), b.as_str()), ("2022-07-13", "2022-07-20"));
    assert!(time_period_bounds(&TimePeriod(738_349, i32::MAX)).is_none());
}

#[test]
fn rep_target_needs_a_user() {
    let (u, m) = rep_target(OptionValue::User(user(7, "ann"), None)).unwrap();
    assert_eq!(u.id, 7);
    assert!(m.is_none());
    assert_eq!(rep_target(OptionValue::Text("x".to_string())).err().unwrap(), "Failed to parse user");
    assert_eq!(rep_target(OptionValue::Other).err().unwrap(), "Failed to parse user");
}

#[test]
fn rep_card_shows_counts() {
    let mut u = user(7, "ann");
    let card = rep_card(&u, &ResolvedMember { nick: None }, &RepData { positive: 12, negative: 3 });
    assert_eq!(card.title, "Reputation of ann#42");
    assert_eq!(card.footer, "Developed by Ziikmar#3262");
    assert_eq!(card.positive, "+12");
    assert_eq!(card.negative, "-3");
    assert_eq!(card.image, "");
    u.avatar = Some("0123abcd".to_string());
    let card = rep_card(&u, &ResolvedMember { nick: Some("Annie".to_string()) }, &RepData { positive: 0, negative: 0 });
    assert_eq!(card.title, "Reputation of Annie#42");
    assert_eq!(card.image, "https://cdn.discordapp.com/avatars/7/0123abcd.webp?size=1024");
    assert_eq!((card.positive.as_str(), card.negative.as_str()), ("+0", "-0"));
}

#[test]
fn nrep_request_checks_reason_then_user() {
    let u = OptionValue::User(user(u64::MAX, "bob"), None);
    let reason = OptionValue::Text("helpful".to_string());
    let g = nrep_request(&u, &reason, 5).unwrap();
    assert!(matches!(g.rep_type, RepType::MinRep));
    assert_eq!((g.member, g.reason.as_str(), g.giver), (-1, "helpful", 5));
    assert_eq!(nrep_request(&OptionValue::Other, &OptionValue::Other, 5).err().unwrap(), "Failed to parse reason");
    assert_eq!(nrep_request(&OptionValue::Other, &reason, 5).err().unwrap(), "Failed to parse user");
    assert_eq!(nrep_request(&reason, &u, 5).err().unwrap(), "Failed to parse reason");
    let g = rep_grant_request(RepType::PlusRep, &u, &reason, 9).unwrap();
    assert!(matches!(g.rep_type, RepType::PlusRep));
}

#[test]
fn rep_permission_refuses_within_a_day() {
    let grant = RepGrant { rep_type: RepType::MinRep, member: 1, reason: "r".to_string(), giver: 2 };
    let g = rep_permission(grant, 0).unwrap();
    assert_eq!((g.member, g.giver), (1, 2));
    let grant = RepGrant { rep_type: RepType::MinRep, member: 1, reason: "r".to_string(), giver: 2 };
    assert_eq!(
        rep_permission(grant, 2).err().unwrap(),
        "You have already given this person reputation in the last 24h."
    );
}

#[test]
fn stamp_seconds_rounds_down_like_chrono() {
    for ms in [0i64, 1, 999, 1000, 1_999, 1_657_670_400_123] {
        assert_eq!(stamp_seconds(ClockReading::SinceEpoch(ms as u128)), chrono::Utc.timestamp_millis_opt(ms).unwrap().timestamp());
        assert_eq!(stamp_seconds(ClockReading::BeforeEpoch(ms as u128)), chrono::Utc.timestamp_millis_opt(-ms).unwrap().timestamp());
    }
    assert_eq!(stamp_seconds(ClockReading::BeforeEpoch(1_500)), -2);
    assert_eq!(stamp_seconds(ClockReading::BeforeEpoch(9_223_372_036_854_775_808_000)), i64::MIN);
    assert_eq!(stamp_seconds(ClockReading::BeforeEpoch(9_223_372_036_854_775_808_001)), 0);
    assert_eq!(stamp_seconds(ClockReading::SinceEpoch(9_223_372_036_854_775_807_999)), i64::MAX);
    assert_eq!(stamp_seconds(ClockReading::SinceEpoch(9_223_372_036_854_775_808_000)), 0);
    assert_eq!(stamp_seconds(ClockReading::SinceEpoch(u128::MAX)), 0);
}

#[test]
fn avatar_url_picks_gif_for_animated_avatars() {
    let mut u = user(80_351_110_224_678_912, "ann");
    assert!(avatar_url(&u).is_none());
    u.avatar = Some("a_1269e74af4df7417b13759eae50c83dc".to_string());
    assert_eq!(
        avatar_url(&u).unwrap(),
        "https://cdn.discordapp.com/avatars/80351110224678912/a_1269e74af4df7417b13759eae50c83dc.gif?size=1024"
    );
    u.avatar = Some("8342729096ea3675442027381ff50dfe".to_string());
    assert_eq!(
        avatar_url(&u).unwrap(),
        "https://cdn.discordapp.com/avatars/80351110224678912/8342729096ea3675442027381ff50dfe.webp?size=1024"
    );
}
