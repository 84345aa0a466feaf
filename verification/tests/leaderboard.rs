use gasmask_bot::commands::leaderboard::{
    leaderboard_description, leaderboard_entries, leaderboard_heading, leaderboard_start,
    leaderboard_title, member_gain, rank_entries, resolve_leaderboard_start, top_ten,
    LeaderboardStart, MemberXP, LOG_CUTOFF_CE_DAY,
};
use chrono::{Datelike, NaiveDate, Utc};
use gasmask_bot::wynn::GuildMember;

fn member(name: &str, contributed: u64) -> GuildMember {
    GuildMember {
        name: name.to_string(),
        uuid: format!("uuid-{name}"),
        rank: "RECRUIT".to_string(),
        contributed,
        joined_friendly: "2021-01-01".to_string(),
    }
}

fn entry(xp: u64, name: &str) -> MemberXP {
    MemberXP { xp, uuid: name.to_string() }
}

fn view(entries: &[MemberXP]) -> Vec<(u64, String)> {
    entries.iter().map(|e| (e.xp, e.uuid.clone())).collect()
}

#[test]
fn member_gain_subtracts_the_logged_contribution() {
    assert_eq!(member_gain(100, Some(40)), Some(60));
    assert_eq!(member_gain(100, None), Some(100));
    assert_eq!(member_gain(100, Some(100)), Some(0));
    assert_eq!(member_gain(10, Some(20)), None);
    assert_eq!(member_gain(10, Some(-1)), None);
    assert_eq!(member_gain(u64::MAX, Some(-1)), Some(0));
}

#[test]
fn leaderboard_entries_skip_members_below_their_log() {
    let members = vec![member("Ann", 500), member("Bob", 50), member("Cid", 70)];
    let logged = vec![Some(100), Some(60), None];
    let rows = leaderboard_entries(&members, &logged);
    assert_eq!(view(&rows), vec![(400, "Ann".to_string()), (70, "Cid".to_string())]);
}

#[test]
fn rank_entries_sorts_best_first_like_sort_then_reverse() {
    let entries = vec![
        entry(5, "b"), entry(9, "a"), entry(5, "a"), entry(5, "c"), entry(0, "z"), entry(9, "a"),
    ];
    let mut expected = view(&entries);
    expected.sort();
    expected.reverse();
    let ranked = rank_entries(entries);
    assert_eq!(view(&ranked), expected);
    assert_eq!(view(&rank_entries(Vec::new())), Vec::<(u64, String)>::new());
}

#[test]
fn top_ten_keeps_the_ten_best() {
    let names = ["k", "b", "l", "a", "j", "c", "i", "d", "h", "e", "g", "f"];
    let entries: Vec<MemberXP> =
        names.iter().enumerate().map(|(i, n)| entry((i as u64 % 5) * 100, n)).collect();
    let mut expected = view(&entries);
    expected.sort();
    expected.reverse();
    expected.truncate(10);
    let top = top_ten(entries);
    assert_eq!(top.len(), 10);
    assert_eq!(view(&top), expected);
    // the two left out are the lowest: both earned 0, and "a" < "f" < "k"
    assert!(!view(&top).contains(&(0, "a".to_string())));
    assert!(!view(&top).contains(&(0, "f".to_string())));
    assert!(view(&top).contains(&(0, "k".to_string())));
}

#[test]
fn leaderboard_start_defaults_to_last_week() {
    let s = leaderboard_start(None, 738_400).unwrap();
    assert_eq!((s.day, s.custom_date, s.show_date_warning), (738_393, false, false));
}

#[test]
fn leaderboard_start_warns_before_the_cutoff() {
    let s = leaderboard_start(Some(Some(LOG_CUTOFF_CE_DAY - 1)), 738_400).unwrap();
    assert_eq!((s.day, s.custom_date, s.show_date_warning), (LOG_CUTOFF_CE_DAY - 1, true, true));
    let s = leaderboard_start(Some(Some(LOG_CUTOFF_CE_DAY)), 738_400).unwrap();
    assert_eq!((s.day, s.custom_date, s.show_date_warning), (LOG_CUTOFF_CE_DAY, true, false));
}

#[test]
fn leaderboard_start_rejects_a_bad_date() {
    assert_eq!(leaderboard_start(Some(None), 738_400).err().unwrap(), "Wrong date format");
}

#[test]
fn resolve_leaderboard_start_parses_the_option() {
    let s = resolve_leaderboard_start(Some("2022-07-01"), 738_400).unwrap();
    assert_eq!(s.day, NaiveDate::from_ymd_opt(2022, 7, 1).unwrap().num_days_from_ce());
    assert!(s.custom_date && s.show_date_warning);
    let s = resolve_leaderboard_start(Some("2023-01-01"), 738_400).unwrap();
    assert!(s.custom_date && !s.show_date_warning);
    assert_eq!(resolve_leaderboard_start(Some("yesterday"), 738_400).err().unwrap(), "Wrong date format");
    let today = Utc::now().date_naive().num_days_from_ce();
    let s = resolve_leaderboard_start(None, today).unwrap();
    assert!(!s.custom_date && !s.show_date_warning);
    assert_eq!(s.day, today - 7);
}

#[test]
fn cutoff_is_2022_07_13() {
    assert_eq!(resolve_leaderboard_start(Some("2022-07-13"), 738_400).unwrap().day, LOG_CUTOFF_CE_DAY);
    assert_eq!(NaiveDate::from_ymd_opt(2022, 7, 13).unwrap().num_days_from_ce(), LOG_CUTOFF_CE_DAY);
}

#[test]
fn leaderboard_title_names_the_start() {
    assert_eq!(leaderboard_title(None), "XP Leaderboard for the last week.");
    assert_eq!(leaderboard_title(Some((2022, 7, 13))), "XP Leaderboard since: 2022-07-13UTC");
}

#[test]
fn leaderboard_heading_looks_up_custom_dates() {
    let custom = LeaderboardStart { day: LOG_CUTOFF_CE_DAY, custom_date: true, show_date_warning: false };
    assert_eq!(leaderboard_heading(&custom).unwrap(), "XP Leaderboard since: 2022-07-13UTC");
    let week = LeaderboardStart { day: 5, custom_date: false, show_date_warning: false };
    assert_eq!(leaderboard_heading(&week).unwrap(), "XP Leaderboard for the last week.");
    let lost = LeaderboardStart { day: i32::MAX, custom_date: true, show_date_warning: false };
    assert!(leaderboard_heading(&lost).is_none());
}

#[test]
fn leaderboard_description_lists_ranks() {
    let top = vec![entry(1_234_567, "Ann"), entry(999, "Bob")];
    assert_eq!(
        leaderboard_description(false, &top),
        "1. **Ann**: 1,234,567\n2. **Bob**: 999\n"
    );
    assert_eq!(
        leaderboard_description(true, &top[..1].iter().map(|e| entry(e.xp, &e.uuid)).collect()),
        "WARNING: Date shown is before 2022-07-13, so the total contributed XP will be shown instead.\n1. **Ann**: 1,234,567\n"
    );
    assert_eq!(leaderboard_description(false, &Vec::new()), "");
}

#[test]
fn board_lists_only_earning_members() {
    let members: Vec<GuildMember> =
        (0..12u64).map(|i| member(&format!("m{i:02}"), 1_000 * (i + 1))).collect();
    let mut logged: Vec<Option<i64>> = (0..12i64).map(|i| Some(500 * i)).collect();
    logged[3] = Some(10_000); // below its log: left out
    logged[5] = None; // no log: its whole contribution counts
    let rows = leaderboard_entries(&members, &logged);
    assert_eq!(rows.len(), 11);
    let top = top_ten(rows);
    let shown = view(&top);
    assert_eq!(shown[0], (6_500, "m11".to_string()));
    assert!(!shown.iter().any(|(_, n)| n == "m00"));
    assert!(shown.contains(&(6_000, "m05".to_string())));
    assert!(!shown.iter().any(|(_, n)| n == "m03"));
    for (xp, name) in &shown {
        let i: usize = name[1..].parse().unwrap();
        let start = logged[i].unwrap_or(0) as u64;
        assert_eq!(*xp, members[i].contributed - start);
    }
    let text = leaderboard_description(false, &top);
    assert!(text.starts_with("1. **m11**: 6,500\n2. **m10**: 6,000\n3. **m05**: 6,000\n"));
    assert_eq!(text.lines().count(), 10);
}
