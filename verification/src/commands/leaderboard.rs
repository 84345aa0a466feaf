//! The XP leaderboard: the XP each guild member earned since a start day,
//! ranked, the ten best, and the text of the embed that shows them.

use vstd::prelude::*;
use vstd::multiset::Multiset;
use vstd::string::{StrSliceExecFns, StringExecFns};
use crate::calendar::{
    calendar_date, calendar_of, gregorian_ce_day, parse_iso_date, parsed_ce_day,
    utc_date_display, utc_date_text,
};
use crate::text::{
    chars_lt, decimal_digits, decimal_text, digits_value, lemma_decimal_digits_spell, format_count, grouped_digits,
    lemma_chars_lt_irreflexive, lemma_chars_lt_total, lemma_chars_lt_transitive, text_precedes,
};
use crate::wynn::GuildMember;

verus! {

broadcast use vstd::seq_lib::group_to_multiset_ensures, vstd::multiset::group_multiset_axioms;

/// A guild member and the XP it earned since the start day.
pub struct MemberXP {
    pub xp: u64,
    /// The member's name, under which the ranking lists it.
    pub uuid: String,
}

/// `a` sorts before `b`: by XP, then by name in code-point order.
pub open spec fn xp_lt(a: MemberXP, b: MemberXP) -> bool {
    a.xp < b.xp || (a.xp == b.xp && chars_lt(a.uuid@, b.uuid@))
}

/// Best first: no entry sorts before an entry that follows it.
pub open spec fn ranked_desc(s: Seq<MemberXP>) -> bool {
    forall|i: int, j: int| 0 <= i < j < s.len() ==> !xp_lt(#[trigger] s[i], #[trigger] s[j])
}

/// The order on entries is transitive.
pub proof fn lemma_xp_lt_transitive(a: MemberXP, b: MemberXP, c: MemberXP)
    requires
        xp_lt(a, b),
        xp_lt(b, c),
    ensures
        xp_lt(a, c),
{
    if a.xp == b.xp && b.xp == c.xp {
        lemma_chars_lt_transitive(a.uuid@, b.uuid@, c.uuid@);
    }
}

/// No entry sorts before itself, and of two entries at most one sorts first.
pub proof fn lemma_xp_lt_strict(a: MemberXP, b: MemberXP)
    ensures
        !xp_lt(a, a),
        !(xp_lt(a, b) && xp_lt(b, a)),
{
    lemma_chars_lt_irreflexive(a.uuid@);
    lemma_chars_lt_total(a.uuid@, b.uuid@);
}

fn xp_less(a: &MemberXP, b: &MemberXP) -> (r: bool)
    ensures
        r == xp_lt(*a, *b),
{
    a.xp < b.xp || (a.xp == b.xp && text_precedes(a.uuid.as_str(), b.uuid.as_str()))
}

/// Sorts the entries best first, as `sort` followed by `reverse` does under
/// the derived order (XP, then name).
pub fn rank_entries(entries: Vec<MemberXP>) -> (ranked: Vec<MemberXP>)
    ensures
        ranked_desc(ranked@),
        ranked@.to_multiset() == entries@.to_multiset(),
{
    let ghost all = entries@.to_multiset();
    let mut rest = entries;
    let mut ranked: Vec<MemberXP> = Vec::new();
    while rest.len() > 0
        invariant
            ranked_desc(ranked@),
            ranked@.to_multiset().add(rest@.to_multiset()) == all,
        decreases rest.len(),
    {
        let ghost before = rest@;
        let x = rest.pop().unwrap();
        assert(before =~= rest@.push(x));
        let mut p: usize = 0;
        while p < ranked.len() && !xp_less(&ranked[p], &x)
            invariant
                p <= ranked.len(),
                forall|i: int| 0 <= i < p ==> !xp_lt(#[trigger] ranked@[i], x),
            decreases ranked.len() - p,
        {
            p = p + 1;
        }
        let ghost old_ranked = ranked@;
        ranked.insert(p, x);
        proof {
            assert forall|i: int, j: int| 0 <= i < j < ranked@.len() implies !xp_lt(
                #[trigger] ranked@[i],
                #[trigger] ranked@[j],
            ) by {
                if j < p {
                } else if j == p {
                } else if i < p {
                } else if i == p {
                    // the entry at p (if any) sorts before x, so nothing after it can follow x
                    let y = old_ranked[j - 1];
                    if xp_lt(x, y) {
                        let z = old_ranked[p as int];
                        if j - 1 > p {
                            assert(!xp_lt(old_ranked[p as int], old_ranked[j - 1]));
                        }
                        lemma_xp_lt_transitive(z, x, y);
                        lemma_xp_lt_strict(z, y);
                    }
                } else {
                    assert(ranked@[i] == old_ranked[i - 1]);
                    assert(ranked@[j] == old_ranked[j - 1]);
                }
            }
            assert(ranked@.to_multiset() == old_ranked.to_multiset().insert(x));
            assert(ranked@.to_multiset().add(rest@.to_multiset()) =~= old_ranked.to_multiset().add(
                before.to_multiset(),
            ));
        }
    }
    assert(rest@.to_multiset() =~= Multiset::empty());
    assert(ranked@.to_multiset().add(rest@.to_multiset()) =~= ranked@.to_multiset());
    ranked
}

/// Every entry that a prefix of a best-first ranking leaves out sorts before,
/// or ties with, every entry the prefix keeps; and the prefix keeps no entry
/// more often than the ranking holds it.
pub proof fn lemma_ranking_prefix_dominates(ranked: Seq<MemberXP>, n: int)
    requires
        ranked_desc(ranked),
        0 <= n <= ranked.len(),
    ensures
        ranked.take(n).to_multiset().subset_of(ranked.to_multiset()),
        forall|x: MemberXP, i: int|
            #![trigger ranked.to_multiset().count(x), ranked.take(n)[i]]
            ranked.to_multiset().count(x) > ranked.take(n).to_multiset().count(x) && 0 <= i < n
                ==> !xp_lt(ranked.take(n)[i], x),
{
    let top = ranked.take(n);
    let tail = ranked.skip(n);
    assert(ranked =~= top + tail);
    vstd::seq_lib::lemma_multiset_commutative(top, tail);
    assert forall|x: MemberXP, i: int|
        ranked.to_multiset().count(x) > top.to_multiset().count(x) && 0 <= i < n implies !xp_lt(
        top[i],
        x,
    ) by {
        assert(tail.to_multiset().count(x) > 0);
        let k = choose|k: int| 0 <= k < tail.len() && tail[k] == x;
        assert(ranked[n + k] == x);
        assert(ranked[i] == top[i]);
    }
}

/// The ten best entries, best first (`results[0..10]` of the ranking). Fewer
/// than ten entries are outside what the command handles.
pub fn top_ten(entries: Vec<MemberXP>) -> (top: Vec<MemberXP>)
    requires
        entries.len() >= 10,
    ensures
        top@.len() == 10,
        ranked_desc(top@),
        top@.to_multiset().subset_of(entries@.to_multiset()),
        forall|x: MemberXP, i: int|
            #![trigger entries@.to_multiset().count(x), top@[i]]
            entries@.to_multiset().count(x) > top@.to_multiset().count(x) && 0 <= i < 10
                ==> !xp_lt(top@[i], x),
{
    let ghost all = entries@;
    let mut ranked = rank_entries(entries);
    let ghost full = ranked@;
    proof {
        vstd::seq_lib::to_multiset_len(all);
        vstd::seq_lib::to_multiset_len(full);
        lemma_ranking_prefix_dominates(full, 10);
    }
    ranked.truncate(10);
    assert(ranked@ =~= full.take(10));
    ranked
}

/// The XP a member earned since the start day: what it contributed in all,
/// less what it had contributed by then (0 when no log was found), the start
/// taken as unsigned; none when the subtraction would go below zero.
pub open spec fn xp_gain(contributed: u64, logged: Option<i64>) -> Option<u64> {
    let start: i64 = match logged {
        Some(x) => x,
        None => 0,
    };
    let start_unsigned = start as u64;
    if start_unsigned <= contributed {
        Some((contributed - start_unsigned) as u64)
    } else {
        None
    }
}

/// The leaderboard rows for the members, in guild order: one row per member
/// whose gain does not go below zero.
pub open spec fn leaderboard_rows(members: Seq<GuildMember>, logged: Seq<Option<i64>>) -> Seq<
    MemberXP,
>
    decreases members.len(),
{
    if members.len() == 0 {
        Seq::empty()
    } else {
        let k = members.len() - 1;
        let before = leaderboard_rows(members.take(k), logged.take(k));
        match xp_gain(members[k].contributed, logged[k]) {
            Some(g) => before.push(MemberXP { xp: g, uuid: members[k].name }),
            None => before,
        }
    }
}

/// The gain is the plain difference: without a log the whole contribution,
/// with a log that does not exceed the contribution the exact `u64`
/// difference, and none with a larger log.
pub proof fn lemma_gain_is_exact_subtraction(contributed: u64)
    ensures
        xp_gain(contributed, None) == Some(contributed),
        forall|x: i64|
            0 <= x <= contributed ==> #[trigger] xp_gain(contributed, Some(x)) == Some(
                (contributed - x) as u64,
            ),
        forall|x: i64| x > contributed ==> #[trigger] xp_gain(contributed, Some(x)) is None,
{
    assert forall|x: i64| 0 <= x implies #[trigger] xp_gain(contributed, Some(x)) == (if x <= contributed {
        Some((contributed - x) as u64)
    } else {
        None::<u64>
    }) by {}
}

/// Each line of the ranking begins with the rank written in full decimal
/// digits, followed by a period.
pub proof fn lemma_ranking_line_begins_with_rank(rank: nat, e: MemberXP)
    ensures
        ranking_line(rank, e).take(decimal_digits(rank).len() as int) == decimal_digits(rank),
        ranking_line(rank, e)[decimal_digits(rank).len() as int] == '.',
        digits_value(decimal_digits(rank)) == rank,
{
    reveal_strlit(". **");
    lemma_decimal_digits_spell(rank);
    let d = decimal_digits(rank);
    let line = ranking_line(rank, e);
    assert(line =~= d + (". **"@ + e.uuid@ + "**: "@ + grouped_digits(e.xp as nat) + "\n"@));
    assert(line.take(d.len() as int) =~= d);
    assert(line[d.len() as int] == ". **"@[0]);
}

/// The entry at position `k` of a ranking is written as line number `k + 1`.
pub proof fn lemma_ranking_lines_numbered(s: Seq<MemberXP>, e: MemberXP)
    ensures
        ranking_lines(s.push(e)) == ranking_lines(s) + ranking_line(s.len() + 1, e),
{
    assert(s.push(e).drop_last() =~= s);
}

/// `x` is the row of some member: its name, and what that member earned.
pub open spec fn row_of_member(x: MemberXP, members: Seq<GuildMember>, logged: Seq<Option<i64>>) -> bool {
    exists|k: int|
        #![trigger members[k]]
        0 <= k < members.len() && xp_gain(members[k].contributed, logged[k]) == Some(x.xp) && x.uuid
            == members[k].name
}

/// The rows are exactly the members whose gain does not go below zero: each
/// row belongs to a member, and each such member has its row.
pub proof fn lemma_rows_are_the_earning_members(members: Seq<GuildMember>, logged: Seq<Option<i64>>)
    requires
        members.len() == logged.len(),
    ensures
        forall|i: int|
            0 <= i < leaderboard_rows(members, logged).len() ==> row_of_member(
                #[trigger] leaderboard_rows(members, logged)[i],
                members,
                logged,
            ),
        forall|k: int|
            0 <= k < members.len() && (#[trigger] xp_gain(members[k].contributed, logged[k])) is Some
                ==> leaderboard_rows(members, logged).contains(
                MemberXP { xp: xp_gain(members[k].contributed, logged[k])->0, uuid: members[k].name },
            ),
    decreases members.len(),
{
    if members.len() > 0 {
        let n = members.len() - 1;
        let ms = members.take(n);
        let ls = logged.take(n);
        lemma_rows_are_the_earning_members(ms, ls);
        let before = leaderboard_rows(ms, ls);
        let rows = leaderboard_rows(members, logged);
        assert forall|i: int| 0 <= i < rows.len() implies row_of_member(
            #[trigger] rows[i],
            members,
            logged,
        ) by {
            if i < before.len() {
                assert(rows[i] == before[i]);
                assert(row_of_member(before[i], ms, ls));
                let k = choose|k: int|
                    #![trigger ms[k]]
                    0 <= k < ms.len() && xp_gain(ms[k].contributed, ls[k]) == Some(before[i].xp)
                        && before[i].uuid == ms[k].name;
                assert(members[k] == ms[k]);
            } else {
                assert(members[n] == members[n]);
            }
        }
        assert forall|k: int|
            0 <= k < members.len() && (#[trigger] xp_gain(members[k].contributed, logged[k])) is Some
                implies rows.contains(
            MemberXP { xp: xp_gain(members[k].contributed, logged[k])->0, uuid: members[k].name },
        ) by {
            let x = MemberXP { xp: xp_gain(members[k].contributed, logged[k])->0, uuid: members[k].name };
            if k < n {
                assert(ms[k] == members[k]);
                assert(ls[k] == logged[k]);
                assert(xp_gain(ms[k].contributed, ls[k]) is Some);
                let j = choose|j: int| 0 <= j < before.len() && before[j] == x;
                assert(rows[j] == x);
            } else {
                assert(rows[rows.len() - 1] == x);
            }
        }
    }
}

/// Every entry on the board belongs to a guild member and shows what that
/// member earned: what the board keeps of the rows holds nothing else.
pub proof fn lemma_board_lists_only_members(
    board: Seq<MemberXP>,
    members: Seq<GuildMember>,
    logged: Seq<Option<i64>>,
)
    requires
        members.len() == logged.len(),
        board.to_multiset().subset_of(leaderboard_rows(members, logged).to_multiset()),
    ensures
        forall|i: int| 0 <= i < board.len() ==> row_of_member(#[trigger] board[i], members, logged),
{
    let rows = leaderboard_rows(members, logged);
    lemma_rows_are_the_earning_members(members, logged);
    assert forall|i: int| 0 <= i < board.len() implies row_of_member(
        #[trigger] board[i],
        members,
        logged,
    ) by {
        assert(board.to_multiset().count(board[i]) > 0);
        assert(rows.to_multiset().count(board[i]) > 0);
        let j = choose|j: int| 0 <= j < rows.len() && rows[j] == board[i];
        assert(row_of_member(rows[j], members, logged));
    }
}

/// The XP one member earned since the start day.
pub fn member_gain(contributed: u64, logged: Option<i64>) -> (r: Option<u64>)
    ensures
        r == xp_gain(contributed, logged),
        match logged {
            None => r == Some(contributed),
            Some(x) => {
                &&& 0 <= x <= contributed ==> r == Some((contributed - x) as u64)
                &&& x > contributed ==> r is None
            },
        },
{
    proof {
        lemma_gain_is_exact_subtraction(contributed);
    }
    let start: i64 = match logged {
        Some(x) => x,
        None => 0,
    };
    let start_unsigned = start as u64;
    if start_unsigned <= contributed {
        Some(contributed - start_unsigned)
    } else {
        None
    }
}

/// The leaderboard rows: `logged[i]` is the XP that member `i` had contributed
/// by the start day, or none when no log of that day was found.
pub fn leaderboard_entries(members: &Vec<GuildMember>, logged: &Vec<Option<i64>>) -> (rows: Vec<
    MemberXP,
>)
    requires
        members.len() == logged.len(),
    ensures
        rows@ == leaderboard_rows(members@, logged@),
{
    let mut rows: Vec<MemberXP> = Vec::new();
    let mut i: usize = 0;
    while i < members.len()
        invariant
            i <= members.len(),
            members.len() == logged.len(),
            rows@ == leaderboard_rows(members@.take(i as int), logged@.take(i as int)),
        decreases members.len() - i,
    {
        let member = &members[i];
        let g = member_gain(member.contributed, logged[i]);
        assert(members@.take(i + 1).take(i as int) =~= members@.take(i as int));
        assert(logged@.take(i + 1).take(i as int) =~= logged@.take(i as int));
        match g {
            Some(xp) => {
                rows.push(MemberXP { xp, uuid: member.name.clone() });
            },
            None => {},
        }
        i = i + 1;
    }
    assert(members@.take(members.len() as int) =~= members@);
    assert(logged@.take(logged.len() as int) =~= logged@);
    rows
}

/// 2022-07-13 (day number 738349), the first day with contribution logs;
/// earlier start days show each member's whole contribution.
pub const LOG_CUTOFF_CE_DAY: i32 = 738_349;

/// The cutoff constant is 2022-07-13.
pub proof fn lemma_log_cutoff_is_2022_07_13()
    ensures
        LOG_CUTOFF_CE_DAY == gregorian_ce_day(2022, 7, 13),
{
}

/// Where a leaderboard starts.
pub struct LeaderboardStart {
    /// The start day, as a day number.
    pub day: i32,
    /// Whether the user asked for the start day.
    pub custom_date: bool,
    /// Whether the start day comes before the contribution logs do.
    pub show_date_warning: bool,
}

/// The message for a start date that does not parse.
pub open spec fn wrong_date_format() -> Seq<char> {
    "Wrong date format"@
}

/// The start of a leaderboard. `requested` is none when the user gave no
/// date, and otherwise the parsed day, none when the date did not parse;
/// without a date the board covers the last seven days.
pub fn leaderboard_start(requested: Option<Option<i32>>, today: i32) -> (r: Result<
    LeaderboardStart,
    String,
>)
    requires
        today >= i32::MIN + 7,
    ensures
        match requested {
            None => r matches Ok(s) && s.day == today - 7 && !s.custom_date && !s.show_date_warning,
            Some(None) => r matches Err(e) && e@ == wrong_date_format(),
            Some(Some(d)) => r matches Ok(s) && s.day == d && s.custom_date && s.show_date_warning
                == (d < LOG_CUTOFF_CE_DAY),
        },
{
    match requested {
        None => Ok(LeaderboardStart { day: today - 7, custom_date: false, show_date_warning: false }),
        Some(None) => Err(String::from_str("Wrong date format")),
        Some(Some(d)) => Ok(
            LeaderboardStart { day: d, custom_date: true, show_date_warning: LOG_CUTOFF_CE_DAY > d },
        ),
    }
}

/// The start of a leaderboard from the date the user gave, if any, read as
/// `%Y-%m-%d`; without one, seven days before day `today`. A date that parses
/// is one that chrono can show again.
pub fn resolve_leaderboard_start(requested: Option<&str>, today: i32) -> (r: Result<
    LeaderboardStart,
    String,
>)
    requires
        today >= i32::MIN + 7,
    ensures
        match requested {
            None => r matches Ok(s) && s.day == today - 7 && !s.custom_date && !s.show_date_warning,
            Some(text) => match parsed_ce_day(text@) {
                None => r matches Err(e) && e@ == wrong_date_format(),
                Some(d) => r matches Ok(s) && s.day == d && s.custom_date && s.show_date_warning == (
                d < LOG_CUTOFF_CE_DAY) && calendar_of(d) is Some,
            },
        },
{
    match requested {
        None => leaderboard_start(None, today),
        Some(text) => leaderboard_start(Some(parse_iso_date(text)), today),
    }
}

/// The title of the leaderboard embed, for a start date the user gave
/// (year, month, day) or for the default week.
pub open spec fn title_text(date: Option<(int, int, int)>) -> Seq<char> {
    match date {
        None => "XP Leaderboard for the last week."@,
        Some(t) => "XP Leaderboard since: "@ + utc_date_text(t.0, t.1 as nat, t.2 as nat),
    }
}

/// The title of the leaderboard embed.
pub fn leaderboard_title(date: Option<(i32, u32, u32)>) -> (s: String)
    ensures
        s@ == title_text(
            match date {
                None => None,
                Some(t) => Some((t.0 as int, t.1 as int, t.2 as int)),
            },
        ),
{
    match date {
        None => String::from_str("XP Leaderboard for the last week."),
        Some(t) => {
            let mut s = String::from_str("XP Leaderboard since: ");
            s.append(utc_date_display(t.0, t.1, t.2).as_str());
            s
        },
    }
}

/// The title for a leaderboard start: the given date is looked up in the
/// calendar; none only when chrono has no date for its day number.
pub fn leaderboard_heading(start: &LeaderboardStart) -> (r: Option<String>)
    ensures
        !start.custom_date ==> (r matches Some(t) && t@ == title_text(None)),
        start.custom_date ==> match calendar_of(start.day as int) {
            None => r is None,
            Some(t) => (r matches Some(s) && s@ == title_text(Some(t))),
        },
{
    if start.custom_date {
        match calendar_date(start.day) {
            None => None,
            Some(t) => Some(leaderboard_title(Some(t))),
        }
    } else {
        Some(leaderboard_title(None))
    }
}

/// The line above the ranking when the start day predates the logs.
pub open spec fn date_warning() -> Seq<char> {
    "WARNING: Date shown is before 2022-07-13, so the total contributed XP will be shown instead.\n"@
}

/// One line of the ranking: `{rank}. **{name}**: {xp}` with the XP grouped
/// in thousands.
pub open spec fn ranking_line(rank: nat, e: MemberXP) -> Seq<char> {
    decimal_digits(rank) + ". **"@ + e.uuid@ + "**: "@ + grouped_digits(e.xp as nat) + "\n"@
}

/// The lines of a ranking, numbered from 1.
pub open spec fn ranking_lines(s: Seq<MemberXP>) -> Seq<char>
    decreases s.len(),
{
    if s.len() == 0 {
        Seq::empty()
    } else {
        ranking_lines(s.drop_last()) + ranking_line(s.len() as nat, s.last())
    }
}

/// The description of the leaderboard embed: the warning, if due, then one
/// line per entry.
pub fn leaderboard_description(show_date_warning: bool, top: &Vec<MemberXP>) -> (s: String)
    ensures
        s@ == (if show_date_warning {
            date_warning()
        } else {
            Seq::empty()
        }) + ranking_lines(top@),
{
    let mut description = String::new();
    if show_date_warning {
        description = String::from_str(
            "WARNING: Date shown is before 2022-07-13, so the total contributed XP will be shown instead.\n",
        );
    }
    let ghost head = description@;
    let mut i: usize = 0;
    assert(top@.take(0) =~= Seq::<MemberXP>::empty());
    while i < top.len()
        invariant
            i <= top.len(),
            description@ == head + ranking_lines(top@.take(i as int)),
        decreases top.len() - i,
    {
        let entry = &top[i];
        let rank = decimal_text((i as u64) + 1);
        let xp = format_count(entry.xp);
        description.append(rank.as_str());
        description.append(". **");
        description.append(entry.uuid.as_str());
        description.append("**: ");
        description.append(xp.as_str());
        description.append("\n");
        assert(top@.take(i + 1).drop_last() =~= top@.take(i as int));
        i = i + 1;
    }
    assert(top@.take(top.len() as int) =~= top@);
    description
}

} // verus!
