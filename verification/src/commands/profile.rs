//! The profile of a guild member: who is asked for, the member's dungeon
//! record and the values of the embed that shows them.

use vstd::prelude::*;
use vstd::string::{StrSliceExecFns, StringExecFns};
use crate::text::{
    capitalized, decimal_digits, decimal_text, signed_decimal_digits, format_count, format_signed_count, grouped_digits,
    grouped_signed, lowercase_of, lowercase_text, remove_all, some_kind_of_uppercase_first_letter,
    lemma_without_absent_char, lemma_without_char_concat, starts_with_chars, text_starts_with,
    without_pattern,
};
use crate::wynn::{Dungeon, GuildMember, Player, PlayerClass, home_guild_name};

verus! {

/// The name the user asked for: the option's JSON text with every `"` taken out.
pub fn profilee_name(option_json: &str) -> (name: String)
    ensures
        name@ == without_pattern(option_json@, seq!['"']),
{
    let mut quote = String::new();
    crate::text::push_char(&mut quote, '"');
    assert(quote@ =~= seq!['"']);
    remove_all(option_json, quote.as_str())
}

/// The JSON text that `serde_json` writes for a string value.
pub uninterp spec fn json_string_text(s: Seq<char>) -> Seq<char>;

/// `c` is one of the characters that JSON writes escaped: the quote, the
/// backslash and the control characters below U+0020.
pub open spec fn json_escaped(c: char) -> bool {
    c == '"' || c == (92u8 as char) || (c as int) < 32
}

/// `Display for serde_json::Value` on a string value. Claims that the result
/// is the named JSON text of `s`, and, as the serializer's escape table shows
/// (`ser.rs`, `ESCAPE`: only the quote, the backslash and bytes below 0x20
/// are escaped; `begin_string` and `end_string` write quotes), that a string without such
/// characters is written between two quotes and otherwise unchanged.
#[verifier::external_body]
pub(crate) fn json_string(s: &str) -> (r: String)
    ensures
        r@ == json_string_text(s@),
        (forall|i: int| 0 <= i < s@.len() ==> !json_escaped(#[trigger] s@[i])) ==> r@ == seq!['"']
            + s@ + seq!['"'],
{
    serde_json::Value::String(s.to_string()).to_string()
}

/// The name the user asked for, from the string the profile option holds:
/// its JSON text with every `"` taken out.
pub fn profilee_from_option(value: &str) -> (name: String)
    ensures
        name@ == without_pattern(json_string_text(value@), seq!['"']),
        (forall|i: int| 0 <= i < value@.len() ==> !json_escaped(#[trigger] value@[i])) ==> name@
            == value@,
{
    let text = json_string(value);
    proof {
        if forall|i: int| 0 <= i < value@.len() ==> !json_escaped(#[trigger] value@[i]) {
            lemma_plain_names_pass_through(value@);
        }
    }
    profilee_name(text.as_str())
}

/// The kind of option value the profile reads: a string, the one that
/// `profilee_from_option` takes.
pub open spec fn profile_option_kind() -> crate::handler::OptionKind {
    crate::handler::OptionKind::Text
}

/// A name without quotes, backslashes or control characters is looked up
/// exactly as the user typed it.
pub proof fn lemma_plain_names_pass_through(value: Seq<char>)
    requires
        forall|i: int| 0 <= i < value.len() ==> !json_escaped(#[trigger] value[i]),
        json_string_text(value) == seq!['"'] + value + seq!['"'],
    ensures
        without_pattern(json_string_text(value), seq!['"']) == value,
{
    let q = seq!['"'];
    lemma_without_char_concat(q + value, q, '"');
    lemma_without_char_concat(q, value, '"');
    lemma_without_absent_char(value, '"');
    assert(q.take(1) =~= q);
    assert(q.skip(1) =~= Seq::<char>::empty());
    assert(without_pattern(q.skip(1), q) == Seq::<char>::empty());
    assert(without_pattern(q, q) =~= Seq::<char>::empty());
    assert(Seq::<char>::empty() + value + Seq::<char>::empty() =~= value);
}

/// Whether a member's name matches the name asked for, ignoring case.
pub open spec fn name_matches(member: GuildMember, asked: Seq<char>) -> bool {
    lowercase_of(member.name@) == lowercase_of(asked)
}

/// The first member whose name matches, ignoring case (`Iterator::find`).
pub fn find_member(members: &Vec<GuildMember>, asked: &str) -> (r: Option<usize>)
    ensures
        match r {
            Some(i) => {
                &&& i < members.len()
                &&& name_matches(members@[i as int], asked@)
                &&& forall|j: int| 0 <= j < i ==> !name_matches(#[trigger] members@[j], asked@)
            },
            None => forall|j: int|
                0 <= j < members.len() ==> !name_matches(#[trigger] members@[j], asked@),
        },
{
    let wanted = lowercase_text(asked);
    let mut i: usize = 0;
    while i < members.len()
        invariant
            i <= members.len(),
            wanted@ == lowercase_of(asked@),
            forall|j: int| 0 <= j < i ==> !name_matches(#[trigger] members@[j], asked@),
        decreases members.len() - i,
    {
        let candidate = lowercase_text(members[i].name.as_str());
        if candidate == wanted {
            return Some(i);
        }
        i = i + 1;
    }
    None
}

/// The answer when nobody in the guild has the name asked for.
pub open spec fn not_in_guild_message() -> Seq<char> {
    "This user is not in "@ + home_guild_name()
}

/// The member asked for, or the message for a name nobody in the guild has.
pub fn member_or_error(members: &Vec<GuildMember>, asked: &str) -> (r: Result<usize, String>)
    ensures
        match r {
            Ok(i) => i < members.len() && name_matches(members@[i as int], asked@) && forall|j: int|
                0 <= j < i ==> !name_matches(#[trigger] members@[j], asked@),
            Err(e) => e@ == not_in_guild_message() && forall|j: int|
                0 <= j < members.len() ==> !name_matches(#[trigger] members@[j], asked@),
        },
{
    match find_member(members, asked) {
        Some(i) => Ok(i),
        None => {
            let mut e = String::from_str("This user is not in ");
            e.append(crate::wynn::home_guild().as_str());
            Err(e)
        },
    }
}

/// The answer when the player's statistics cannot be found.
pub open spec fn unknown_user_message() -> Seq<char> {
    "User does not exist."@
}

/// The message for a player whose statistics cannot be found.
pub fn unknown_user() -> (s: String)
    ensures
        s@ == unknown_user_message(),
{
    String::from_str("User does not exist.")
}

/// Whether a dungeon counts as corrupted: its name begins with `Corrupted`.
pub open spec fn is_corrupted(name: Seq<char>) -> bool {
    starts_with_chars(name, "Corrupted"@)
}

/// Completions of corrupted dungeons in one class's record.
pub open spec fn corrupted_in(ds: Seq<Dungeon>) -> int
    decreases ds.len(),
{
    if ds.len() == 0 {
        0
    } else {
        corrupted_in(ds.drop_last()) + if is_corrupted(ds.last().name@) {
            ds.last().completed as int
        } else {
            0
        }
    }
}

/// Completions of corrupted dungeons over all classes.
pub open spec fn corrupted_total(cs: Seq<PlayerClass>) -> int
    decreases cs.len(),
{
    if cs.len() == 0 {
        0
    } else {
        corrupted_total(cs.drop_last()) + corrupted_in(cs.last().dungeons@)
    }
}

/// A dungeon counts its completions exactly when its name begins with
/// `Corrupted`.
pub proof fn lemma_corrupted_in_single(d: Dungeon)
    ensures
        corrupted_in(seq![d]) == if starts_with_chars(d.name@, "Corrupted"@) {
            d.completed as int
        } else {
            0
        },
{
    assert(seq![d].drop_last() =~= Seq::<Dungeon>::empty());
    assert(seq![d].last() == d);
    assert(corrupted_in(Seq::<Dungeon>::empty()) == 0);
}

/// The count over two records is the sum of their counts: every corrupted
/// completion counts, each once.
pub proof fn lemma_corrupted_in_additive(a: Seq<Dungeon>, b: Seq<Dungeon>)
    ensures
        corrupted_in(a + b) == corrupted_in(a) + corrupted_in(b),
    decreases b.len(),
{
    if b.len() == 0 {
        assert(a + b =~= a);
    } else {
        lemma_corrupted_in_additive(a, b.drop_last());
        assert((a + b).drop_last() =~= a + b.drop_last());
        assert((a + b).last() == b.last());
    }
}

/// The total over two lists of classes is the sum of their totals.
pub proof fn lemma_corrupted_total_additive(a: Seq<PlayerClass>, b: Seq<PlayerClass>)
    ensures
        corrupted_total(a + b) == corrupted_total(a) + corrupted_total(b),
    decreases b.len(),
{
    if b.len() == 0 {
        assert(a + b =~= a);
    } else {
        lemma_corrupted_total_additive(a, b.drop_last());
        assert((a + b).drop_last() =~= a + b.drop_last());
        assert((a + b).last() == b.last());
    }
}

/// A record's count does not shrink as the record grows.
pub proof fn lemma_corrupted_in_prefix(ds: Seq<Dungeon>, k: int)
    requires
        0 <= k <= ds.len(),
    ensures
        0 <= corrupted_in(ds.take(k)) <= corrupted_in(ds),
    decreases ds.len() - k,
{
    if k < ds.len() {
        lemma_corrupted_in_prefix(ds, k + 1);
        assert(ds.take(k + 1).drop_last() =~= ds.take(k));
    } else {
        assert(ds.take(k) =~= ds);
    }
    lemma_corrupted_in_nonnegative(ds.take(k));
}

/// A record's count is never negative.
pub proof fn lemma_corrupted_in_nonnegative(ds: Seq<Dungeon>)
    ensures
        0 <= corrupted_in(ds),
    decreases ds.len(),
{
    if ds.len() > 0 {
        lemma_corrupted_in_nonnegative(ds.drop_last());
    }
}

/// The total does not shrink as classes are added.
pub proof fn lemma_corrupted_total_prefix(cs: Seq<PlayerClass>, k: int)
    requires
        0 <= k <= cs.len(),
    ensures
        corrupted_total(cs.take(k)) <= corrupted_total(cs),
    decreases cs.len() - k,
{
    if k < cs.len() {
        lemma_corrupted_total_prefix(cs, k + 1);
        assert(cs.take(k + 1).drop_last() =~= cs.take(k));
        lemma_corrupted_in_nonnegative(cs[k].dungeons@);
    } else {
        assert(cs.take(k) =~= cs);
    }
}

/// How often the player completed a corrupted dungeon, over all classes;
/// none when the count does not fit in `u64`.
pub fn checked_corrupted_completions(player: &Player) -> (r: Option<u64>)
    ensures
        match r {
            Some(t) => t == corrupted_total(player.classes@),
            None => corrupted_total(player.classes@) > u64::MAX,
        },
{
    let classes = &player.classes;
    let mut total: u64 = 0;
    let mut i: usize = 0;
    while i < classes.len()
        invariant
            i <= classes.len(),
            classes@ == player.classes@,
            total == corrupted_total(classes@.take(i as int)),
        decreases classes.len() - i,
    {
        let dungeons = &classes[i].dungeons;
        let ghost base = total as int;
        proof {
            lemma_corrupted_total_prefix(classes@, i + 1);
            assert(classes@.take(i + 1).drop_last() =~= classes@.take(i as int));
        }
        let mut j: usize = 0;
        while j < dungeons.len()
            invariant
                j <= dungeons.len(),
                classes@ == player.classes@,
                base + corrupted_in(dungeons@) <= corrupted_total(classes@),
                total == base + corrupted_in(dungeons@.take(j as int)),
            decreases dungeons.len() - j,
        {
            let dungeon = &dungeons[j];
            proof {
                lemma_corrupted_in_prefix(dungeons@, j + 1);
                assert(dungeons@.take(j + 1).drop_last() =~= dungeons@.take(j as int));
            }
            if text_starts_with(dungeon.name.as_str(), "Corrupted") {
                assert(dungeons@.take(j + 1).last() == *dungeon);
                assert(corrupted_in(dungeons@.take(j + 1)) == corrupted_in(dungeons@.take(j as int))
                    + dungeon.completed);
                match total.checked_add(dungeon.completed) {
                    Some(t) => total = t,
                    None => {
                        return None;
                    },
                }
            }
            j = j + 1;
        }
        assert(dungeons@.take(dungeons.len() as int) =~= dungeons@);
        i = i + 1;
    }
    assert(classes@.take(classes.len() as int) =~= classes@);
    Some(total)
}

/// How often the player completed a corrupted dungeon, over all classes.
pub fn corrupted_completions(player: &Player) -> (total: u64)
    requires
        corrupted_total(player.classes@) <= u64::MAX,
    ensures
        total == corrupted_total(player.classes@),
{
    checked_corrupted_completions(player).unwrap()
}

/// Whether the XP a member earned since a logged day fits the signed
/// subtraction that computes it (the contribution read as `i64`).
pub open spec fn delta_fits(contributed: u64, logged: Option<i64>) -> bool {
    match logged {
        Some(x) => i64::MIN <= (contributed as i64) - x <= i64::MAX,
        None => true,
    }
}

/// Whether the XP earned since a logged day fits its signed subtraction.
pub fn delta_in_range(contributed: u64, logged: Option<i64>) -> (r: bool)
    ensures
        r == delta_fits(contributed, logged),
{
    match logged {
        Some(x) => {
            let d: i128 = (contributed as i64) as i128 - x as i128;
            -9_223_372_036_854_775_808i128 <= d && d <= 9_223_372_036_854_775_807i128
        },
        None => true,
    }
}

/// The XP earned since a logged day, grouped in thousands, or `N/A` when
/// the day has no log.
pub open spec fn xp_delta_chars(contributed: u64, logged: Option<i64>) -> Seq<char> {
    match logged {
        Some(x) => grouped_signed((contributed as i64) - x),
        None => "N/A"@,
    }
}

/// The text of a grouped number holds no letter `N`.
proof fn lemma_grouped_has_no_n(n: nat)
    ensures
        crate::text::free_of(grouped_digits(n), 'N'),
    decreases n,
{
    assert forall|d: nat| d < 10 implies #[trigger] crate::text::digit_char(d) != 'N' by {}
    crate::text::lemma_decimal_digits_free(n, 'N');
    if n >= 1000 {
        lemma_grouped_has_no_n(n / 1000);
        assert(crate::text::digit_char((n % 1000) / 100) != 'N');
        assert(crate::text::digit_char(((n % 1000) / 10) % 10) != 'N');
        assert(crate::text::digit_char((n % 1000) % 10) != 'N');
    }
}

/// `N/A` is shown exactly when the day has no log; for a logged day the text
/// is the signed difference, which, without its separators, is the plain
/// decimal notation of contribution minus log.
pub proof fn lemma_xp_delta_is_the_difference(contributed: u64, logged: Option<i64>)
    requires
        delta_fits(contributed, logged),
    ensures
        (xp_delta_chars(contributed, logged) == "N/A"@) <==> logged is None,
        logged matches Some(x) ==> without_pattern(xp_delta_chars(contributed, logged), seq![','])
            == signed_decimal_digits((contributed as i64) - x),
{
    reveal_strlit("N/A");
    if let Some(x) = logged {
        let d = (contributed as i64) - x;
        let text = xp_delta_chars(contributed, logged);
        if d < 0 {
            lemma_grouped_has_no_n((-d) as nat);
            assert(text[0] == '-');
            lemma_without_char_concat(seq!['-'], grouped_digits((-d) as nat), ',');
            lemma_without_absent_char(seq!['-'], ',');
            crate::text::lemma_grouping_only_adds_separators((-d) as nat);
        } else {
            lemma_grouped_has_no_n(d as nat);
            crate::text::lemma_grouping_only_adds_separators(d as nat);
            if text == "N/A"@ {
                assert(text[0] == 'N');
                assert(grouped_digits(d as nat)[0] != 'N');
            }
        }
        if text == "N/A"@ {
            assert(text[0] == 'N');
        }
    }
}

/// The XP earned since a logged day, as the profile shows it.
pub fn xp_delta_text(contributed: u64, logged: Option<i64>) -> (s: String)
    requires
        delta_fits(contributed, logged),
    ensures
        s@ == xp_delta_chars(contributed, logged),
{
    match logged {
        Some(x) => format_signed_count((contributed as i64) - x),
        None => String::from_str("N/A"),
    }
}

/// The values that the profile embed shows.
pub struct ProfileCard {
    pub title: String,
    pub image: String,
    pub rank: String,
    pub join_date: String,
    pub corrupted_completes: String,
    pub contributed_xp: String,
    pub xp_last_24h: String,
    pub xp_last_7d: String,
}

/// The profile embed of `member`, asked for as `profilee`, with the player's
/// statistics and the XP it had contributed one and seven days ago (none
/// when that day has no log).
pub fn profile_card(
    profilee: &str,
    member: &GuildMember,
    player: &Player,
    log_24h: Option<i64>,
    log_7d: Option<i64>,
) -> (card: ProfileCard)
    requires
        corrupted_total(player.classes@) <= u64::MAX,
        delta_fits(member.contributed, log_24h),
        delta_fits(member.contributed, log_7d),
    ensures
        card.title@ == "Profile of Guild Member: "@ + profilee@,
        card.image@ == "https://visage.surgeplay.com/bust/"@ + member.uuid@,
        card.rank@ == capitalized(lowercase_of(member.rank@)),
        card.join_date@ == member.joined_friendly@,
        card.corrupted_completes@ == decimal_digits(corrupted_total(player.classes@) as nat),
        card.contributed_xp@ == grouped_digits(member.contributed as nat),
        card.xp_last_24h@ == xp_delta_chars(member.contributed, log_24h),
        card.xp_last_7d@ == xp_delta_chars(member.contributed, log_7d),
{
    let mut title = String::from_str("Profile of Guild Member: ");
    title.append(profilee);
    let mut image = String::from_str("https://visage.surgeplay.com/bust/");
    image.append(member.uuid.as_str());
    let lowered = lowercase_text(member.rank.as_str());
    let rank = some_kind_of_uppercase_first_letter(lowered.as_str());
    let completes = corrupted_completions(player);
    ProfileCard {
        title,
        image,
        rank,
        join_date: member.joined_friendly.clone(),
        corrupted_completes: decimal_text(completes),
        contributed_xp: format_count(member.contributed),
        xp_last_24h: xp_delta_text(member.contributed, log_24h),
        xp_last_7d: xp_delta_text(member.contributed, log_7d),
    }
}

} // verus!
