//! Text helpers: decimal and grouped number rendering, pattern removal,
//! case mapping and code-point ordering of strings.

use num_format::{Locale, ToFormattedString};
use vstd::prelude::*;
use vstd::string::{StrSliceExecFns, StringExecFns};

verus! {

/// The character of a decimal digit.
pub open spec fn digit_char(d: nat) -> char
    recommends
        d < 10,
{
    (d + 48) as char
}

/// Plain decimal digits of a natural number, most significant first.
pub open spec fn decimal_digits(n: nat) -> Seq<char>
    decreases n,
{
    if n < 10 {
        seq![digit_char(n)]
    } else {
        decimal_digits(n / 10).push(digit_char(n % 10))
    }
}

/// `String::push`. Claims what std documents: the character is appended at
/// the end and nothing else changes.
#[verifier::external_body]
pub(crate) fn push_char(s: &mut String, c: char)
    ensures
        final(s)@ == old(s)@.push(c),
{
    s.push(c);
}

fn digit(d: u64) -> (c: char)
    requires
        d < 10,
    ensures
        c == digit_char(d as nat),
{
    let b: u8 = (d as u8) + 48;
    b as char
}

/// Renders `n` in decimal, as `Display` does for unsigned integers.
pub fn decimal_text(n: u64) -> (s: String)
    ensures
        s@ == decimal_digits(n as nat),
    decreases n,
{
    if n < 10 {
        let mut s = String::new();
        push_char(&mut s, digit(n));
        s
    } else {
        let mut s = decimal_text(n / 10);
        push_char(&mut s, digit(n % 10));
        s
    }
}

/// Decimal digits of a signed number: a leading `-` for negative values.
pub open spec fn signed_decimal_digits(n: int) -> Seq<char> {
    if n < 0 {
        seq!['-'] + decimal_digits((-n) as nat)
    } else {
        decimal_digits(n as nat)
    }
}

/// Renders `n` in decimal, as `Display` does for signed integers.
pub fn signed_decimal_text(n: i64) -> (s: String)
    ensures
        s@ == signed_decimal_digits(n as int),
{
    if n < 0 {
        let magnitude: u64 = ((-(n + 1)) as u64) + 1;
        let digits = decimal_text(magnitude);
        let mut s = String::new();
        push_char(&mut s, '-');
        s.append(digits.as_str());
        s
    } else {
        decimal_text(n as u64)
    }
}

/// The three digits of a group below 1000, zero padded.
pub open spec fn three_digits(r: nat) -> Seq<char> {
    seq![digit_char(r / 100), digit_char((r / 10) % 10), digit_char(r % 10)]
}

/// Decimal digits with a `,` between groups of three, counted from the right.
pub open spec fn grouped_digits(n: nat) -> Seq<char>
    decreases n,
{
    if n < 1000 {
        decimal_digits(n)
    } else {
        grouped_digits(n / 1000) + seq![','] + three_digits(n % 1000)
    }
}

/// Grouped digits of a signed number: a leading `-` for negative values.
pub open spec fn grouped_signed(n: int) -> Seq<char> {
    if n < 0 {
        seq!['-'] + grouped_digits((-n) as nat)
    } else {
        grouped_digits(n as nat)
    }
}

/// `num_format::ToFormattedString::to_formatted_string` with `Locale::en`.
/// The crate's English locale uses the separator `,`, standard grouping by
/// three digits and the minus sign `-` (its `locale.rs`; its documentation
/// shows `1000000` rendered as `1,000,000`); this contract claims exactly that.
#[verifier::external_body]
fn grouped_en(n: i128) -> (s: String)
    ensures
        s@ == grouped_signed(n as int),
{
    n.to_formatted_string(&Locale::en)
}

/// Renders an unsigned count with English thousands separators.
pub fn format_count(n: u64) -> (s: String)
    ensures
        s@ == grouped_digits(n as nat),
{
    grouped_en(n as i128)
}

/// Renders a signed count with English thousands separators.
pub fn format_signed_count(n: i64) -> (s: String)
    ensures
        s@ == grouped_signed(n as int),
{
    grouped_en(n as i128)
}

/// What is left of `s` once every occurrence of `p` is taken out, scanning
/// left to right without overlaps (`str::replace(p, "")`).
pub open spec fn without_pattern(s: Seq<char>, p: Seq<char>) -> Seq<char>
    decreases s.len(),
{
    if p.len() == 0 || s.len() == 0 {
        s
    } else if p.len() <= s.len() && s.take(p.len() as int) == p {
        without_pattern(s.skip(p.len() as int), p)
    } else {
        seq![s[0]] + without_pattern(s.skip(1), p)
    }
}

fn occurs_at(s: &str, n: usize, i: usize, p: &str, m: usize) -> (b: bool)
    requires
        n == s@.len(),
        m == p@.len(),
        i <= n,
    ensures
        b == (i + m <= n && s@.subrange(i as int, i + m) == p@),
{
    if m > n - i {
        return false;
    }
    let mut k: usize = 0;
    while k < m
        invariant
            n == s@.len(),
            m == p@.len(),
            i + m <= n,
            k <= m,
            forall|j: int| 0 <= j < k ==> s@[i + j] == p@[j],
        decreases m - k,
    {
        if s.get_char(i + k) != p.get_char(k) {
            assert(s@.subrange(i as int, i + m)[k as int] != p@[k as int]);
            return false;
        }
        k = k + 1;
    }
    assert(s@.subrange(i as int, i + m) =~= p@);
    true
}

/// Whether `s` begins with `p`.
pub open spec fn starts_with_chars(s: Seq<char>, p: Seq<char>) -> bool {
    p.len() <= s.len() && s.take(p.len() as int) == p
}

/// Whether `s` begins with `p` (`str::starts_with`).
pub fn text_starts_with(s: &str, p: &str) -> (r: bool)
    ensures
        r == starts_with_chars(s@, p@),
{
    let n = s.unicode_len();
    let m = p.unicode_len();
    let r = occurs_at(s, n, 0, p, m);
    proof {
        if m <= n {
            assert(s@.take(m as int) =~= s@.subrange(0, m as int));
        }
    }
    r
}

/// The number a string of decimal digits spells, read most significant first.
pub open spec fn digits_value(s: Seq<char>) -> int
    decreases s.len(),
{
    if s.len() == 0 {
        0
    } else {
        digits_value(s.drop_last()) * 10 + (s.last() as int - 48)
    }
}

/// The decimal digits of `n` spell `n`, and begin with a nonzero digit
/// unless `n` is 0: they are its decimal notation.
pub proof fn lemma_decimal_digits_spell(n: nat)
    ensures
        digits_value(decimal_digits(n)) == n,
        decimal_digits(n).len() >= 1,
        n > 0 ==> decimal_digits(n)[0] != '0',
    decreases n,
{
    assert((digit_char(n % 10) as int) == n % 10 + 48);
    if n >= 10 {
        lemma_decimal_digits_spell(n / 10);
        let s = decimal_digits(n);
        assert(s.drop_last() =~= decimal_digits(n / 10));
        assert(s.last() == digit_char(n % 10));
        assert(s[0] == decimal_digits(n / 10)[0]);
        assert(digits_value(s) == digits_value(s.drop_last()) * 10 + (s.last() as int - 48));
        assert((n / 10) * 10 + n % 10 == n);
    } else {
        let s = decimal_digits(n);
        assert(s.drop_last() =~= Seq::<char>::empty());
        assert(digits_value(s) == digits_value(s.drop_last()) * 10 + (s.last() as int - 48));
        if n > 0 {
            assert((digit_char(n) as int) != 48);
        }
    }
}

/// Taking out a single character distributes over concatenation.
pub proof fn lemma_without_char_concat(a: Seq<char>, b: Seq<char>, c: char)
    ensures
        without_pattern(a + b, seq![c]) == without_pattern(a, seq![c]) + without_pattern(b, seq![c]),
    decreases a.len(),
{
    let p = seq![c];
    if a.len() == 0 {
        assert(a + b =~= b);
        assert(Seq::<char>::empty() + without_pattern(b, p) =~= without_pattern(b, p));
    } else {
        let s = a + b;
        assert(s.skip(1) =~= a.skip(1) + b);
        assert(s.take(1) =~= seq![a[0]]);
        assert(a.take(1) =~= seq![a[0]]);
        lemma_without_char_concat(a.skip(1), b, c);
        if a[0] == c {
            assert(s.take(1) =~= p);
            assert(a.take(1) =~= p);
        } else {
            assert(s.take(1)[0] != p[0]);
            assert(a.take(1)[0] != p[0]);
            assert(seq![a[0]] + (without_pattern(a.skip(1), p) + without_pattern(b, p)) =~= (seq![
                a[0],
            ] + without_pattern(a.skip(1), p)) + without_pattern(b, p));
        }
    }
}

/// A sequence without the character passes through unchanged.
pub proof fn lemma_without_absent_char(s: Seq<char>, c: char)
    requires
        forall|i: int| 0 <= i < s.len() ==> s[i] != c,
    ensures
        without_pattern(s, seq![c]) == s,
    decreases s.len(),
{
    if s.len() > 0 {
        assert(s.take(1) =~= seq![s[0]]);
        assert(s.take(1)[0] != seq![c][0]);
        lemma_without_absent_char(s.skip(1), c);
        assert(seq![s[0]] + s.skip(1) =~= s);
    }
}

/// `c` does not occur in `s`.
pub open spec fn free_of(s: Seq<char>, c: char) -> bool {
    forall|i: int| 0 <= i < s.len() ==> s[i] != c
}

/// `c` is none of the ten digit characters.
pub open spec fn not_a_digit(c: char) -> bool {
    forall|d: nat| d < 10 ==> #[trigger] digit_char(d) != c
}

/// Decimal digits hold nothing but digits.
pub proof fn lemma_decimal_digits_free(n: nat, c: char)
    requires
        not_a_digit(c),
    ensures
        free_of(decimal_digits(n), c),
    decreases n,
{
    assert(digit_char(n % 10) != c);
    if n >= 10 {
        lemma_decimal_digits_free(n / 10, c);
    }
}

proof fn lemma_decimal_digits_split(n: nat)
    requires
        n >= 1000,
    ensures
        decimal_digits(n) == decimal_digits(n / 1000) + three_digits(n % 1000),
{
    let n1 = n / 10;
    let n2 = n / 100;
    let n3 = n / 1000;
    assert(n1 / 10 == n2);
    assert(n2 / 10 == n3);
    assert(decimal_digits(n) == decimal_digits(n1).push(digit_char(n % 10)));
    assert(decimal_digits(n1) == decimal_digits(n2).push(digit_char(n1 % 10)));
    assert(decimal_digits(n2) == decimal_digits(n3).push(digit_char(n2 % 10)));
    assert((n % 1000) / 100 == n2 % 10);
    assert(((n % 1000) / 10) % 10 == n1 % 10);
    assert((n % 1000) % 10 == n % 10);
    assert(decimal_digits(n) =~= decimal_digits(n3) + three_digits(n % 1000));
}

/// The thousands separators are all that grouping adds: taking every `,` out
/// of a grouped number gives its plain decimal digits.
pub proof fn lemma_grouping_only_adds_separators(n: nat)
    ensures
        without_pattern(grouped_digits(n), seq![',']) == decimal_digits(n),
    decreases n,
{
    assert forall|d: nat| d < 10 implies #[trigger] digit_char(d) != ',' by {}
    lemma_decimal_digits_free(n, ',');
    if n < 1000 {
        lemma_without_absent_char(decimal_digits(n), ',');
    } else {
        let head = grouped_digits(n / 1000);
        let tail = three_digits(n % 1000);
        lemma_grouping_only_adds_separators(n / 1000);
        lemma_without_char_concat(head + seq![','], tail, ',');
        lemma_without_char_concat(head, seq![','], ',');
        assert(digit_char((n % 1000) / 100) != ',');
        assert(digit_char(((n % 1000) / 10) % 10) != ',');
        assert(digit_char((n % 1000) % 10) != ',');
        lemma_without_absent_char(tail, ',');
        assert(seq![','].take(1) =~= seq![',']);
        assert(seq![','].skip(1) =~= Seq::<char>::empty());
        assert(without_pattern(seq![','].skip(1), seq![',']) == Seq::<char>::empty());
        assert(without_pattern(seq![','], seq![',']) =~= Seq::<char>::empty());
        lemma_decimal_digits_split(n);
        assert(decimal_digits(n / 1000) + Seq::<char>::empty() =~= decimal_digits(n / 1000));
    }
}

/// Takes every occurrence of `p` out of `s` (`s.replace(p, "")`).
pub fn remove_all(s: &str, p: &str) -> (r: String)
    ensures
        r@ == without_pattern(s@, p@),
{
    let n = s.unicode_len();
    let m = p.unicode_len();
    let mut r = String::new();
    if m == 0 {
        r.append(s);
        return r;
    }
    let mut i: usize = 0;
    assert(s@.skip(0) =~= s@);
    while i < n
        invariant
            n == s@.len(),
            m == p@.len(),
            m > 0,
            i <= n,
            r@ + without_pattern(s@.skip(i as int), p@) == without_pattern(s@, p@),
        decreases n - i,
    {
        let ghost rest = s@.skip(i as int);
        if occurs_at(s, n, i, p, m) {
            assert(rest.take(m as int) =~= s@.subrange(i as int, i + m));
            assert(rest.skip(m as int) =~= s@.skip(i + m));
            i = i + m;
        } else {
            proof {
                if i + m <= n {
                    assert(rest.take(m as int) =~= s@.subrange(i as int, i + m));
                }
            }
            let c = s.get_char(i);
            assert(rest.skip(1) =~= s@.skip(i + 1));
            assert(r@.push(c) + without_pattern(s@.skip(i + 1), p@) =~= r@ + (seq![c]
                + without_pattern(rest.skip(1), p@)));
            push_char(&mut r, c);
            i = i + 1;
        }
    }
    assert(s@.skip(n as int) =~= Seq::<char>::empty());
    assert(r@ + Seq::<char>::empty() =~= r@);
    r
}

/// Code-point lexicographic order on character sequences; a proper prefix
/// comes first. On UTF-8 text this is the byte order that `Ord for String` uses.
pub open spec fn chars_lt(a: Seq<char>, b: Seq<char>) -> bool
    decreases a.len(),
{
    if a.len() == 0 {
        b.len() > 0
    } else if b.len() == 0 {
        false
    } else if a[0] != b[0] {
        (a[0] as int) < (b[0] as int)
    } else {
        chars_lt(a.skip(1), b.skip(1))
    }
}

/// No sequence comes before itself.
pub proof fn lemma_chars_lt_irreflexive(a: Seq<char>)
    ensures
        !chars_lt(a, a),
    decreases a.len(),
{
    if a.len() > 0 {
        lemma_chars_lt_irreflexive(a.skip(1));
    }
}

/// Two different sequences are ordered one way, and only one way.
pub proof fn lemma_chars_lt_total(a: Seq<char>, b: Seq<char>)
    ensures
        a != b ==> (chars_lt(a, b) || chars_lt(b, a)),
        !(chars_lt(a, b) && chars_lt(b, a)),
    decreases a.len(),
{
    if a.len() > 0 && b.len() > 0 {
        lemma_chars_lt_total(a.skip(1), b.skip(1));
        if a[0] == b[0] && a != b {
            assert(a.skip(1) != b.skip(1)) by {
                if a.skip(1) == b.skip(1) {
                    assert(a =~= seq![a[0]] + a.skip(1));
                    assert(b =~= seq![b[0]] + b.skip(1));
                }
            }
        }
    } else if a.len() == 0 && b.len() == 0 {
        assert(a =~= b);
    }
}

/// The order is transitive.
pub proof fn lemma_chars_lt_transitive(a: Seq<char>, b: Seq<char>, c: Seq<char>)
    requires
        chars_lt(a, b),
        chars_lt(b, c),
    ensures
        chars_lt(a, c),
    decreases a.len(),
{
    if a.len() > 0 && b.len() > 0 && c.len() > 0 && a[0] == b[0] && b[0] == c[0] {
        lemma_chars_lt_transitive(a.skip(1), b.skip(1), c.skip(1));
    }
}

/// Whether `a` comes before `b` in code-point order.
pub fn text_precedes(a: &str, b: &str) -> (r: bool)
    ensures
        r == chars_lt(a@, b@),
{
    let la = a.unicode_len();
    let lb = b.unicode_len();
    let mut i: usize = 0;
    assert(a@.skip(0) =~= a@);
    assert(b@.skip(0) =~= b@);
    while i < la && i < lb
        invariant
            la == a@.len(),
            lb == b@.len(),
            i <= la,
            i <= lb,
            chars_lt(a@, b@) == chars_lt(a@.skip(i as int), b@.skip(i as int)),
        decreases la - i,
    {
        let ca = a.get_char(i);
        let cb = b.get_char(i);
        if ca != cb {
            return ca < cb;
        }
        assert(a@.skip(i as int).skip(1) =~= a@.skip(i + 1));
        assert(b@.skip(i as int).skip(1) =~= b@.skip(i + 1));
        i = i + 1;
    }
    i == la && i < lb
}

/// What `char::to_uppercase` yields for a character.
pub uninterp spec fn uppercase_of(c: char) -> Seq<char>;

/// `char::to_uppercase`, collected into a `String`. Claims that the result is
/// the named uppercase mapping of `c`, which std documents as one or more
/// characters; which characters they are is left to the name.
#[verifier::external_body]
fn char_uppercase(c: char) -> (s: String)
    ensures
        s@ == uppercase_of(c),
        s@.len() >= 1,
{
    c.to_uppercase().collect::<String>()
}

/// What `str::to_lowercase` yields for a string.
pub uninterp spec fn lowercase_of(s: Seq<char>) -> Seq<char>;

/// `str::to_lowercase`. Claims only that the result is the named lowercase
/// mapping of the argument; the Unicode mapping itself is left to the name.
#[verifier::external_body]
pub(crate) fn lowercase_text(s: &str) -> (r: String)
    ensures
        r@ == lowercase_of(s@),
{
    s.to_lowercase()
}

/// The text with its first character mapped to uppercase.
pub open spec fn capitalized(s: Seq<char>) -> Seq<char> {
    if s.len() == 0 {
        s
    } else {
        uppercase_of(s[0]) + s.skip(1)
    }
}

/// Maps the first character of `s` to uppercase and keeps the rest.
pub fn some_kind_of_uppercase_first_letter(s: &str) -> (r: String)
    ensures
        r@ == capitalized(s@),
{
    let n = s.unicode_len();
    if n == 0 {
        String::new()
    } else {
        let first = s.get_char(0);
        let mut r = char_uppercase(first);
        let rest = s.substring_char(1, n);
        assert(rest@ =~= s@.skip(1));
        r.append(rest);
        r
    }
}

} // verus!
