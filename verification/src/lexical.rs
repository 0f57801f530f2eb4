//! Lexical forms: the order of texts, and the texts of numbers, dates,
//! language tags, regular expressions and UUIDs.

use vstd::prelude::*;
use vstd::string::StringExecFns;
use vstd::utf8::encode_utf8;
use std::str::FromStr;
use chrono::DateTime;
use chrono::FixedOffset;
use chrono::NaiveDateTime;
use language_tags::LanguageTag;
use regex::RegexBuilder;
use uuid::Uuid;
use crate::numeric::Comparison;
use crate::term::DateTimeValue;
use crate::term::NaiveDateTimeValue;

verus! {

/// The lexicographic order of two byte strings from position `from` on.
pub open spec fn bytes_order_from(a: Seq<u8>, b: Seq<u8>, from: int) -> Comparison
    decreases a.len() - from,
{
    if from < 0 || from >= a.len() {
        if from >= b.len() {
            Comparison::Equal
        } else {
            Comparison::Less
        }
    } else if from >= b.len() {
        Comparison::Greater
    } else if a[from] < b[from] {
        Comparison::Less
    } else if a[from] > b[from] {
        Comparison::Greater
    } else {
        bytes_order_from(a, b, from + 1)
    }
}

/// The order of two texts: lexicographic by the bytes of their UTF-8 form.
pub open spec fn text_order(a: Seq<char>, b: Seq<char>) -> Comparison {
    bytes_order_from(encode_utf8(a), encode_utf8(b), 0)
}

/// Compares two texts by the bytes of their UTF-8 form.
pub fn compare_text(a: &str, b: &str) -> (r: Comparison)
    ensures
        r == text_order(a@, b@),
{
    let a_bytes = a.as_bytes();
    let b_bytes = b.as_bytes();
    let mut i: usize = 0;
    loop
        invariant
            a_bytes@ == encode_utf8(a@),
            b_bytes@ == encode_utf8(b@),
            i <= a_bytes@.len(),
            i <= b_bytes@.len(),
            text_order(a@, b@) == bytes_order_from(a_bytes@, b_bytes@, i as int),
        decreases a_bytes@.len() - i,
    {
        if i >= a_bytes.len() {
            if i >= b_bytes.len() {
                return Comparison::Equal;
            } else {
                return Comparison::Less;
            }
        }
        if i >= b_bytes.len() {
            return Comparison::Greater;
        }
        if a_bytes[i] < b_bytes[i] {
            return Comparison::Less;
        }
        if a_bytes[i] > b_bytes[i] {
            return Comparison::Greater;
        }
        i = i + 1;
    }
}

/// Whether `text` is exactly `literal`.
pub fn text_is(text: &str, literal: &str) -> (r: bool)
    ensures
        r == (text@ == literal@),
{
    let a = text.to_owned();
    let b = literal.to_owned();
    a == b
}

/// The character of a decimal digit.
pub open spec fn digit_char(d: int) -> char {
    if d == 0 {
        '0'
    } else if d == 1 {
        '1'
    } else if d == 2 {
        '2'
    } else if d == 3 {
        '3'
    } else if d == 4 {
        '4'
    } else if d == 5 {
        '5'
    } else if d == 6 {
        '6'
    } else if d == 7 {
        '7'
    } else if d == 8 {
        '8'
    } else {
        '9'
    }
}

/// The decimal digit that a character is, if it is one.
pub open spec fn digit_value(c: char) -> Option<int> {
    if c == '0' {
        Some(0)
    } else if c == '1' {
        Some(1)
    } else if c == '2' {
        Some(2)
    } else if c == '3' {
        Some(3)
    } else if c == '4' {
        Some(4)
    } else if c == '5' {
        Some(5)
    } else if c == '6' {
        Some(6)
    } else if c == '7' {
        Some(7)
    } else if c == '8' {
        Some(8)
    } else if c == '9' {
        Some(9)
    } else {
        None
    }
}

/// The decimal digits of a natural number, without leading zeros.
pub open spec fn digits_text(n: nat) -> Seq<char>
    decreases n,
{
    if n < 10 {
        seq![digit_char(n as int)]
    } else {
        digits_text(n / 10).push(digit_char((n % 10) as int))
    }
}

/// The text of an integer: its decimal digits, after a minus sign if it
/// is negative.
pub open spec fn integer_text(value: i128) -> Seq<char> {
    if value < 0 {
        seq!['-'] + digits_text((-value) as nat)
    } else {
        digits_text(value as nat)
    }
}

/// The number that a text of decimal digits stands for; none for the
/// empty text and for a text with another character.
pub open spec fn digits_value(text: Seq<char>) -> Option<nat>
    decreases text.len(),
{
    if text.len() == 0 {
        None
    } else {
        match digit_value(text.last()) {
            None => None,
            Some(d) => if text.len() == 1 {
                Some(d as nat)
            } else {
                match digits_value(text.drop_last()) {
                    Some(v) => Some(v * 10 + d as nat),
                    None => None,
                }
            },
        }
    }
}

/// One more than the largest integer of 128 bits: 2^127.
pub const INTEGER_LIMIT: u128 = 0x8000_0000_0000_0000_0000_0000_0000_0000;

/// A text without its sign, if it begins with one.
pub open spec fn unsigned_part(text: Seq<char>) -> Seq<char> {
    if text.len() > 0 && (text[0] == '-' || text[0] == '+') {
        text.skip(1)
    } else {
        text
    }
}

/// The integer of a sign and a magnitude, if it fits 128 bits.
pub open spec fn signed_value(negative: bool, magnitude: nat) -> Option<i128> {
    if negative {
        if magnitude <= INTEGER_LIMIT {
            Some((0 - magnitude) as i128)
        } else {
            None
        }
    } else {
        if magnitude < INTEGER_LIMIT {
            Some(magnitude as i128)
        } else {
            None
        }
    }
}

/// The integer that a text stands for: decimal digits, at least one,
/// after a sign or none; none if the text is of another form or the
/// number does not fit 128 bits.
pub open spec fn integer_parsed(text: Seq<char>) -> Option<i128> {
    match digits_value(unsigned_part(text)) {
        Some(magnitude) => signed_value(text[0] == '-', magnitude),
        None => None,
    }
}

/// The text of the digits of a number stands for the number, and begins
/// with a digit.
pub proof fn lemma_digits_roundtrip(n: nat)
    ensures
        digits_value(digits_text(n)) == Some(n),
        digits_text(n).len() >= 1,
        digit_value(digits_text(n)[0]) is Some,
    decreases n,
{
    if n >= 10 {
        lemma_digits_roundtrip(n / 10);
        let text = digits_text(n);
        assert(text.drop_last() =~= digits_text(n / 10));
        assert(text.last() == digit_char((n % 10) as int));
        assert(text[0] == digits_text(n / 10)[0]);
    }
}

/// The text of an integer stands for the integer.
pub proof fn lemma_integer_text_roundtrip(value: i128)
    ensures
        integer_parsed(integer_text(value)) == Some(value),
{
    if value < 0 {
        let digits = digits_text((-value) as nat);
        lemma_digits_roundtrip((-value) as nat);
        assert(integer_text(value).skip(1) =~= digits);
        assert(integer_text(value)[0] == '-');
    } else {
        lemma_digits_roundtrip(value as nat);
        assert(unsigned_part(integer_text(value)) == integer_text(value));
    }
}

/// A text with a character that is no digit stands for no number.
proof fn lemma_not_a_digit(text: Seq<char>, place: int)
    requires
        0 <= place < text.len(),
        digit_value(text[place]) is None,
    ensures
        digits_value(text) is None,
    decreases text.len(),
{
    if place < text.len() - 1 {
        assert(text.drop_last()[place] == text[place]);
        lemma_not_a_digit(text.drop_last(), place);
    }
}

/// The number of a text of digits is no less than the number of each of
/// its beginnings.
proof fn lemma_beginning_is_less(text: Seq<char>, length: int)
    requires
        1 <= length <= text.len(),
        digits_value(text) is Some,
    ensures
        digits_value(text.take(length)) matches Some(v) && v <= digits_value(text)->0,
    decreases text.len() - length,
{
    if length == text.len() {
        assert(text.take(length) =~= text);
    } else {
        assert(text.drop_last().take(length) =~= text.take(length));
        lemma_beginning_is_less(text.drop_last(), length);
    }
}

/// The text of a digit.
fn digit_str(d: u8) -> (s: &'static str)
    requires
        d < 10,
    ensures
        s@ == seq![digit_char(d as int)],
{
    proof {
        reveal_strlit("0");
        reveal_strlit("1");
        reveal_strlit("2");
        reveal_strlit("3");
        reveal_strlit("4");
        reveal_strlit("5");
        reveal_strlit("6");
        reveal_strlit("7");
        reveal_strlit("8");
        reveal_strlit("9");
        assert("0"@ =~= seq!['0']);
        assert("1"@ =~= seq!['1']);
        assert("2"@ =~= seq!['2']);
        assert("3"@ =~= seq!['3']);
        assert("4"@ =~= seq!['4']);
        assert("5"@ =~= seq!['5']);
        assert("6"@ =~= seq!['6']);
        assert("7"@ =~= seq!['7']);
        assert("8"@ =~= seq!['8']);
        assert("9"@ =~= seq!['9']);
    }
    if d == 0 {
        "0"
    } else if d == 1 {
        "1"
    } else if d == 2 {
        "2"
    } else if d == 3 {
        "3"
    } else if d == 4 {
        "4"
    } else if d == 5 {
        "5"
    } else if d == 6 {
        "6"
    } else if d == 7 {
        "7"
    } else if d == 8 {
        "8"
    } else {
        "9"
    }
}

/// The digit that a character is, if it is one.
fn digit_of(c: char) -> (r: Option<u8>)
    ensures
        r matches Some(d) ==> digit_value(c) == Some(d as int),
        r is None ==> digit_value(c) is None,
{
    if c == '0' {
        Some(0)
    } else if c == '1' {
        Some(1)
    } else if c == '2' {
        Some(2)
    } else if c == '3' {
        Some(3)
    } else if c == '4' {
        Some(4)
    } else if c == '5' {
        Some(5)
    } else if c == '6' {
        Some(6)
    } else if c == '7' {
        Some(7)
    } else if c == '8' {
        Some(8)
    } else if c == '9' {
        Some(9)
    } else {
        None
    }
}

/// Appends the decimal digits of `n` to `out`.
fn append_digits(n: u128, out: &mut String)
    ensures
        final(out)@ == old(out)@ + digits_text(n as nat),
    decreases n,
{
    if n >= 10 {
        append_digits(n / 10, out);
    }
    let ghost before = out@;
    out.append(digit_str((n % 10) as u8));
    proof {
        let digit = digit_char((n % 10) as int);
        if n >= 10 {
            assert((old(out)@ + digits_text((n / 10) as nat)) + seq![digit] =~= old(out)@
                + digits_text((n / 10) as nat).push(digit));
        }
    }
}

/// The text of an integer.
pub fn integer_to_string(value: i128) -> (r: String)
    ensures
        r@ == integer_text(value),
{
    let mut out = String::new();
    if value < 0 {
        proof {
            reveal_strlit("-");
            assert("-"@ =~= seq!['-']);
        }
        out.append("-");
        let magnitude: u128 = if value == i128::MIN {
            INTEGER_LIMIT
        } else {
            (-value) as u128
        };
        append_digits(magnitude, &mut out);
        assert(Seq::<char>::empty() + seq!['-'] =~= seq!['-']);
    } else {
        append_digits(value as u128, &mut out);
        assert(Seq::<char>::empty() + digits_text(value as nat) =~= digits_text(value as nat));
    }
    out
}

/// One more digit after a beginning of a text of digits.
proof fn lemma_one_more_digit(text: Seq<char>, length: int, value: nat, digit: int)
    requires
        0 <= length < text.len(),
        digit_value(text[length]) == Some(digit),
        length == 0 ==> value == 0,
        length > 0 ==> digits_value(text.take(length)) == Some(value),
    ensures
        digits_value(text.take(length + 1)) == Some((value * 10 + digit) as nat),
{
    let beginning = text.take(length + 1);
    assert(beginning.last() == text[length]);
    assert(beginning.drop_last() =~= text.take(length));
}

/// A text of digits with a beginning above a bound stands for a number
/// above the bound, if for any.
proof fn lemma_above_bound(text: Seq<char>, length: int, bound: nat)
    requires
        1 <= length <= text.len(),
        digits_value(text.take(length)) matches Some(v) && v > bound,
    ensures
        digits_value(text) matches Some(w) ==> w > bound,
{
    if digits_value(text) is Some {
        lemma_beginning_is_less(text, length);
    }
}

/// The magnitude with one more digit, if it stays within `limit`.
fn with_digit(value: u128, digit: u8, limit: u128) -> (r: Option<u128>)
    requires
        digit < 10,
    ensures
        r == if value * 10 + digit <= limit {
            Some((value * 10 + digit) as u128)
        } else {
            None
        },
{
    match value.checked_mul(10) {
        Some(tens) => match tens.checked_add(digit as u128) {
            Some(next) => if next <= limit {
                Some(next)
            } else {
                None
            },
            None => None,
        },
        None => None,
    }
}

/// The magnitude that the digits of `text` from place `start` on stand
/// for, if they stand for one that is at most `limit`.
fn parse_magnitude(text: &str, start: usize, limit: u128) -> (r: Option<u128>)
    requires
        start <= text@.len(),
    ensures
        r == match digits_value(text@.skip(start as int)) {
            Some(v) => if v <= limit {
                Some(v as u128)
            } else {
                None
            },
            None => None,
        },
{
    let n = text.unicode_len();
    let ghost digits = text@.skip(start as int);
    if start >= n {
        assert(digits.len() == 0);
        return None;
    }
    let mut value: u128 = 0;
    let mut i: usize = start;
    while i < n
        invariant
            start <= i <= n,
            n == text@.len(),
            start < n,
            digits == text@.skip(start as int),
            i == start ==> value == 0,
            i > start ==> digits_value(digits.take(i - start)) == Some(value as nat),
            value <= limit,
        decreases n - i,
    {
        let c = text.get_char(i);
        assert(digits[i - start] == c);
        match digit_of(c) {
            None => {
                proof {
                    lemma_not_a_digit(digits, i - start);
                }
                return None;
            },
            Some(d) => {
                proof {
                    lemma_one_more_digit(digits, i - start, value as nat, d as int);
                }
                match with_digit(value, d, limit) {
                    Some(next) => {
                        value = next;
                    },
                    None => {
                        proof {
                            lemma_above_bound(digits, i - start + 1, limit as nat);
                        }
                        return None;
                    },
                }
            },
        }
        i = i + 1;
    }
    assert(digits.take(n - start) =~= digits);
    Some(value)
}

/// The integer that a text stands for.
pub fn parse_integer(text: &str) -> (r: Option<i128>)
    ensures
        r == integer_parsed(text@),
{
    let n = text.unicode_len();
    if n == 0 {
        return None;
    }
    let first = text.get_char(0);
    let negative = first == '-';
    let start: usize = if first == '-' || first == '+' {
        1
    } else {
        0
    };
    proof {
        assert(text@.skip(0) =~= text@);
        assert(text@.skip(start as int) == unsigned_part(text@));
    }
    if negative {
        match parse_magnitude(text, start, INTEGER_LIMIT) {
            Some(magnitude) => if magnitude == INTEGER_LIMIT {
                Some(i128::MIN)
            } else {
                Some(-(magnitude as i128))
            },
            None => None,
        }
    } else {
        match parse_magnitude(text, start, INTEGER_LIMIT - 1) {
            Some(magnitude) => Some(magnitude as i128),
            None => None,
        }
    }
}

/// The text that `chrono` writes for a point in time with offset; none
/// where the three numbers are no such point for `chrono`.
pub uninterp spec fn date_time_text(value: DateTimeValue) -> Option<Seq<char>>;

/// The text that `chrono` writes for a date and time without zone; none
/// where the two numbers are no such date for `chrono`.
pub uninterp spec fn naive_date_time_text(value: NaiveDateTimeValue) -> Option<Seq<char>>;

/// The point in time that `chrono` reads from an RFC 3339 text.
pub uninterp spec fn date_time_parsed(text: Seq<char>) -> Option<DateTimeValue>;

/// The date and time without zone that `chrono` reads from a text under a
/// format.
pub uninterp spec fn naive_date_time_parsed(text: Seq<char>, format: Seq<char>) -> Option<
    NaiveDateTimeValue,
>;

/// `DateTime::to_string` of `chrono`, on the value rebuilt with
/// `FixedOffset::east_opt`, `DateTime::from_timestamp` and `with_timezone`.
#[verifier::external_body]
pub(crate) fn date_time_to_string(value: DateTimeValue) -> (r: Option<String>)
    ensures
        r.is_some() == date_time_text(value).is_some(),
        r matches Some(s) ==> date_time_text(value) == Some(s@),
{
    let offset = FixedOffset::east_opt(value.offset)?;
    let utc = DateTime::from_timestamp(value.seconds, value.nanos)?;
    Some(utc.with_timezone(&offset).to_string())
}

/// `NaiveDateTime::to_string` of `chrono`, on the value rebuilt with
/// `DateTime::from_timestamp` and `naive_utc`.
#[verifier::external_body]
pub(crate) fn naive_date_time_to_string(value: NaiveDateTimeValue) -> (r: Option<String>)
    ensures
        r.is_some() == naive_date_time_text(value).is_some(),
        r matches Some(s) ==> naive_date_time_text(value) == Some(s@),
{
    let utc = DateTime::from_timestamp(value.seconds, value.nanos)?;
    Some(utc.naive_utc().to_string())
}

/// `DateTime::parse_from_rfc3339` of `chrono`, with the result taken apart
/// by `timestamp`, `timestamp_subsec_nanos` and `local_minus_utc`.
#[verifier::external_body]
pub(crate) fn parse_date_time(text: &str) -> (r: Option<DateTimeValue>)
    ensures
        r == date_time_parsed(text@),
{
    let parsed = DateTime::parse_from_rfc3339(text).ok()?;
    Some(
        DateTimeValue {
            seconds: parsed.timestamp(),
            nanos: parsed.timestamp_subsec_nanos(),
            offset: parsed.offset().local_minus_utc(),
        },
    )
}

/// `NaiveDateTime::parse_from_str` of `chrono`, the result taken apart by
/// `and_utc`, `timestamp` and `timestamp_subsec_nanos`; none where the
/// text does not fit the format.
#[verifier::external_body]
pub(crate) fn parse_naive_date_time(text: &str, format: &str) -> (r: Option<NaiveDateTimeValue>)
    ensures
        r == naive_date_time_parsed(text@, format@),
{
    let parsed = NaiveDateTime::parse_from_str(text, format).ok()?;
    let utc = parsed.and_utc();
    Some(NaiveDateTimeValue { seconds: utc.timestamp(), nanos: utc.timestamp_subsec_nanos() })
}

/// Whether `language_tags` reads `range` as a language range: some and true
/// if it parses and has neither extension nor private-use part, some and
/// false if it parses and has one, none if it does not parse.
pub uninterp spec fn language_range_checked(range: Seq<char>) -> Option<bool>;

/// Whether the language range `range` matches the tag `tag` for
/// `language_tags`; none where `tag` does not parse.
pub uninterp spec fn language_range_matched(range: Seq<char>, tag: Seq<char>) -> Option<bool>;

/// `LanguageTag::from_str` and `LanguageTag::is_language_range` of
/// `language_tags`.
#[verifier::external_body]
pub(crate) fn check_language_range(range: &str) -> (r: Option<bool>)
    ensures
        r == language_range_checked(range@),
{
    LanguageTag::from_str(range).ok().map(|tag| tag.is_language_range())
}

/// `LanguageTag::matches` of `language_tags`, on a range and a tag parsed
/// with `LanguageTag::from_str`. It is called only on a range that parses
/// and is a language range: on another the outside function would panic.
#[verifier::external_body]
pub(crate) fn match_language_range(range: &str, tag: &str) -> (r: Option<bool>)
    requires
        language_range_checked(range@) == Some(true),
    ensures
        r == language_range_matched(range@, tag@),
{
    let range_tag = LanguageTag::from_str(range).ok()?;
    let tag = LanguageTag::from_str(tag).ok()?;
    Some(range_tag.matches(&tag))
}

/// Whether the regular expression `pattern`, compiled by `regex` under the
/// given size limit and flags, matches somewhere in `text`; none where
/// `regex` does not compile the pattern.
pub uninterp spec fn regex_matched(
    pattern: Seq<char>,
    size_limit: usize,
    dot_matches_new_line: bool,
    multi_line: bool,
    case_insensitive: bool,
    ignore_whitespace: bool,
    text: Seq<char>,
) -> Option<bool>;

/// `RegexBuilder::build` of `regex`, after the builder's `size_limit`,
/// `dot_matches_new_line`, `multi_line`, `case_insensitive` and
/// `ignore_whitespace`, and then `Regex::is_match`.
#[verifier::external_body]
pub(crate) fn match_regex(
    pattern: &str,
    size_limit: usize,
    dot_matches_new_line: bool,
    multi_line: bool,
    case_insensitive: bool,
    ignore_whitespace: bool,
    text: &str,
) -> (r: Option<bool>)
    ensures
        r == regex_matched(
            pattern@,
            size_limit,
            dot_matches_new_line,
            multi_line,
            case_insensitive,
            ignore_whitespace,
            text@,
        ),
{
    let mut builder = RegexBuilder::new(pattern);
    builder.size_limit(size_limit);
    builder.dot_matches_new_line(dot_matches_new_line);
    builder.multi_line(multi_line);
    builder.case_insensitive(case_insensitive);
    builder.ignore_whitespace(ignore_whitespace);
    let regex = builder.build().ok()?;
    Some(regex.is_match(text))
}

/// The URN form that `uuid` writes for the UUID of 128 bits `value`.
pub uninterp spec fn uuid_urn_text(value: u128) -> Seq<char>;

/// The form of 32 hexadecimal digits that `uuid` writes for a UUID.
pub uninterp spec fn uuid_simple_text(value: u128) -> Seq<char>;

/// `Uuid::new_v4` of `uuid`, as 128 bits. Nothing is known of the value:
/// it is random. The outside function panics where the system has no
/// source of random bytes.
#[verifier::external_body]
pub(crate) fn random_uuid() -> u128 {
    Uuid::new_v4().as_u128()
}

/// `Uuid::to_urn` of `uuid`, written out.
#[verifier::external_body]
pub(crate) fn uuid_to_urn(value: u128) -> (r: String)
    ensures
        r@ == uuid_urn_text(value),
{
    Uuid::from_u128(value).to_urn().to_string()
}

/// `Uuid::to_simple` of `uuid`, written out.
#[verifier::external_body]
pub(crate) fn uuid_to_simple(value: u128) -> (r: String)
    ensures
        r@ == uuid_simple_text(value),
{
    Uuid::from_u128(value).to_simple().to_string()
}

} // verus!
