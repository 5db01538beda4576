//! Reading a temperature out of the text that a one-wire sensor reports.
//!
//! The sensor writes a few lines of text that hold `t=` followed by the temperature in
//! thousandths of a degree Celsius. The reading is the token behind the last `t=`: the
//! characters up to the next white space, after any white space that follows the `=`.

use vstd::prelude::*;
use vstd::string::StringExecFns;

verus! {

/// The white space that separates tokens: blank, tab, line feed, carriage return,
/// vertical tab and form feed.
pub open spec fn is_space(c: char) -> bool {
    c == ' ' || c == '\t' || c == '\n' || c == '\r' || c == '\x0b' || c == '\x0c'
}

/// Whether `t=` stands at `position`.
pub open spec fn marker_at(text: Seq<char>, position: int) -> bool {
    &&& 0 <= position
    &&& position + 1 < text.len()
    &&& text[position] == 't'
    &&& text[position + 1] == '='
}

/// The position of the last `t=` that starts before `end`.
pub open spec fn last_marker(text: Seq<char>, end: int) -> Option<int>
    decreases end,
{
    if end <= 0 {
        None
    } else if marker_at(text, end - 1) {
        Some(end - 1)
    } else {
        last_marker(text, end - 1)
    }
}

/// The first position at or behind `from` that holds no white space, or the length of the
/// text.
pub open spec fn skip_spaces(text: Seq<char>, from: int) -> int
    decreases text.len() - from,
{
    if 0 <= from < text.len() && is_space(text[from]) {
        skip_spaces(text, from + 1)
    } else {
        from
    }
}

/// The first position at or behind `from` that holds white space, or the length of the
/// text.
pub open spec fn skip_token(text: Seq<char>, from: int) -> int
    decreases text.len() - from,
{
    if 0 <= from < text.len() && !is_space(text[from]) {
        skip_token(text, from + 1)
    } else {
        from
    }
}

/// The token behind the last `t=`, if the text holds a `t=`.
pub open spec fn reading_token(text: Seq<char>) -> Option<Seq<char>> {
    match last_marker(text, text.len() as int) {
        Some(marker) => {
            let start = skip_spaces(text, marker + 2);
            Some(text.subrange(start, skip_token(text, start)))
        },
        None => None,
    }
}

/// Whether `c` is a decimal digit.
pub open spec fn is_digit(c: char) -> bool {
    '0' <= c <= '9'
}

/// The decimal digits in ascending order.
pub open spec fn digit_chars() -> Seq<char> {
    seq!['0', '1', '2', '3', '4', '5', '6', '7', '8', '9']
}

/// The value of the digit `c`.
pub open spec fn digit_value(c: char) -> nat {
    (c as u32 - '0' as u32) as nat
}

/// Whether `text` holds decimal digits only.
pub open spec fn all_digits(text: Seq<char>) -> bool {
    forall|i: int| 0 <= i < text.len() ==> is_digit(#[trigger] text[i])
}

/// The number that the digits of `digits` write.
pub open spec fn decimal_value(digits: Seq<char>) -> nat
    decreases digits.len(),
{
    if digits.len() == 0 {
        0
    } else {
        decimal_value(digits.drop_last()) * 10 + digit_value(digits.last())
    }
}

/// Whether `token` begins with a sign.
pub open spec fn has_sign(token: Seq<char>) -> bool {
    token.len() > 0 && (token[0] == '-' || token[0] == '+')
}

/// The digits of `token`: what follows its sign, if it has one.
pub open spec fn digits_of(token: Seq<char>) -> Seq<char> {
    if has_sign(token) {
        token.drop_first()
    } else {
        token
    }
}

/// The whole number that `token` writes: an optional sign and at least one digit, with a
/// magnitude that 63 bits hold. Anything else is no reading.
pub open spec fn millidegrees(token: Seq<char>) -> Option<int> {
    let digits = digits_of(token);
    if digits.len() > 0 && all_digits(digits) && decimal_value(digits) <= i64::MAX {
        if token[0] == '-' {
            Some(-(decimal_value(digits) as int))
        } else {
            Some(decimal_value(digits) as int)
        }
    } else {
        None
    }
}

/// The decimal digits of `n`, without leading zeros.
pub open spec fn decimal_digits(n: nat) -> Seq<char>
    decreases n,
{
    if n < 10 {
        seq![digit_chars()[n as int]]
    } else {
        decimal_digits(n / 10).push(digit_chars()[(n % 10) as int])
    }
}

/// The magnitude of a temperature in tenths of a degree, rounded to the nearest tenth,
/// a half rounding away from zero.
pub open spec fn tenths(value: int) -> nat {
    if value < 0 {
        ((-value + 50) / 100) as nat
    } else {
        ((value + 50) / 100) as nat
    }
}

/// A temperature in degrees with one decimal place, with a minus sign for every value
/// below zero.
pub open spec fn celsius_text(value: int) -> Seq<char> {
    let sign = if value < 0 {
        seq!['-']
    } else {
        Seq::<char>::empty()
    };
    sign + decimal_digits(tenths(value) / 10) + seq!['.'] + seq![
        digit_chars()[(tenths(value) % 10) as int],
    ]
}

/// The overlay line for the sensor text `content`.
pub open spec fn temperature_text(content: Seq<char>) -> Seq<char> {
    match reading_token(content) {
        None => "No temperature found"@,
        Some(token) => match millidegrees(token) {
            Some(value) => "Temp.: "@ + celsius_text(value) + " \u{b0}C"@,
            None => "Error parsing temperature "@ + token,
        },
    }
}

/// The characters of `text`.
fn to_chars(text: &str) -> (chars: Vec<char>)
    ensures
        chars@ == text@,
{
    let count = text.unicode_len();
    let mut chars: Vec<char> = Vec::new();
    let mut i: usize = 0;
    while i < count
        invariant
            i <= count,
            count == text@.len(),
            chars@ == text@.take(i as int),
        decreases count - i,
    {
        chars.push(text.get_char(i));
        assert(text@.take(i + 1) == text@.take(i as int).push(text@[i as int]));
        i += 1;
    }
    assert(text@.take(count as int) == text@);
    chars
}

/// The position of the last `t=` in `chars`.
fn find_last_marker(chars: &Vec<char>) -> (marker: Option<usize>)
    ensures
        match marker {
            Some(position) => last_marker(chars@, chars@.len() as int) == Some(position as int)
                && position + 2 <= chars@.len(),
            None => last_marker(chars@, chars@.len() as int) is None,
        },
{
    let mut end: usize = chars.len();
    while end > 0
        invariant
            end <= chars@.len(),
            last_marker(chars@, chars@.len() as int) == last_marker(chars@, end as int),
        decreases end,
    {
        if end < chars.len() && chars[end - 1] == 't' && chars[end] == '=' {
            return Some(end - 1);
        }
        end -= 1;
    }
    None
}

/// The first position at or behind `from` that holds no white space.
fn skip_spaces_from(chars: &Vec<char>, from: usize) -> (position: usize)
    requires
        from <= chars@.len(),
    ensures
        position == skip_spaces(chars@, from as int),
        from <= position <= chars@.len(),
{
    let mut position = from;
    while position < chars.len() && is_space_char(chars[position])
        invariant
            from <= position <= chars@.len(),
            skip_spaces(chars@, from as int) == skip_spaces(chars@, position as int),
        decreases chars@.len() - position,
    {
        position += 1;
    }
    position
}

/// The first position at or behind `from` that holds white space.
fn skip_token_from(chars: &Vec<char>, from: usize) -> (position: usize)
    requires
        from <= chars@.len(),
    ensures
        position == skip_token(chars@, from as int),
        from <= position <= chars@.len(),
{
    let mut position = from;
    while position < chars.len() && !is_space_char(chars[position])
        invariant
            from <= position <= chars@.len(),
            skip_token(chars@, from as int) == skip_token(chars@, position as int),
        decreases chars@.len() - position,
    {
        position += 1;
    }
    position
}

/// Whether `c` is white space.
fn is_space_char(c: char) -> (space: bool)
    ensures
        space == is_space(c),
{
    c == ' ' || c == '\t' || c == '\n' || c == '\r' || c == '\x0b' || c == '\x0c'
}

/// The position that `last_marker` gives holds a `t=` and no position behind it and
/// before `end` does; it gives none exactly when no position before `end` holds a `t=`.
pub proof fn lemma_last_marker(text: Seq<char>, end: int)
    ensures
        match last_marker(text, end) {
            Some(position) => {
                &&& 0 <= position < end
                &&& marker_at(text, position)
                &&& forall|later: int| position < later < end ==> !marker_at(text, later)
            },
            None => forall|any: int| 0 <= any < end ==> !marker_at(text, any),
        },
    decreases end,
{
    if end > 0 && !marker_at(text, end - 1) {
        lemma_last_marker(text, end - 1);
    }
}

/// The token of a text that holds a `t=` starts behind the last `t=`, with nothing but
/// white space between them, holds no white space itself, and ends at white space or at
/// the end of the text.
pub proof fn lemma_reading_token(text: Seq<char>)
    requires
        last_marker(text, text.len() as int) is Some,
    ensures
        ({
            let marker = last_marker(text, text.len() as int)->0;
            let start = skip_spaces(text, marker + 2);
            let end = skip_token(text, start);
            &&& marker + 2 <= start <= end <= text.len()
            &&& reading_token(text) == Some(text.subrange(start, end))
            &&& forall|i: int| marker + 2 <= i < start ==> is_space(text[i])
            &&& forall|i: int| start <= i < end ==> !is_space(text[i])
            &&& end < text.len() ==> is_space(text[end])
        }),
{
    lemma_last_marker(text, text.len() as int);
    let marker = last_marker(text, text.len() as int)->0;
    lemma_skip_spaces(text, marker + 2);
    lemma_skip_token(text, skip_spaces(text, marker + 2));
}

/// `skip_spaces` passes white space only and stops at the first character that is none.
proof fn lemma_skip_spaces(text: Seq<char>, from: int)
    requires
        0 <= from <= text.len(),
    ensures
        from <= skip_spaces(text, from) <= text.len(),
        forall|i: int| from <= i < skip_spaces(text, from) ==> is_space(text[i]),
        skip_spaces(text, from) < text.len() ==> !is_space(text[skip_spaces(text, from)]),
    decreases text.len() - from,
{
    if from < text.len() && is_space(text[from]) {
        lemma_skip_spaces(text, from + 1);
    }
}

/// `skip_token` passes no white space and stops at the first.
proof fn lemma_skip_token(text: Seq<char>, from: int)
    requires
        0 <= from <= text.len(),
    ensures
        from <= skip_token(text, from) <= text.len(),
        forall|i: int| from <= i < skip_token(text, from) ==> !is_space(text[i]),
        skip_token(text, from) < text.len() ==> is_space(text[skip_token(text, from)]),
    decreases text.len() - from,
{
    if from < text.len() && !is_space(text[from]) {
        lemma_skip_token(text, from + 1);
    }
}

/// A longer run of digits writes no smaller number.
proof fn lemma_decimal_value_prefix(digits: Seq<char>, count: int)
    requires
        0 <= count <= digits.len(),
    ensures
        decimal_value(digits.take(count)) <= decimal_value(digits),
    decreases digits.len(),
{
    if count == digits.len() {
        assert(digits.take(count) == digits);
    } else {
        assert(digits.drop_last().take(count) == digits.take(count));
        lemma_decimal_value_prefix(digits.drop_last(), count);
    }
}

/// One more digit multiplies the number by ten and adds the digit.
proof fn lemma_decimal_value_step(digits: Seq<char>, count: int)
    requires
        0 <= count < digits.len(),
    ensures
        decimal_value(digits.take(count + 1)) == decimal_value(digits.take(count)) * 10
            + digit_value(digits[count]),
{
    assert(digits.take(count + 1).drop_last() == digits.take(count));
}

/// Why a sensor text gives no temperature.
#[derive(Debug, PartialEq, Eq)]
pub enum SensorParseError {
    /// The text holds no `t=`.
    NoTemperature,
    /// The token behind the last `t=`, which writes no whole number that 63 bits and a
    /// sign hold.
    NotANumber(String),
}

/// The whole number that `chars` writes from `start` up to `end`.
fn parse_millidegrees(chars: &Vec<char>, start: usize, end: usize) -> (value: Option<i64>)
    requires
        start <= end <= chars@.len(),
    ensures
        match value {
            Some(v) => millidegrees(chars@.subrange(start as int, end as int)) == Some(v as int),
            None => millidegrees(chars@.subrange(start as int, end as int)) is None,
        },
{
    let ghost token = chars@.subrange(start as int, end as int);
    if start == end {
        return None;
    }
    let first = chars[start];
    assert(first == token[0]);
    let begin = if first == '-' || first == '+' {
        start + 1
    } else {
        start
    };
    let ghost digits = digits_of(token);
    assert(digits == chars@.subrange(begin as int, end as int));
    if begin == end {
        return None;
    }
    let mut magnitude: u64 = 0;
    let mut i: usize = begin;
    assert(digits.take(0) == Seq::<char>::empty());
    while i < end
        invariant
            start <= begin <= i <= end <= chars@.len(),
            begin < end,
            token == chars@.subrange(start as int, end as int),
            digits == digits_of(token),
            digits == chars@.subrange(begin as int, end as int),
            all_digits(digits.take(i - begin)),
            magnitude == decimal_value(digits.take(i - begin)),
            magnitude <= i64::MAX,
        decreases end - i,
    {
        let c = chars[i];
        assert(c == digits[i - begin]);
        if !(c >= '0' && c <= '9') {
            return None;
        }
        let digit = (c as u32 - '0' as u32) as u64;
        proof {
            lemma_decimal_value_step(digits, i - begin);
            lemma_decimal_value_prefix(digits, i - begin + 1);
        }
        if magnitude > (0x7fff_ffff_ffff_ffff - digit) / 10 {
            return None;
        }
        magnitude = magnitude * 10 + digit;
        assert forall|k: int| 0 <= k < i - begin + 1 implies is_digit(
            #[trigger] digits.take(i - begin + 1)[k],
        ) by {
            if k < i - begin {
                assert(digits.take(i - begin)[k] == digits[k]);
            }
        }
        i += 1;
    }
    assert(digits.take(end - begin) == digits);
    if first == '-' {
        Some(-(magnitude as i64))
    } else {
        Some(magnitude as i64)
    }
}

/// The temperature that the sensor text `content` reports, in thousandths of a degree.
pub fn read_millidegrees(content: &str) -> (reading: Result<i64, SensorParseError>)
    ensures
        match reading {
            Ok(value) => reading_token(content@) matches Some(token) && millidegrees(token) == Some(
                value as int,
            ),
            Err(SensorParseError::NoTemperature) => reading_token(content@) is None,
            Err(SensorParseError::NotANumber(text)) => reading_token(content@) == Some(text@)
                && millidegrees(text@) is None,
        },
{
    let chars = to_chars(content);
    match find_last_marker(&chars) {
        None => Err(SensorParseError::NoTemperature),
        Some(marker) => {
            assert(marker + 2 <= chars.len());
            let start = skip_spaces_from(&chars, marker + 2);
            let end = skip_token_from(&chars, start);
            match parse_millidegrees(&chars, start, end) {
                Some(value) => Ok(value),
                None => Err(
                    SensorParseError::NotANumber(
                        String::from_str(content.substring_char(start, end)),
                    ),
                ),
            }
        },
    }
}

/// The text of one decimal digit.
fn digit_text(digit: u64) -> (text: &'static str)
    requires
        digit < 10,
    ensures
        text@ == seq![digit_chars()[digit as int]],
{
    proof {
        reveal_strlit("0");
        reveal_strlit("1");
        reveal_strlit("2");
        reveal_strlit("3");
        reveal_strlit("4");
        reveal_strlit("5");
        reveal_strlit("6");
        reveal_strlit("7");
        reveal_strlit("8");
        reveal_strlit("9");
    }
    let text = if digit == 0 {
        "0"
    } else if digit == 1 {
        "1"
    } else if digit == 2 {
        "2"
    } else if digit == 3 {
        "3"
    } else if digit == 4 {
        "4"
    } else if digit == 5 {
        "5"
    } else if digit == 6 {
        "6"
    } else if digit == 7 {
        "7"
    } else if digit == 8 {
        "8"
    } else {
        "9"
    };
    assert(text@ =~= seq![digit_chars()[digit as int]]);
    text
}

/// Appends the decimal digits of `n` to `out`.
fn append_decimal(out: &mut String, n: u64)
    ensures
        final(out)@ == old(out)@ + decimal_digits(n as nat),
    decreases n,
{
    if n >= 10 {
        append_decimal(out, n / 10);
    }
    out.append(digit_text(n % 10));
    assert(out@ =~= old(out)@ + decimal_digits(n as nat));
}

/// A temperature of `value` thousandths of a degree, in degrees with one decimal place.
pub fn format_celsius(value: i64) -> (text: String)
    ensures
        text@ == celsius_text(value as int),
{
    let magnitude: u64 = if value < 0 {
        (-(value + 1)) as u64 + 1
    } else {
        value as u64
    };
    let rounded = (magnitude + 50) / 100;
    assert(rounded == tenths(value as int));
    let mut text = String::new();
    if value < 0 {
        proof {
            reveal_strlit("-");
        }
        text.append("-");
    }
    append_decimal(&mut text, rounded / 10);
    proof {
        reveal_strlit(".");
    }
    text.append(".");
    text.append(digit_text(rounded % 10));
    assert(text@ =~= celsius_text(value as int));
    text
}

/// The overlay line for the sensor text `content`: the temperature in degrees Celsius,
/// or a line that says why there is none.
pub fn temperature_line(content: &str) -> (line: String)
    ensures
        line@ == temperature_text(content@),
{
    match read_millidegrees(content) {
        Ok(value) => {
            let mut line = String::from_str("Temp.: ");
            let degrees = format_celsius(value);
            line.append(degrees.as_str());
            line.append(" \u{b0}C");
            line
        },
        Err(SensorParseError::NoTemperature) => String::from_str("No temperature found"),
        Err(SensorParseError::NotANumber(token)) => {
            let mut line = String::from_str("Error parsing temperature ");
            line.append(token.as_str());
            line
        },
    }
}

} // verus!
