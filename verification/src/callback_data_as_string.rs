//! The text form of what a button carries. The main menu's button carries
//! `"ActionSend"`, quotes included; the button of a chat carries
//! `{"SendTo":` and the chat's id in decimal, then `}`.

use crate::entities::CallbackData;
use vstd::prelude::*;
use vstd::std_specs::iter::IteratorSpec;
use vstd::string::StringExecFns;

verus! {

/// The text of the main menu's button.
pub const ACTION_SEND_TOKEN: &'static str = "\"ActionSend\"";

/// What stands before the chat's id in the text of a chat's button.
pub const SEND_TO_PREFIX: &'static str = "{\"SendTo\":";

/// What stands behind the chat's id in the text of a chat's button.
pub const SEND_TO_SUFFIX: &'static str = "}";

/// The decimal digit for `d`.
pub open spec fn digit_char(d: nat) -> char {
    if d == 0 {
        '0'
    } else if d == 1 {
        '1'
    } else if d == 2 {
        '2'
    } else if d == 3 {
        '3'
    } else if d == 4 {
        '4'
    } else if d == 5 {
        '5'
    } else if d == 6 {
        '6'
    } else if d == 7 {
        '7'
    } else if d == 8 {
        '8'
    } else {
        '9'
    }
}

/// The decimal form of `n`, without leading zeros.
pub open spec fn decimal(n: nat) -> Seq<char>
    decreases n,
{
    if n < 10 {
        seq![digit_char(n)]
    } else {
        decimal(n / 10).push(digit_char(n % 10))
    }
}

/// The decimal form of `n`, with a minus sign where `n` is negative.
pub open spec fn integer_text(n: int) -> Seq<char> {
    if n < 0 {
        seq!['-'] + decimal((-n) as nat)
    } else {
        decimal(n as nat)
    }
}

/// The text form of `data`.
pub open spec fn encoded(data: CallbackData) -> Seq<char> {
    match data {
        CallbackData::ActionSend => ACTION_SEND_TOKEN@,
        CallbackData::SendTo(chat_id) => SEND_TO_PREFIX@ + integer_text(chat_id as int)
            + SEND_TO_SUFFIX@,
    }
}

fn digit_str(d: u64) -> (s: &'static str)
    requires
        d < 10,
    ensures
        s@ == seq![digit_char(d as nat)],
{
    proof {
        reveal_strlit("0");
        reveal_strlit("1");
        reveal_strlit("2");
        reveal_strlit("3");
        reveal_strlit("4");
        reveal_strlit("5");
        reveal_strlit("6");
        reveal_strlit("7");
        reveal_strlit("8");
        reveal_strlit("9");
    }
    let s = if d == 0 {
        "0"
    } else if d == 1 {
        "1"
    } else if d == 2 {
        "2"
    } else if d == 3 {
        "3"
    } else if d == 4 {
        "4"
    } else if d == 5 {
        "5"
    } else if d == 6 {
        "6"
    } else if d == 7 {
        "7"
    } else if d == 8 {
        "8"
    } else {
        "9"
    };
    assert(s@ =~= seq![digit_char(d as nat)]);
    s
}

fn push_decimal(out: &mut String, n: u64)
    ensures
        final(out)@ == old(out)@ + decimal(n as nat),
    decreases n,
{
    if n >= 10 {
        push_decimal(out, n / 10);
    }
    out.append(digit_str(n % 10));
    assert(out@ =~= old(out)@ + decimal(n as nat));
}

/// The size of `n`, which is negative.
fn magnitude(n: i64) -> (m: u64)
    requires
        n < 0,
    ensures
        m == -n,
{
    if n == i64::MIN {
        0x8000_0000_0000_0000
    } else {
        (-n) as u64
    }
}

/// Writes `callback_data` as text.
pub fn serialize(callback_data: &CallbackData) -> (text: String)
    ensures
        text@ == encoded(*callback_data),
{
    match callback_data {
        CallbackData::ActionSend => String::from_str(ACTION_SEND_TOKEN),
        CallbackData::SendTo(chat_id) => {
            let mut text = String::from_str(SEND_TO_PREFIX);
            if *chat_id < 0 {
                proof {
                    reveal_strlit("-");
                }
                text.append("-");
                assert(text@ =~= SEND_TO_PREFIX@ + seq!['-']);
                push_decimal(&mut text, magnitude(*chat_id));
            } else {
                push_decimal(&mut text, *chat_id as u64);
            }
            assert(text@ =~= SEND_TO_PREFIX@ + integer_text(*chat_id as int));
            text.append(SEND_TO_SUFFIX);
            text
        },
    }
}

/// `c` is a decimal digit.
pub open spec fn is_digit(c: char) -> bool {
    c == '0' || c == '1' || c == '2' || c == '3' || c == '4' || c == '5' || c == '6' || c == '7'
        || c == '8' || c == '9'
}

/// The number that the decimal digit `c` stands for.
pub open spec fn digit_value(c: char) -> nat {
    if c == '1' {
        1
    } else if c == '2' {
        2
    } else if c == '3' {
        3
    } else if c == '4' {
        4
    } else if c == '5' {
        5
    } else if c == '6' {
        6
    } else if c == '7' {
        7
    } else if c == '8' {
        8
    } else if c == '9' {
        9
    } else {
        0
    }
}

/// The number that a string of decimal digits stands for.
pub open spec fn digits_value(s: Seq<char>) -> nat
    decreases s.len(),
{
    if s.len() == 0 {
        0
    } else {
        digits_value(s.drop_last()) * 10 + digit_value(s.last())
    }
}

/// `s` is made of decimal digits.
pub open spec fn all_digits(s: Seq<char>) -> bool {
    forall|i: int| 0 <= i < s.len() ==> is_digit(#[trigger] s[i])
}

/// `s` is the decimal form of a number: digits, at least one, and no
/// leading zero before another digit.
pub open spec fn is_decimal(s: Seq<char>) -> bool {
    s.len() > 0 && all_digits(s) && (s.len() > 1 ==> s[0] != '0')
}

/// The integer that `s` is the text of, where it is the text of one that an
/// `i64` holds. Zero has no sign.
pub open spec fn parsed_integer(s: Seq<char>) -> Option<i64> {
    if s.len() > 0 && s[0] == '-' {
        let digits = s.drop_first();
        if is_decimal(digits) && 0 < digits_value(digits) <= 0x8000_0000_0000_0000 {
            Some((-(digits_value(digits) as int)) as i64)
        } else {
            None
        }
    } else if is_decimal(s) && digits_value(s) <= i64::MAX {
        Some(digits_value(s) as i64)
    } else {
        None
    }
}

/// What `text` stands for, where it is the text form of something.
pub open spec fn decoded(text: Seq<char>) -> Option<CallbackData> {
    if text == ACTION_SEND_TOKEN@ {
        Some(CallbackData::ActionSend)
    } else if text.len() >= SEND_TO_PREFIX@.len() + SEND_TO_SUFFIX@.len() && SEND_TO_PREFIX@
        == text.subrange(0, SEND_TO_PREFIX@.len() as int) && SEND_TO_SUFFIX@ == text.subrange(
        text.len() - SEND_TO_SUFFIX@.len(),
        text.len() as int,
    ) {
        match parsed_integer(
            text.subrange(SEND_TO_PREFIX@.len() as int, text.len() - SEND_TO_SUFFIX@.len()),
        ) {
            Some(chat_id) => Some(CallbackData::SendTo(chat_id)),
            None => None,
        }
    } else {
        None
    }
}

/// The characters of `text`.
fn chars_of(text: &str) -> (chars: Vec<char>)
    ensures
        chars@ == text@,
{
    let mut chars: Vec<char> = Vec::new();
    for c in it: text.chars()
        invariant
            it.seq() == text@,
            chars@ == text@.take(it.index()),
    {
        chars.push(c);
        assert(chars@ =~= text@.take(it.index() + 1));
    }
    assert(text@.take(text@.len() as int) =~= text@);
    chars
}

/// `pattern` stands in `chars` at `at`.
fn matches_at(chars: &Vec<char>, at: usize, pattern: &Vec<char>) -> (b: bool)
    requires
        at + pattern.len() <= chars.len(),
    ensures
        b == (pattern@ == chars@.subrange(at as int, at + pattern.len())),
{
    let ghost part = chars@.subrange(at as int, at + pattern.len());
    let mut i: usize = 0;
    while i < pattern.len()
        invariant
            i <= pattern.len(),
            at + pattern.len() <= chars.len(),
            part == chars@.subrange(at as int, at + pattern.len()),
            forall|j: int| 0 <= j < i ==> pattern@[j] == part[j],
        decreases pattern.len() - i,
    {
        if pattern[i] != chars[at + i] {
            assert(pattern@[i as int] != part[i as int]);
            return false;
        }
        i = i + 1;
    }
    assert(pattern@ =~= part);
    true
}

/// The number that the digit `c` stands for; `None` for any other character.
fn digit_of(c: char) -> (d: Option<u64>)
    ensures
        d is Some <==> is_digit(c),
        d matches Some(v) ==> v == digit_value(c),
{
    if c == '0' {
        Some(0)
    } else if c == '1' {
        Some(1)
    } else if c == '2' {
        Some(2)
    } else if c == '3' {
        Some(3)
    } else if c == '4' {
        Some(4)
    } else if c == '5' {
        Some(5)
    } else if c == '6' {
        Some(6)
    } else if c == '7' {
        Some(7)
    } else if c == '8' {
        Some(8)
    } else if c == '9' {
        Some(9)
    } else {
        None
    }
}

/// A string of digits stands for no less than any of its beginnings.
proof fn lemma_prefix_value(s: Seq<char>, n: int)
    requires
        0 <= n <= s.len(),
    ensures
        digits_value(s.take(n)) <= digits_value(s),
    decreases s.len(),
{
    if n == s.len() {
        assert(s.take(n) =~= s);
    } else {
        lemma_prefix_value(s.drop_last(), n);
        assert(s.drop_last().take(n) =~= s.take(n));
    }
}

/// The number that the digits of `chars` from `from` up to `to` stand for,
/// where they are the decimal form of one that is at most 2^63.
fn parse_digits(chars: &Vec<char>, from: usize, to: usize) -> (r: Option<u64>)
    requires
        from <= to <= chars.len(),
    ensures
        ({
            let s = chars@.subrange(from as int, to as int);
            r == if is_decimal(s) && digits_value(s) <= 0x8000_0000_0000_0000 {
                Some(digits_value(s) as u64)
            } else {
                None
            }
        }),
{
    let ghost s = chars@.subrange(from as int, to as int);
    if from == to {
        return None;
    }
    if to - from > 1 && chars[from] == '0' {
        assert(s[0] == '0');
        return None;
    }
    let mut value: u64 = 0;
    let mut i: usize = from;
    while i < to
        invariant
            from <= i <= to <= chars.len(),
            s == chars@.subrange(from as int, to as int),
            all_digits(s.take(i - from)),
            value == digits_value(s.take(i - from)),
            value <= 9223372036854775809,
        decreases to - i,
    {
        let ghost done = s.take(i - from);
        let ghost next = s.take(i - from + 1);
        proof {
            assert(next.drop_last() =~= done);
            assert(next.last() == chars@[i as int]);
            lemma_prefix_value(s, i - from + 1);
        }
        let digit = match digit_of(chars[i]) {
            Some(digit) => digit,
            None => {
                assert(!is_digit(s[i - from]));
                return None;
            },
        };
        if value > 922337203685477580 {
            return None;
        }
        value = value * 10 + digit;
        i = i + 1;
        assert(all_digits(next)) by {
            assert forall|j: int| 0 <= j < next.len() implies is_digit(#[trigger] next[j]) by {
                if j < done.len() {
                    assert(done[j] == next[j]);
                }
            }
        }
    }
    assert(s.take(to - from) =~= s);
    if value > 0x8000_0000_0000_0000 {
        None
    } else {
        Some(value)
    }
}

/// The integer that the characters of `chars` from `from` up to `to` are the
/// text of.
fn parse_integer(chars: &Vec<char>, from: usize, to: usize) -> (r: Option<i64>)
    requires
        from <= to <= chars.len(),
    ensures
        r == parsed_integer(chars@.subrange(from as int, to as int)),
{
    let ghost s = chars@.subrange(from as int, to as int);
    if from < to && chars[from] == '-' {
        assert(s[0] == '-');
        assert(s.drop_first() =~= chars@.subrange(from + 1, to as int));
        match parse_digits(chars, from + 1, to) {
            Some(value) => {
                if value == 0 {
                    None
                } else if value == 0x8000_0000_0000_0000 {
                    Some(i64::MIN)
                } else {
                    Some(-(value as i64))
                }
            },
            None => None,
        }
    } else {
        if from < to {
            assert(s[0] != '-');
        }
        match parse_digits(chars, from, to) {
            Some(value) => {
                if value > 0x7fff_ffff_ffff_ffff {
                    None
                } else {
                    Some(value as i64)
                }
            },
            None => None,
        }
    }
}

/// The answer to a text that is the text form of nothing.
#[derive(Debug, Clone, Copy, PartialEq, Eq, Structural)]
pub struct InvalidCallbackData;

/// What reading `text` gives: what it stands for, or the error.
pub open spec fn deserialized(text: Seq<char>) -> Result<CallbackData, InvalidCallbackData> {
    match decoded(text) {
        Some(callback_data) => Ok(callback_data),
        None => Err(InvalidCallbackData),
    }
}

/// Reads `text` back: the inverse of [`serialize`]. A text that `serialize`
/// does not produce is an error.
pub fn deserialize(text: &str) -> (callback_data: Result<CallbackData, InvalidCallbackData>)
    ensures
        callback_data == deserialized(text@),
{
    let chars = chars_of(text);
    let token = chars_of(ACTION_SEND_TOKEN);
    let prefix = chars_of(SEND_TO_PREFIX);
    let suffix = chars_of(SEND_TO_SUFFIX);
    if chars.len() == token.len() && matches_at(&chars, 0, &token) {
        assert(chars@.subrange(0, token.len() as int) =~= chars@);
        return Ok(CallbackData::ActionSend);
    }
    proof {
        if chars.len() == token.len() {
            assert(chars@.subrange(0, token.len() as int) =~= chars@);
        }
    }
    if prefix.len() > chars.len() || suffix.len() > chars.len() - prefix.len() {
        return Err(InvalidCallbackData);
    }
    let end = chars.len() - suffix.len();
    if !matches_at(&chars, 0, &prefix) || !matches_at(&chars, end, &suffix) {
        return Err(InvalidCallbackData);
    }
    match parse_integer(&chars, prefix.len(), end) {
        Some(chat_id) => Ok(CallbackData::SendTo(chat_id)),
        None => Err(InvalidCallbackData),
    }
}

/// The decimal form of a number is a decimal, and stands for that number.
pub proof fn lemma_decimal(n: nat)
    ensures
        is_decimal(decimal(n)),
        digits_value(decimal(n)) == n,
        n > 0 ==> decimal(n)[0] != '0',
    decreases n,
{
    if n < 10 {
        let s = decimal(n);
        assert(s.drop_last() =~= Seq::<char>::empty());
        assert(digits_value(s.drop_last()) == 0);
    } else {
        lemma_decimal(n / 10);
        let head = decimal(n / 10);
        let s = decimal(n);
        assert(s.drop_last() =~= head);
        assert(s[0] == head[0]);
        assert forall|i: int| 0 <= i < s.len() implies is_digit(#[trigger] s[i]) by {
            if i < head.len() {
                assert(s[i] == head[i]);
            }
        }
    }
}

/// A decimal with digits before the last stands for ten or more.
proof fn lemma_leading_digit(s: Seq<char>)
    requires
        all_digits(s),
        s.len() > 0,
        s[0] != '0',
    ensures
        digits_value(s) >= 1,
        s.len() > 1 ==> digits_value(s) >= 10,
    decreases s.len(),
{
    if s.len() > 1 {
        let head = s.drop_last();
        assert(head[0] == s[0]);
        assert forall|i: int| 0 <= i < head.len() implies is_digit(#[trigger] head[i]) by {
            assert(head[i] == s[i]);
        }
        lemma_leading_digit(head);
    } else {
        assert(s.drop_last() =~= Seq::<char>::empty());
        assert(is_digit(s[0]));
    }
}

/// A decimal is the decimal form of the number that it stands for.
pub proof fn lemma_decimal_of_value(s: Seq<char>)
    requires
        is_decimal(s),
    ensures
        decimal(digits_value(s)) == s,
    decreases s.len(),
{
    assert(is_digit(s.last()));
    if s.len() == 1 {
        assert(s.drop_last() =~= Seq::<char>::empty());
        assert(digits_value(s.drop_last()) == 0);
        let d = digit_value(s.last());
        assert(digits_value(s) == d);
        assert(d < 10 && digit_char(d) == s[0]);
        assert(decimal(d) =~= s);
    } else {
        let head = s.drop_last();
        assert(head[0] == s[0]);
        assert forall|i: int| 0 <= i < head.len() implies is_digit(#[trigger] head[i]) by {
            assert(head[i] == s[i]);
        }
        lemma_leading_digit(head);
        lemma_decimal_of_value(head);
        let v = digits_value(head);
        let d = digit_value(s.last());
        assert(digits_value(s) == v * 10 + d);
        assert(d < 10 && digit_char(d) == s.last());
        let n = (v * 10 + d) as nat;
        assert(n >= 10 && n / 10 == v && n % 10 == d);
        assert(decimal(n) == decimal(n / 10).push(digit_char(n % 10)));
        assert(head.push(s.last()) =~= s);
    }
}

/// Reading the text of an integer gives the integer back.
pub proof fn lemma_parsed_integer(n: i64)
    ensures
        parsed_integer(integer_text(n as int)) == Some(n),
{
    let s = integer_text(n as int);
    if n < 0 {
        let m = (-n) as nat;
        lemma_decimal(m);
        assert(s.drop_first() =~= decimal(m));
        assert(s[0] == '-');
    } else {
        lemma_decimal(n as nat);
        assert(is_digit(s[0]));
    }
}

/// An integer that was read from a text has that text.
pub proof fn lemma_integer_text(s: Seq<char>, n: i64)
    requires
        parsed_integer(s) == Some(n),
    ensures
        integer_text(n as int) == s,
{
    if s.len() > 0 && s[0] == '-' {
        let digits = s.drop_first();
        lemma_decimal_of_value(digits);
        assert(seq!['-'] + digits =~= s);
    } else {
        lemma_decimal_of_value(s);
    }
}

/// What was written as text is read back as it was.
pub proof fn lemma_deserialize_serialize(data: CallbackData)
    ensures
        decoded(encoded(data)) == Some(data),
{
    reveal_strlit("\"ActionSend\"");
    reveal_strlit("{\"SendTo\":");
    reveal_strlit("}");
    match data {
        CallbackData::ActionSend => {},
        CallbackData::SendTo(chat_id) => {
            let body = integer_text(chat_id as int);
            let text = encoded(data);
            lemma_parsed_integer(chat_id);
            assert(text.len() == SEND_TO_PREFIX@.len() + body.len() + SEND_TO_SUFFIX@.len());
            assert(text[0] == '{');
            assert(ACTION_SEND_TOKEN@[0] == '"');
            assert(text != ACTION_SEND_TOKEN@);
            assert(text.subrange(0, SEND_TO_PREFIX@.len() as int) =~= SEND_TO_PREFIX@);
            assert(text.subrange(text.len() - SEND_TO_SUFFIX@.len(), text.len() as int)
                =~= SEND_TO_SUFFIX@);
            assert(text.subrange(
                SEND_TO_PREFIX@.len() as int,
                text.len() - SEND_TO_SUFFIX@.len(),
            ) =~= body);
        },
    }
}

/// A text that is read as something is the text form of that thing: no two
/// texts stand for the same.
pub proof fn lemma_serialize_deserialize(text: Seq<char>, data: CallbackData)
    requires
        decoded(text) == Some(data),
    ensures
        encoded(data) == text,
{
    if text != ACTION_SEND_TOKEN@ {
        let from = SEND_TO_PREFIX@.len() as int;
        let to = text.len() - SEND_TO_SUFFIX@.len();
        let body = text.subrange(from, to);
        let chat_id = parsed_integer(body)->0;
        lemma_integer_text(body, chat_id);
        assert(text =~= text.subrange(0, from) + body + text.subrange(to, text.len() as int));
    }
}

} // verus!
