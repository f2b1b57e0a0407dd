//! The owner of a process: the user identifier named in the process's status
//! record, and the account name that the system's user database has for it.

use crate::text::chars_of;
use vstd::prelude::*;

verus! {

/// The name shown for a process whose owner cannot be told.
pub open spec fn unknown_user() -> Seq<char> {
    "Unknown"@
}

/// The label that begins the line of a status record that names the owner.
pub open spec fn uid_label() -> Seq<char> {
    seq!['U', 'i', 'd', ':']
}

/// The characters with the Unicode property `White_Space`.
pub open spec fn is_whitespace(c: char) -> bool {
    let code = c as u32;
    ||| 0x09 <= code <= 0x0D
    ||| code == 0x20
    ||| code == 0x85
    ||| code == 0xA0
    ||| code == 0x1680
    ||| 0x2000 <= code <= 0x200A
    ||| code == 0x2028
    ||| code == 0x2029
    ||| code == 0x202F
    ||| code == 0x205F
    ||| code == 0x3000
}

/// The decimal digits `0` to `9`.
pub open spec fn is_digit(c: char) -> bool {
    0x30 <= c as u32 <= 0x39
}

/// The number that a decimal digit stands for.
pub open spec fn digit_value(c: char) -> nat {
    (c as u32 - 0x30) as nat
}

/// The number that a sequence of decimal digits stands for.
pub open spec fn decimal_value(digits: Seq<char>) -> nat
    decreases digits.len(),
{
    if digits.len() == 0 {
        0
    } else {
        decimal_value(digits.drop_last()) * 10 + digit_value(digits.last())
    }
}

/// Whether `digits` holds decimal digits only.
pub open spec fn all_digits(digits: Seq<char>) -> bool {
    forall|i: int| 0 <= i < digits.len() ==> is_digit(#[trigger] digits[i])
}

/// The number that `token` denotes: one or more decimal digits, with or
/// without a plus sign before them, whose value fits in 32 bits.
pub open spec fn parsed_u32(token: Seq<char>) -> Option<u32> {
    let digits = if token.len() > 0 && token[0] == '+' {
        token.drop_first()
    } else {
        token
    };
    if digits.len() > 0 && all_digits(digits) && decimal_value(digits) <= u32::MAX {
        Some(decimal_value(digits) as u32)
    } else {
        None
    }
}

/// Whether the label stands in `text` at position `at`.
pub open spec fn label_at(text: Seq<char>, at: int) -> bool {
    at + 4 <= text.len() && text.subrange(at, at + 4) == uid_label()
}

/// The start of the first line that begins with the label, looking from
/// position `at` on; `line_start` says whether a line starts at `at`. Lines
/// end with a line feed.
pub open spec fn uid_line_from(text: Seq<char>, at: int, line_start: bool) -> Option<int>
    decreases text.len() - at,
{
    if at >= text.len() {
        None
    } else if line_start && label_at(text, at) {
        Some(at)
    } else {
        uid_line_from(text, at + 1, text[at] == '\n')
    }
}

/// The end of the line that holds position `from`: the position of the next
/// line feed, or the end of the text.
pub open spec fn line_end(text: Seq<char>, from: int) -> int
    decreases text.len() - from,
{
    if from >= text.len() || text[from] == '\n' {
        from
    } else {
        line_end(text, from + 1)
    }
}

/// The first position from `from` on, and before `end`, that holds no white
/// space; `end` if there is none.
pub open spec fn skip_whitespace(text: Seq<char>, from: int, end: int) -> int
    decreases end - from,
{
    if from >= end || !is_whitespace(text[from]) {
        from
    } else {
        skip_whitespace(text, from + 1, end)
    }
}

/// The first position from `from` on, and before `end`, that holds white
/// space; `end` if there is none.
pub open spec fn skip_token(text: Seq<char>, from: int, end: int) -> int
    decreases end - from,
{
    if from >= end || is_whitespace(text[from]) {
        from
    } else {
        skip_token(text, from + 1, end)
    }
}

/// The second of the tokens, separated by white space, that stand between
/// `start` and `end`; `None` if there are fewer than two.
pub open spec fn second_token(text: Seq<char>, start: int, end: int) -> Option<Seq<char>> {
    let first = skip_whitespace(text, start, end);
    let gap = skip_token(text, first, end);
    let second = skip_whitespace(text, gap, end);
    if second < end {
        Some(text.subrange(second, skip_token(text, second, end)))
    } else {
        None
    }
}

/// The user identifier that a status record names: on the first line that
/// begins with `Uid:`, the second token, read as a decimal number. `None` if
/// there is no such line, if it has no second token, or if that token is no
/// number of 32 bits.
pub open spec fn uid_of_status(text: Seq<char>) -> Option<u32> {
    match uid_line_from(text, 0, true) {
        None => None,
        Some(start) => match second_token(text, start, line_end(text, start)) {
            None => None,
            Some(token) => parsed_u32(token),
        },
    }
}

/// Whether `c` is white space.
pub fn is_whitespace_char(c: char) -> (yes: bool)
    ensures
        yes == is_whitespace(c),
{
    let code: u32 = c as u32;
    (0x09 <= code && code <= 0x0D) || code == 0x20 || code == 0x85 || code == 0xA0 || code
        == 0x1680 || (0x2000 <= code && code <= 0x200A) || code == 0x2028 || code == 0x2029
        || code == 0x202F || code == 0x205F || code == 0x3000
}

/// The start of the first line of `text` that begins with `Uid:`.
pub fn find_uid_line(text: &Vec<char>) -> (found: Option<usize>)
    ensures
        match found {
            Some(start) => uid_line_from(text@, 0, true) == Some(start as int) && start + 4
                <= text@.len(),
            None => uid_line_from(text@, 0, true) is None,
        },
{
    let mut at: usize = 0;
    let mut line_start: bool = true;
    while at < text.len()
        invariant
            at <= text.len(),
            uid_line_from(text@, 0, true) == uid_line_from(text@, at as int, line_start),
        decreases text.len() - at,
    {
        if line_start && text.len() - at >= 4 && text[at] == 'U' && text[at + 1] == 'i' && text[at
            + 2] == 'd' && text[at + 3] == ':' {
            proof {
                assert(text@.subrange(at as int, at + 4) =~= uid_label());
            }
            return Some(at);
        }
        proof {
            if at + 4 <= text@.len() {
                let found = text@.subrange(at as int, at + 4);
                assert(found[0] == text@[at as int]);
                assert(found[1] == text@[at + 1]);
                assert(found[2] == text@[at + 2]);
                assert(found[3] == text@[at + 3]);
            }
        }
        line_start = text[at] == '\n';
        at = at + 1;
    }
    None
}

/// The end of the line of `text` that holds position `from`.
pub fn find_line_end(text: &Vec<char>, from: usize) -> (end: usize)
    requires
        from <= text@.len(),
    ensures
        end == line_end(text@, from as int),
        from <= end <= text@.len(),
{
    let mut at: usize = from;
    while at < text.len() && text[at] != '\n'
        invariant
            from <= at <= text.len(),
            line_end(text@, from as int) == line_end(text@, at as int),
        decreases text.len() - at,
    {
        at = at + 1;
    }
    at
}

/// The first position from `from` on, and before `end`, that holds no white
/// space.
pub fn skip_whitespace_in(text: &Vec<char>, from: usize, end: usize) -> (at: usize)
    requires
        from <= end <= text@.len(),
    ensures
        at == skip_whitespace(text@, from as int, end as int),
        from <= at <= end,
{
    let mut at: usize = from;
    while at < end && is_whitespace_char(text[at])
        invariant
            from <= at <= end <= text@.len(),
            skip_whitespace(text@, from as int, end as int) == skip_whitespace(
                text@,
                at as int,
                end as int,
            ),
        decreases end - at,
    {
        at = at + 1;
    }
    at
}

/// The first position from `from` on, and before `end`, that holds white
/// space.
pub fn skip_token_in(text: &Vec<char>, from: usize, end: usize) -> (at: usize)
    requires
        from <= end <= text@.len(),
    ensures
        at == skip_token(text@, from as int, end as int),
        from <= at <= end,
{
    let mut at: usize = from;
    while at < end && !is_whitespace_char(text[at])
        invariant
            from <= at <= end <= text@.len(),
            skip_token(text@, from as int, end as int) == skip_token(text@, at as int, end as int),
        decreases end - at,
    {
        at = at + 1;
    }
    at
}

/// A number is at least the number that any of its leading digits denote.
pub proof fn lemma_decimal_value_grows(digits: Seq<char>, count: int)
    requires
        0 <= count <= digits.len(),
    ensures
        decimal_value(digits.take(count)) <= decimal_value(digits),
    decreases digits.len() - count,
{
    if count < digits.len() {
        lemma_decimal_value_grows(digits, count + 1);
        assert(digits.take(count + 1).drop_last() =~= digits.take(count));
    } else {
        assert(digits.take(count) =~= digits);
    }
}

/// Reads the characters of `text` from `from` to `to` as a number of 32 bits.
pub fn parse_u32_in(text: &Vec<char>, from: usize, to: usize) -> (number: Option<u32>)
    requires
        from <= to <= text@.len(),
    ensures
        number == parsed_u32(text@.subrange(from as int, to as int)),
{
    let ghost token = text@.subrange(from as int, to as int);
    let first: usize = if from < to && text[from] == '+' {
        from + 1
    } else {
        from
    };
    let ghost digits = text@.subrange(first as int, to as int);
    proof {
        if from < to {
            assert(token[0] == text@[from as int]);
        }
        if first > from {
            assert(token.drop_first() =~= digits);
        } else {
            assert(token =~= digits);
        }
        assert(digits.take(0) =~= Seq::<char>::empty());
    }
    if first == to {
        return None;
    }
    let mut value: u64 = 0;
    let mut at: usize = first;
    while at < to
        invariant
            first <= at <= to <= text@.len(),
            digits == text@.subrange(first as int, to as int),
            parsed_u32(text@.subrange(from as int, to as int)) == (if digits.len() > 0
                && all_digits(digits) && decimal_value(digits) <= u32::MAX {
                Some(decimal_value(digits) as u32)
            } else {
                None
            }),
            all_digits(digits.take(at - first)),
            value == decimal_value(digits.take(at - first)),
            value <= u32::MAX,
        decreases to - at,
    {
        let code: u32 = text[at] as u32;
        let ghost seen = digits.take(at - first + 1);
        proof {
            assert(digits[at - first] == text@[at as int]);
            assert(seen.drop_last() =~= digits.take(at - first));
            assert(seen.last() == text@[at as int]);
        }
        if code < 0x30 || code > 0x39 {
            proof {
                assert(!is_digit(digits[at - first]));
            }
            return None;
        }
        value = value * 10 + (code - 0x30) as u64;
        if value > 0xffff_ffff {
            proof {
                lemma_decimal_value_grows(digits, at - first + 1);
            }
            return None;
        }
        proof {
            assert forall|i: int| 0 <= i < seen.len() implies is_digit(#[trigger] seen[i]) by {
                if i < seen.len() - 1 {
                    assert(seen[i] == digits.take(at - first)[i]);
                }
            }
        }
        at = at + 1;
    }
    proof {
        assert(digits.take(to - first) =~= digits);
    }
    Some(value as u32)
}

/// The user identifier that the status record `status` names.
pub fn parse_uid(status: &str) -> (uid: Option<u32>)
    ensures
        uid == uid_of_status(status@),
{
    let text = chars_of(status);
    match find_uid_line(&text) {
        None => None,
        Some(start) => {
            let end = find_line_end(&text, start);
            let first = skip_whitespace_in(&text, start, end);
            let gap = skip_token_in(&text, first, end);
            let second = skip_whitespace_in(&text, gap, end);
            if second < end {
                let stop = skip_token_in(&text, second, end);
                parse_u32_in(&text, second, stop)
            } else {
                None
            }
        },
    }
}

/// Looks `uid` up in the system's user database, with
/// `users::get_user_by_uid`, and returns the account's name. The answer
/// depends on the database, so nothing is claimed of it: `None` stands for an
/// identifier that the database does not hold, and for a failed lookup.
#[verifier::external_body]
fn lookup_user_name(uid: u32) -> (name: Option<String>) {
    match users::get_user_by_uid(uid) {
        Some(user) => Some(user.name().to_string_lossy().to_string()),
        None => None,
    }
}

/// The name to show for a user, given what the user database answered: the
/// account's name, or `Unknown` where there was none.
pub fn user_name_or_unknown(found: Option<String>) -> (name: String)
    ensures
        name@ == match found {
            Some(account) => account@,
            None => unknown_user(),
        },
{
    match found {
        Some(account) => account,
        None => "Unknown".to_owned(),
    }
}

/// The name to show for the owner of a process, given the text of its status
/// record, or `None` where the record could not be read. A record that cannot
/// be read or that names no user identifier gives `Unknown`, and so does an
/// identifier that the user database does not know: nothing here fails.
pub fn process_user(status: &Option<String>) -> (name: String)
    ensures
        status is None ==> name@ == unknown_user(),
        status is Some && uid_of_status(status->0@) is None ==> name@ == unknown_user(),
{
    match status {
        None => user_name_or_unknown(None),
        Some(text) => match parse_uid(text.as_str()) {
            None => user_name_or_unknown(None),
            Some(uid) => user_name_or_unknown(lookup_user_name(uid)),
        },
    }
}

} // verus!
