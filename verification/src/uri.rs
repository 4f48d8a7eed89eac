//! Addresses that name something to play: the last two parts of the path
//! say what it is and which one.

use crate::actions::{request_view, Request, RequestView};
use crate::text::{decimal_nat, digit_char, same_text};
use vstd::prelude::*;
use vstd::string::{StrSliceExecFns, StringExecFns};

verus! {

/// The index of the last slash before `end`, or -1 where there is none.
pub open spec fn last_slash_before(text: Seq<char>, end: int) -> int
    decreases end,
{
    if end <= 0 || end > text.len() {
        -1
    } else if text[end - 1] == '/' {
        end - 1
    } else {
        last_slash_before(text, end - 1)
    }
}

/// The last two parts of a path: what stands between the last two slashes,
/// and what stands behind the last one. Nothing for a text with fewer than
/// two slashes.
pub open spec fn last_two_parts(uri: Seq<char>) -> Option<(Seq<char>, Seq<char>)> {
    let last = last_slash_before(uri, uri.len() as int);
    let before = last_slash_before(uri, last);
    if last < 0 || before < 0 {
        None
    } else {
        Some((uri.subrange(before + 1, last), uri.subrange(last + 1, uri.len() as int)))
    }
}

/// The value of a decimal digit.
pub open spec fn digit_value(c: char) -> Option<nat> {
    if c == '0' {
        Some(0)
    } else if c == '1' {
        Some(1)
    } else if c == '2' {
        Some(2)
    } else if c == '3' {
        Some(3)
    } else if c == '4' {
        Some(4)
    } else if c == '5' {
        Some(5)
    } else if c == '6' {
        Some(6)
    } else if c == '7' {
        Some(7)
    } else if c == '8' {
        Some(8)
    } else if c == '9' {
        Some(9)
    } else {
        None
    }
}

/// The number that the first `upto` characters of a text spell in decimal
/// digits; nothing where one of them is no digit.
pub open spec fn digits_value(text: Seq<char>, upto: nat) -> Option<nat>
    decreases upto,
{
    if upto == 0 || upto > text.len() {
        Some(0)
    } else {
        match (digits_value(text, (upto - 1) as nat), digit_value(text[upto - 1])) {
            (Some(front), Some(last)) => Some(front * 10 + last),
            _ => None,
        }
    }
}

/// The number that a text spells in decimal digits, where it is made of
/// digits only, of one at least, and the number is no greater than `limit`.
pub open spec fn number_within(text: Seq<char>, limit: nat) -> Option<nat> {
    if text.len() == 0 {
        None
    } else {
        match digits_value(text, text.len()) {
            Some(value) => if value <= limit {
                Some(value)
            } else {
                None
            },
            None => None,
        }
    }
}

/// The index of the last slash among the first `end` characters.
fn last_slash(chars: &Vec<char>, end: usize) -> (index: Option<usize>)
    requires
        end <= chars@.len(),
    ensures
        match index {
            Some(index) => last_slash_before(chars@, end as int) == index && index < end,
            None => last_slash_before(chars@, end as int) == -1,
        },
{
    let mut i = end;
    while i > 0
        invariant
            i <= end <= chars@.len(),
            last_slash_before(chars@, end as int) == last_slash_before(chars@, i as int),
        decreases i,
    {
        if chars[i - 1] == '/' {
            return Some(i - 1);
        }
        i -= 1;
    }
    None
}

/// The characters of a text.
fn characters(text: &str) -> (chars: Vec<char>)
    ensures
        chars@ == text@,
{
    broadcast use vstd::string::group_string_axioms;

    let mut chars: Vec<char> = Vec::new();
    for c in it: text.chars()
        invariant
            it.seq() == text@,
            chars@ == text@.take(it.index()),
    {
        chars.push(c);
        assert(chars@ =~= text@.take(it.index() + 1));
    }
    assert(text@.take(text@.len() as int) =~= text@);
    chars
}

/// The value of a decimal digit.
fn digit_of(c: char) -> (value: Option<u64>)
    ensures
        match value {
            Some(value) => digit_value(c) == Some(value as nat),
            None => digit_value(c) is None,
        },
{
    if c == '0' {
        Some(0)
    } else if c == '1' {
        Some(1)
    } else if c == '2' {
        Some(2)
    } else if c == '3' {
        Some(3)
    } else if c == '4' {
        Some(4)
    } else if c == '5' {
        Some(5)
    } else if c == '6' {
        Some(6)
    } else if c == '7' {
        Some(7)
    } else if c == '8' {
        Some(8)
    } else if c == '9' {
        Some(9)
    } else {
        None
    }
}

/// What is no number at some point is no number further on.
proof fn lemma_digits_stay_none(text: Seq<char>, at: nat, upto: nat)
    requires
        at <= upto <= text.len(),
        digits_value(text, at) is None,
    ensures
        digits_value(text, upto) is None,
    decreases upto,
{
    if at < upto {
        lemma_digits_stay_none(text, at, (upto - 1) as nat);
    }
}

/// The value only grows with more digits.
proof fn lemma_digits_grow(text: Seq<char>, at: nat, upto: nat)
    requires
        at <= upto <= text.len(),
        digits_value(text, upto) is Some,
    ensures
        digits_value(text, at) is Some,
        digits_value(text, at)->0 <= digits_value(text, upto)->0,
    decreases upto,
{
    if at < upto {
        lemma_digits_grow(text, at, (upto - 1) as nat);
    }
}

/// The number that a text spells in decimal digits, where it is made of
/// digits only, of one at least, and the number is no greater than `limit`.
pub fn parse_number(text: &str, limit: u64) -> (number: Option<u64>)
    ensures
        match number {
            Some(number) => number_within(text@, limit as nat) == Some(number as nat),
            None => number_within(text@, limit as nat) is None,
        },
{
    let chars = characters(text);
    if chars.len() == 0 {
        return None;
    }
    let mut value: u64 = 0;
    let mut i: usize = 0;
    while i < chars.len()
        invariant
            i <= chars@.len(),
            chars@ == text@,
            chars@.len() > 0,
            digits_value(text@, i as nat) == Some(value as nat),
            value <= limit,
        decreases chars@.len() - i,
    {
        match digit_of(chars[i]) {
            Some(digit) => {
                let next: u128 = value as u128 * 10 + digit as u128;
                if next > limit as u128 {
                    proof {
                        assert(digits_value(text@, (i + 1) as nat) == Some(next as nat));
                        if digits_value(text@, text@.len()) is Some {
                            lemma_digits_grow(text@, (i + 1) as nat, text@.len());
                        }
                    }
                    return None;
                }
                value = next as u64;
            },
            None => {
                proof {
                    assert(digits_value(text@, (i + 1) as nat) is None);
                    lemma_digits_stay_none(text@, (i + 1) as nat, text@.len());
                }
                return None;
            },
        }
        i += 1;
    }
    Some(value)
}

/// What an address names: an album, a playlist or a track, told by the part
/// of the path before the last one, with the last part as its id. The id of
/// an album is any text but the empty one; the id of a playlist or a track is
/// a number in decimal digits. Any other address names nothing.
pub open spec fn target_of(uri: Seq<char>) -> Option<RequestView> {
    match last_two_parts(uri) {
        Some((kind, id)) => if kind == "album"@ {
            if id.len() > 0 {
                Some(RequestView::Album { album_id: id })
            } else {
                None
            }
        } else if kind == "playlist"@ {
            match number_within(id, i64::MAX as nat) {
                Some(number) => Some(RequestView::Playlist { playlist_id: number as i64 }),
                None => None,
            }
        } else if kind == "track"@ {
            match number_within(id, i32::MAX as nat) {
                Some(number) => Some(RequestView::Track { track_id: number as i32 }),
                None => None,
            }
        } else {
            None
        },
        None => None,
    }
}

/// The request for what an address names; nothing for an address that names
/// nothing.
pub fn resolve(uri: &str) -> (request: Option<Request>)
    ensures
        request_view(request) == target_of(uri@),
{
    proof {
        reveal_strlit("album");
        reveal_strlit("playlist");
        reveal_strlit("track");
        assert("album"@.len() == 5);
        assert("playlist"@.len() == 8);
        assert("track"@.len() == 5);
        assert("album"@[0] == 'a');
        assert("track"@[0] == 't');
    }
    let chars = characters(uri);
    let last = match last_slash(&chars, chars.len()) {
        Some(last) => last,
        None => {
            return None;
        },
    };
    let before = match last_slash(&chars, last) {
        Some(before) => before,
        None => {
            return None;
        },
    };
    let length = uri.unicode_len();
    let kind = uri.substring_char(before + 1, last);
    let id = uri.substring_char(last + 1, length);
    if same_text(kind, "album") {
        if last + 1 < length {
            Some(Request::Album { album_id: String::from_str(id) })
        } else {
            None
        }
    } else if same_text(kind, "playlist") {
        match parse_number(id, i64::MAX as u64) {
            Some(number) => Some(Request::Playlist { playlist_id: number as i64 }),
            None => None,
        }
    } else if same_text(kind, "track") {
        match parse_number(id, i32::MAX as u64) {
            Some(number) => Some(Request::Track { track_id: number as i32 }),
            None => None,
        }
    } else {
        None
    }
}

/// The value of the first digits of a text does not depend on what
/// follows them.
proof fn lemma_digits_of_front(text: Seq<char>, longer: Seq<char>, upto: nat)
    requires
        upto <= text.len() <= longer.len(),
        forall|i: int| 0 <= i < text.len() ==> text[i] == longer[i],
    ensures
        digits_value(longer, upto) == digits_value(text, upto),
    decreases upto,
{
    if upto > 0 {
        lemma_digits_of_front(text, longer, (upto - 1) as nat);
    }
}

/// A number written in decimal notation is read back as the same number.
pub proof fn lemma_decimal_round_trip(number: nat)
    ensures
        decimal_nat(number).len() > 0,
        digits_value(decimal_nat(number), decimal_nat(number).len()) == Some(number),
        number_within(decimal_nat(number), number) == Some(number),
    decreases number,
{
    let text = decimal_nat(number);
    if number < 10 {
        assert(text.len() == 1);
        assert(text[0] == digit_char(number as int));
        assert(digits_value(text, 0) == Some(0nat));
        assert(digits_value(text, 1) == Some(number));
    } else {
        let front = decimal_nat(number / 10);
        lemma_decimal_round_trip(number / 10);
        assert(text == front.push(digit_char((number % 10) as int)));
        lemma_digits_of_front(front, text, front.len());
        assert(text[text.len() - 1] == digit_char((number % 10) as int));
        assert(digit_value(digit_char((number % 10) as int)) == Some(number % 10));
    }
}

} // verus!
