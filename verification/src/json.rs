//! JSON: writing an object of two texts and a number, and what a reader gets from it.

use serde::ser::SerializeMap;
use serde::Serializer;
use vstd::prelude::*;

use crate::text::{decimal, decimal_begins_with_a_digit, digit, hex_digit, signed_decimal};

verus! {

/// A character as it stands inside a JSON string.
pub open spec fn json_char(c: char) -> Seq<char> {
    if c == '"' {
        seq!['\\', '"']
    } else if c == '\\' {
        seq!['\\', '\\']
    } else if c == '\u{8}' {
        seq!['\\', 'b']
    } else if c == '\t' {
        seq!['\\', 't']
    } else if c == '\n' {
        seq!['\\', 'n']
    } else if c == '\u{c}' {
        seq!['\\', 'f']
    } else if c == '\r' {
        seq!['\\', 'r']
    } else if ' ' > c {
        seq!['\\', 'u', '0', '0', hex_digit(c as nat / 16), hex_digit(c as nat % 16)]
    } else {
        seq![c]
    }
}

/// The characters of a text as they stand inside a JSON string.
pub open spec fn json_chars(text: Seq<char>) -> Seq<char>
    decreases text.len(),
{
    if text.len() == 0 {
        Seq::empty()
    } else {
        json_chars(text.drop_last()) + json_char(text.last())
    }
}

/// A text as a JSON string.
pub open spec fn json_string(text: Seq<char>) -> Seq<char> {
    seq!['"'] + json_chars(text) + seq!['"']
}

/// A member of a JSON object on a line of its own, indented by two spaces, and what follows it.
pub open spec fn json_member(name: Seq<char>, value: Seq<char>, rest: Seq<char>) -> Seq<char> {
    seq!['\n', ' ', ' '] + json_string(name) + seq![':', ' '] + value + rest
}

/// A JSON object of two texts and a number, a member to a line.
pub open spec fn json_object(
    first: (Seq<char>, Seq<char>),
    second: (Seq<char>, Seq<char>),
    third: (Seq<char>, int),
) -> Seq<char> {
    let last = json_member(third.0, signed_decimal(third.1), seq!['\n', '}']);
    let next = json_member(second.0, json_string(second.1), seq![','] + last);
    seq!['{'] + json_member(first.0, json_string(first.1), seq![','] + next)
}

/// Writes an object through [`serde_json::Serializer::pretty`] into a vector of bytes: the members
/// in the order in which they are handed over, in the layout of serde_json's pretty formatter.
/// Neither the serializer nor a vector of bytes as its target fails on texts and numbers.
#[verifier::external_body]
pub(crate) fn pretty_object(first: (&str, &str), second: (&str, &str), third: (&str, i32)) -> (json: Option<
    String,
>)
    ensures
        json is Some,
        json->0@ == json_object(
            (first.0@, first.1@),
            (second.0@, second.1@),
            (third.0@, third.1 as int),
        ),
{
    let mut bytes: Vec<u8> = Vec::new();
    let mut target = serde_json::Serializer::pretty(&mut bytes);
    let mut object = target.serialize_map(Some(3)).ok()?;
    object.serialize_entry(first.0, first.1).ok()?;
    object.serialize_entry(second.0, second.1).ok()?;
    object.serialize_entry(third.0, &third.1).ok()?;
    object.end().ok()?;
    String::from_utf8(bytes).ok()
}

/// The value of a hexadecimal digit, in either case.
pub open spec fn hex_value(c: char) -> Option<nat> {
    if '0' <= c <= '9' {
        Some((c as nat - 48) as nat)
    } else if 'a' <= c <= 'f' {
        Some((c as nat - 87) as nat)
    } else if 'A' <= c <= 'F' {
        Some((c as nat - 55) as nat)
    } else {
        None
    }
}

/// The number that four hexadecimal digits at the front of a text write.
pub open spec fn read_hex(text: Seq<char>) -> Option<nat> {
    if text.len() < 4 {
        None
    } else {
        match (hex_value(text[0]), hex_value(text[1]), hex_value(text[2]), hex_value(text[3])) {
            (Some(a), Some(b), Some(c), Some(d)) => Some(4096 * a + 256 * b + 16 * c + d),
            _ => None,
        }
    }
}

/// The character that a text inside a JSON string begins with, and what follows it. The quote that
/// ends the string, a control character and half of a surrogate pair are none.
pub open spec fn read_char(text: Seq<char>) -> Option<(char, Seq<char>)> {
    if text.len() == 0 || text[0] == '"' || ' ' > text[0] {
        None
    } else if text[0] != '\\' {
        Some((text[0], text.skip(1)))
    } else if text.len() == 1 {
        None
    } else if text[1] == '"' || text[1] == '\\' || text[1] == '/' {
        Some((text[1], text.skip(2)))
    } else if text[1] == 'b' {
        Some(('\u{8}', text.skip(2)))
    } else if text[1] == 'f' {
        Some(('\u{c}', text.skip(2)))
    } else if text[1] == 'n' {
        Some(('\n', text.skip(2)))
    } else if text[1] == 'r' {
        Some(('\r', text.skip(2)))
    } else if text[1] == 't' {
        Some(('\t', text.skip(2)))
    } else if text[1] == 'u' {
        match read_hex(text.skip(2)) {
            Some(code) => if 0xd800 <= code <= 0xdfff {
                None
            } else {
                Some((code as char, text.skip(6)))
            },
            None => None,
        }
    } else {
        None
    }
}

/// The text up to the quote that ends a JSON string, and what follows that.
pub open spec fn read_chars(text: Seq<char>) -> Option<(Seq<char>, Seq<char>)>
    decreases text.len(),
{
    if text.len() > 0 && text[0] == '"' {
        Some((Seq::empty(), text.skip(1)))
    } else {
        match read_char(text) {
            Some((c, rest)) => if rest.len() < text.len() {
                match read_chars(rest) {
                    Some((more, after)) => Some((seq![c] + more, after)),
                    None => None,
                }
            } else {
                None
            },
            None => None,
        }
    }
}

/// A text without the white space of JSON at its front.
pub open spec fn skip_space(text: Seq<char>) -> Seq<char>
    decreases text.len(),
{
    if text.len() > 0 && (text[0] == ' ' || text[0] == '\n' || text[0] == '\r' || text[0] == '\t') {
        skip_space(text.skip(1))
    } else {
        text
    }
}

/// What follows a mark, which may have white space in front of it.
pub open spec fn read_mark(text: Seq<char>, mark: char) -> Option<Seq<char>> {
    let front = skip_space(text);
    if front.len() > 0 && front[0] == mark {
        Some(front.skip(1))
    } else {
        None
    }
}

/// A JSON string, which may have white space in front of it, and what follows it.
pub open spec fn read_string(text: Seq<char>) -> Option<(Seq<char>, Seq<char>)> {
    match read_mark(text, '"') {
        Some(rest) => read_chars(rest),
        None => None,
    }
}

/// The name of a member with its colon, and what follows them.
pub open spec fn read_name(text: Seq<char>, name: Seq<char>) -> Option<Seq<char>> {
    match read_string(text) {
        Some((read, rest)) => if read == name {
            read_mark(rest, ':')
        } else {
            None
        },
        None => None,
    }
}

/// The number that goes on from `so_far` with the digits at the front of a text, and what follows
/// them.
pub open spec fn read_digits(text: Seq<char>, so_far: nat) -> (nat, Seq<char>)
    decreases text.len(),
{
    if text.len() > 0 && '0' <= text[0] <= '9' {
        read_digits(text.skip(1), (10 * so_far + (text[0] as nat - 48)) as nat)
    } else {
        (so_far, text)
    }
}

/// An integer without leading zeros, which may have white space in front of it, and what follows it.
pub open spec fn read_integer(text: Seq<char>) -> Option<(int, Seq<char>)> {
    let front = skip_space(text);
    let negative = front.len() > 0 && front[0] == '-';
    let digits = if negative {
        front.skip(1)
    } else {
        front
    };
    let padded = digits.len() > 1 && digits[0] == '0' && '0' <= digits[1] <= '9';
    if digits.len() > 0 && '0' <= digits[0] <= '9' && !padded {
        let (magnitude, rest) = read_digits(digits, 0);
        Some((if negative {
            -magnitude
        } else {
            magnitude as int
        }, rest))
    } else {
        None
    }
}

/// A member that is a text, and what follows it.
pub open spec fn read_text_member(text: Seq<char>, name: Seq<char>) -> Option<
    (Seq<char>, Seq<char>),
> {
    match read_name(text, name) {
        Some(rest) => read_string(rest),
        None => None,
    }
}

/// A member that is an integer, and what follows it.
pub open spec fn read_integer_member(text: Seq<char>, name: Seq<char>) -> Option<(int, Seq<char>)> {
    match read_name(text, name) {
        Some(rest) => read_integer(rest),
        None => None,
    }
}

/// What a JSON text holds that is an object of two texts and an integer, with these names in this
/// order, and nothing else.
pub open spec fn read_object(
    text: Seq<char>,
    first: Seq<char>,
    second: Seq<char>,
    third: Seq<char>,
) -> Option<(Seq<char>, Seq<char>, int)> {
    match read_mark(text, '{') {
        None => None,
        Some(inside) => match read_text_member(inside, first) {
            None => None,
            Some((one, after_one)) => match read_mark(after_one, ',') {
                None => None,
                Some(next) => match read_text_member(next, second) {
                    None => None,
                    Some((two, after_two)) => match read_mark(after_two, ',') {
                        None => None,
                        Some(last) => match read_integer_member(last, third) {
                            None => None,
                            Some((number, after)) => match read_mark(after, '}') {
                                None => None,
                                Some(end) => if skip_space(end).len() == 0 {
                                    Some((one, two, number))
                                } else {
                                    None
                                },
                            },
                        },
                    },
                },
            },
        },
    }
}

/// The characters of a text inside a JSON string, from the front.
proof fn json_chars_from_the_front(text: Seq<char>)
    requires
        text.len() > 0,
    ensures
        json_chars(text) == json_char(text[0]) + json_chars(text.skip(1)),
    decreases text.len(),
{
    if text.len() == 1 {
        assert(text.drop_last() =~= Seq::empty());
        assert(text.skip(1) =~= Seq::empty());
        assert(json_chars(text) =~= json_char(text[0]) + json_chars(text.skip(1)));
    } else {
        json_chars_from_the_front(text.drop_last());
        assert(text.drop_last().skip(1) =~= text.skip(1).drop_last());
        assert(json_chars(text) =~= json_char(text[0]) + json_chars(text.skip(1)));
    }
}

/// A character that was written is read back.
proof fn characters_are_read_back(c: char, rest: Seq<char>)
    ensures
        read_char(json_char(c) + rest) == Some((c, rest)),
        (json_char(c) + rest)[0] != '"',
{
    let text = json_char(c) + rest;
    assert(text.skip(json_char(c).len() as int) =~= rest);
    assert(text[0] == json_char(c)[0]);
    if json_char(c).len() > 1 {
        assert(text[1] == json_char(c)[1]);
    }
    if json_char(c).len() == 6 {
        let digits = text.skip(2);
        assert(digits[0] == '0' && digits[1] == '0');
        assert(digits[2] == hex_digit(c as nat / 16));
        assert(digits[3] == hex_digit(c as nat % 16));
        assert(hex_value(digits[2]) == Some(c as nat / 16));
        assert(hex_value(digits[3]) == Some(c as nat % 16));
        assert(read_hex(digits) == Some(c as nat));
    }
}

/// The characters of a text that were written are read back.
proof fn texts_are_read_back(text: Seq<char>, rest: Seq<char>)
    ensures
        read_chars(json_chars(text) + (seq!['"'] + rest)) == Some((text, rest)),
    decreases text.len(),
{
    let ending = seq!['"'] + rest;
    let whole = json_chars(text) + ending;
    if text.len() == 0 {
        assert(whole =~= ending);
        assert(whole.skip(1) =~= rest);
        assert(text =~= Seq::empty());
    } else {
        json_chars_from_the_front(text);
        let after = json_chars(text.skip(1)) + ending;
        assert(whole =~= json_char(text[0]) + after);
        characters_are_read_back(text[0], after);
        texts_are_read_back(text.skip(1), rest);
        assert(text =~= seq![text[0]] + text.skip(1));
    }
}

/// A mark right at the front is found.
proof fn marks_are_read_back(mark: char, rest: Seq<char>)
    requires
        mark != ' ' && mark != '\n' && mark != '\r' && mark != '\t',
    ensures
        read_mark(seq![mark] + rest, mark) == Some(rest),
        read_mark(seq![' '] + (seq![mark] + rest), mark) == Some(rest),
{
    let text = seq![mark] + rest;
    let indented = seq![' '] + text;
    assert(text.skip(1) =~= rest);
    assert(indented.skip(1) =~= text);
}

/// A line break and two spaces are skipped.
proof fn indents_are_skipped(text: Seq<char>)
    ensures
        skip_space(seq!['\n', ' ', ' '] + text) == skip_space(text),
{
    let one = seq![' '] + text;
    let two = seq![' '] + one;
    let three = seq!['\n'] + two;
    assert(seq!['\n', ' ', ' '] + text =~= three);
    assert(three.skip(1) =~= two);
    assert(two.skip(1) =~= one);
    assert(one.skip(1) =~= text);
    assert(skip_space(one) == skip_space(text));
    assert(skip_space(two) == skip_space(one));
    assert(skip_space(three) == skip_space(two));
}

/// A string that was written is read back, also behind a space.
proof fn strings_are_read_back(text: Seq<char>, rest: Seq<char>)
    ensures
        read_string(json_string(text) + rest) == Some((text, rest)),
        read_string(seq![' '] + (json_string(text) + rest)) == Some((text, rest)),
{
    let after = json_chars(text) + (seq!['"'] + rest);
    assert(json_string(text) + rest =~= seq!['"'] + after);
    marks_are_read_back('"', after);
    texts_are_read_back(text, rest);
}

/// The name of a member that was written is read back.
proof fn names_are_read_back(name: Seq<char>, value: Seq<char>, rest: Seq<char>)
    ensures
        read_name(json_member(name, value, rest), name) == Some(seq![' '] + (value + rest)),
{
    let after = seq![' '] + (value + rest);
    let text = json_string(name) + (seq![':'] + after);
    assert(json_member(name, value, rest) =~= seq!['\n', ' ', ' '] + text);
    indents_are_skipped(text);
    strings_are_read_back(name, seq![':'] + after);
    marks_are_read_back(':', after);
}

/// A number that was written is read back: its digits lead to it.
pub(crate) proof fn digits_are_read_back(n: nat, rest: Seq<char>)
    ensures
        read_digits(decimal(n) + rest, 0) == read_digits(rest, n),
    decreases n,
{
    let last = digit(n % 10);
    let after = seq![last] + rest;
    assert(after.skip(1) =~= rest);
    if n < 10 {
        assert(decimal(n) + rest =~= after);
    } else {
        assert(decimal(n) + rest =~= decimal(n / 10) + after);
        digits_are_read_back(n / 10, after);
    }
}

/// An integer that was written is read back from behind a space.
proof fn integers_are_read_back(n: int, rest: Seq<char>)
    requires
        rest.len() > 0,
        !('0' <= rest[0] <= '9'),
    ensures
        read_integer(seq![' '] + (signed_decimal(n) + rest)) == Some((n, rest)),
{
    let text = signed_decimal(n) + rest;
    let magnitude: nat = if n < 0 {
        (-n) as nat
    } else {
        n as nat
    };
    let digits = decimal(magnitude) + rest;
    let indented = seq![' '] + text;
    assert(indented.skip(1) =~= text);
    assert(skip_space(indented) == skip_space(text));
    decimal_begins_with_a_digit(magnitude);
    digits_are_read_back(magnitude, rest);
    assert(digits[0] == decimal(magnitude)[0]);
    if magnitude == 0 {
        assert(digits[1] == rest[0]);
    }
    if n < 0 {
        assert(text =~= seq!['-'] + digits);
        assert(text.skip(1) =~= digits);
    } else {
        assert(text =~= digits);
    }
    assert(skip_space(text) == text);
    assert(read_digits(rest, magnitude) == (magnitude, rest));
}

/// What was written as an object is read back from its text.
pub proof fn objects_are_read_back(
    first: (Seq<char>, Seq<char>),
    second: (Seq<char>, Seq<char>),
    third: (Seq<char>, int),
)
    ensures
        read_object(json_object(first, second, third), first.0, second.0, third.0) == Some(
            (first.1, second.1, third.1),
        ),
{
    let end = seq!['\n', '}'];
    let last = json_member(third.0, signed_decimal(third.1), end);
    let after_two = seq![','] + last;
    let next = json_member(second.0, json_string(second.1), after_two);
    let after_one = seq![','] + next;
    marks_are_read_back('{', json_member(first.0, json_string(first.1), after_one));
    names_are_read_back(first.0, json_string(first.1), after_one);
    strings_are_read_back(first.1, after_one);
    marks_are_read_back(',', next);
    names_are_read_back(second.0, json_string(second.1), after_two);
    strings_are_read_back(second.1, after_two);
    marks_are_read_back(',', last);
    names_are_read_back(third.0, signed_decimal(third.1), end);
    integers_are_read_back(third.1, end);
    let closing = seq!['}'];
    assert(end.skip(1) =~= closing);
    assert(skip_space(end) == skip_space(closing));
    assert(skip_space(closing) == closing);
    assert(closing.skip(1) =~= Seq::empty());
}

} // verus!
