//! Text: the few operations on strings that messages, names and paths are made of.

use vstd::prelude::*;
use vstd::string::*;
use vstd::utf8::*;

verus! {

/// Appends one character; the contract is that of [`String::push`]'s documentation.
pub assume_specification[ String::push ](text: &mut String, c: char)
    ensures
        final(text)@ == old(text)@.push(c),
;

/// The texts that a list of strings holds.
pub open spec fn texts(list: Seq<String>) -> Seq<Seq<char>> {
    list.map_values(|s: String| s@)
}

/// The characters of a text, in order.
pub fn chars_of(text: &str) -> (chars: Vec<char>)
    ensures
        chars@ == text@,
{
    let mut chars: Vec<char> = Vec::new();
    for c in it: text.chars()
        invariant
            it.seq() == text@,
            chars@ == text@.take(it.index()),
    {
        proof {
            assert(text@.take(it.index() + 1) == text@.take(it.index()).push(c));
        }
        chars.push(c);
    }
    proof {
        assert(text@.take(text@.len() as int) == text@);
    }
    chars
}

/// The text made of the characters from `from` up to, but not including, `to`.
pub fn text_of(chars: &Vec<char>, from: usize, to: usize) -> (text: String)
    requires
        from <= to <= chars@.len(),
    ensures
        text@ == chars@.subrange(from as int, to as int),
{
    let mut text = String::new();
    let mut k: usize = from;
    while k < to
        invariant
            from <= k <= to <= chars@.len(),
            text@ == chars@.subrange(from as int, k as int),
        decreases to - k,
    {
        proof {
            assert(chars@.subrange(from as int, k + 1) == chars@.subrange(from as int, k as int).push(
                chars@[k as int],
            ));
        }
        text.push(chars[k]);
        k = k + 1;
    }
    text
}

/// The decimal digit of a number below ten.
pub open spec fn digit(d: nat) -> char {
    (48 + d) as char
}

/// A hexadecimal digit, in lower case.
pub open spec fn hex_digit(d: nat) -> char {
    if d < 10 {
        digit(d)
    } else {
        (87 + d) as char
    }
}

/// A number written in decimal, without leading zeros.
pub open spec fn decimal(n: nat) -> Seq<char>
    decreases n,
{
    if n < 10 {
        seq![digit(n)]
    } else {
        decimal(n / 10).push(digit(n % 10))
    }
}

/// An integer written in decimal, with a minus sign where it is negative.
pub open spec fn signed_decimal(n: int) -> Seq<char> {
    if n < 0 {
        seq!['-'] + decimal((-n) as nat)
    } else {
        decimal(n as nat)
    }
}

/// Writes a number in decimal.
pub fn decimal_text(n: u128) -> (text: String)
    ensures
        text@ == decimal(n as nat),
    decreases n,
{
    if n < 10 {
        let mut text = String::new();
        text.push((48u8 + n as u8) as char);
        text
    } else {
        let mut text = decimal_text(n / 10);
        text.push((48u8 + (n % 10) as u8) as char);
        text
    }
}

/// Writes an integer in decimal.
pub fn signed_text(n: i32) -> (text: String)
    ensures
        text@ == signed_decimal(n as int),
{
    if n < 0 {
        let magnitude: u128 = (-(n as i64)) as u128;
        let mut text = String::new();
        text.push('-');
        text.append(decimal_text(magnitude).as_str());
        text
    } else {
        decimal_text(n as u128)
    }
}

/// Several texts in a row, with `separator` between each two neighbours.
pub open spec fn joined(parts: Seq<Seq<char>>, separator: Seq<char>) -> Seq<char>
    decreases parts.len(),
{
    if parts.len() == 0 {
        Seq::empty()
    } else if parts.len() == 1 {
        parts[0]
    } else {
        joined(parts.drop_last(), separator) + separator + parts.last()
    }
}

/// Writes several texts in a row, with `separator` between each two neighbours.
pub fn join(parts: &Vec<String>, separator: &str) -> (text: String)
    ensures
        text@ == joined(texts(parts@), separator@),
{
    let mut text = String::new();
    let mut k: usize = 0;
    while k < parts.len()
        invariant
            k <= parts@.len(),
            text@ == joined(texts(parts@).take(k as int), separator@),
        decreases parts@.len() - k,
    {
        proof {
            assert(texts(parts@).take(k + 1).drop_last() == texts(parts@).take(k as int));
        }
        if k > 0 {
            text.append(separator);
        }
        text.append(parts[k].as_str());
        k = k + 1;
    }
    proof {
        assert(texts(parts@).take(k as int) == texts(parts@));
    }
    text
}

/// The pieces between the occurrences of `separator`: one more than there are occurrences.
pub open spec fn split_at(text: Seq<char>, separator: char) -> Seq<Seq<char>>
    decreases text.len(),
{
    if text.len() == 0 {
        seq![Seq::empty()]
    } else {
        let before = split_at(text.drop_last(), separator);
        if text.last() == separator {
            before.push(Seq::empty())
        } else {
            before.drop_last().push(before.last().push(text.last()))
        }
    }
}

/// The lines of a text, its line feeds left out.
pub fn split_lines(text: &str) -> (lines: Vec<String>)
    ensures
        texts(lines@) == split_at(text@, '\n'),
{
    let chars = chars_of(text);
    let mut lines: Vec<String> = Vec::new();
    let mut line = String::new();
    let mut k: usize = 0;
    proof {
        assert(texts(lines@).push(line@) =~= split_at(chars@.take(0), '\n'));
    }
    while k < chars.len()
        invariant
            k <= chars@.len(),
            texts(lines@).push(line@) == split_at(chars@.take(k as int), '\n'),
        decreases chars@.len() - k,
    {
        let c = chars[k];
        let ghost before = texts(lines@).push(line@);
        proof {
            assert(chars@.take(k + 1).drop_last() =~= chars@.take(k as int));
        }
        if c == '\n' {
            let ghost finished = lines@.push(line);
            proof {
                assert(texts(finished) =~= before);
            }
            lines.push(line);
            line = String::new();
        } else {
            proof {
                assert(before.drop_last() =~= texts(lines@));
            }
            line.push(c);
        }
        k = k + 1;
    }
    proof {
        assert(chars@.take(k as int) =~= text@);
        assert(texts(lines@.push(line)) =~= texts(lines@).push(line@));
    }
    lines.push(line);
    lines
}

/// `a` comes before `b` where, at the first place at which they differ, `a` has ended or holds
/// the character with the smaller code point.
pub open spec fn precedes(a: Seq<char>, b: Seq<char>) -> bool
    decreases a.len(),
{
    if b.len() == 0 {
        false
    } else if a.len() == 0 {
        true
    } else if a[0] != b[0] {
        a[0] < b[0]
    } else {
        precedes(a.skip(1), b.skip(1))
    }
}

/// Whether `a` comes before `b`.
pub fn text_precedes(a: &str, b: &str) -> (before: bool)
    ensures
        before == precedes(a@, b@),
{
    let left = chars_of(a);
    let right = chars_of(b);
    let mut k: usize = 0;
    proof {
        assert(left@.skip(0) =~= a@);
        assert(right@.skip(0) =~= b@);
    }
    while k < left.len() && k < right.len()
        invariant
            k <= left@.len(),
            k <= right@.len(),
            precedes(a@, b@) == precedes(left@.skip(k as int), right@.skip(k as int)),
        decreases left@.len() - k,
    {
        if left[k] != right[k] {
            return left[k] < right[k];
        }
        proof {
            assert(left@.skip(k as int).skip(1) =~= left@.skip(k + 1));
            assert(right@.skip(k as int).skip(1) =~= right@.skip(k + 1));
        }
        k = k + 1;
    }
    k < right.len()
}

/// No text comes before itself.
pub proof fn precedes_is_irreflexive(a: Seq<char>)
    ensures
        !precedes(a, a),
    decreases a.len(),
{
    if a.len() > 0 {
        precedes_is_irreflexive(a.skip(1));
    }
}

/// What comes before what comes before a text comes before it.
pub proof fn precedes_is_transitive(a: Seq<char>, b: Seq<char>, c: Seq<char>)
    requires
        precedes(a, b),
        precedes(b, c),
    ensures
        precedes(a, c),
    decreases a.len(),
{
    if a.len() > 0 && a[0] == b[0] && b[0] == c[0] {
        precedes_is_transitive(a.skip(1), b.skip(1), c.skip(1));
    }
}

/// Of two different texts one comes before the other.
pub proof fn precedes_is_total(a: Seq<char>, b: Seq<char>)
    ensures
        a == b || precedes(a, b) || precedes(b, a),
    decreases a.len(),
{
    if a.len() > 0 && b.len() > 0 && a[0] == b[0] {
        precedes_is_total(a.skip(1), b.skip(1));
        if a.skip(1) == b.skip(1) {
            assert(a =~= seq![a[0]] + a.skip(1));
            assert(b =~= seq![b[0]] + b.skip(1));
        }
    } else if a.len() == 0 && b.len() == 0 {
        assert(a =~= b);
    }
}

/// The characters with the Unicode property `White_Space`.
pub open spec fn is_white_space(c: char) -> bool {
    ||| '\u{9}' <= c <= '\u{d}'
    ||| c == ' '
    ||| c == '\u{85}'
    ||| c == '\u{a0}'
    ||| c == '\u{1680}'
    ||| '\u{2000}' <= c <= '\u{200a}'
    ||| c == '\u{2028}'
    ||| c == '\u{2029}'
    ||| c == '\u{202f}'
    ||| c == '\u{205f}'
    ||| c == '\u{3000}'
}

/// A text without the white space at its two ends.
pub open spec fn trimmed(text: Seq<char>) -> Seq<char>
    decreases text.len(),
{
    if text.len() == 0 {
        text
    } else if is_white_space(text[0]) {
        trimmed(text.skip(1))
    } else if is_white_space(text.last()) {
        trimmed(text.drop_last())
    } else {
        text
    }
}

/// Whether a character has the Unicode property `White_Space`.
fn white_space(c: char) -> (blank: bool)
    ensures
        blank == is_white_space(c),
{
    ('\u{9}' <= c && c <= '\u{d}') || c == ' ' || c == '\u{85}' || c == '\u{a0}' || c == '\u{1680}'
        || ('\u{2000}' <= c && c <= '\u{200a}') || c == '\u{2028}' || c == '\u{2029}' || c
        == '\u{202f}' || c == '\u{205f}' || c == '\u{3000}'
}

/// Takes the white space from the two ends of a text.
pub fn trim(text: &str) -> (inner: String)
    ensures
        inner@ == trimmed(text@),
{
    let chars = chars_of(text);
    let mut from: usize = 0;
    let mut to: usize = chars.len();
    proof {
        assert(chars@.subrange(0, to as int) =~= text@);
    }
    while from < to && white_space(chars[from])
        invariant
            from <= to == chars@.len(),
            trimmed(text@) == trimmed(chars@.subrange(from as int, to as int)),
        decreases to - from,
    {
        proof {
            assert(chars@.subrange(from as int, to as int).skip(1) =~= chars@.subrange(
                from + 1,
                to as int,
            ));
        }
        from = from + 1;
    }
    while from < to && white_space(chars[to - 1])
        invariant
            from <= to <= chars@.len(),
            from < to ==> !is_white_space(chars@[from as int]),
            trimmed(text@) == trimmed(chars@.subrange(from as int, to as int)),
        decreases to - from,
    {
        proof {
            assert(chars@.subrange(from as int, to as int).drop_last() =~= chars@.subrange(
                from as int,
                to - 1,
            ));
        }
        to = to - 1;
    }
    text_of(&chars, from, to)
}

/// The message with which [`std::str::from_utf8`] refuses bytes that are not UTF-8.
pub uninterp spec fn utf8_error(bytes: Seq<u8>) -> Seq<char>;

/// Calls [`std::str::from_utf8`]: bytes in UTF-8 give the text that they encode, all others the
/// error, of which the message is kept.
#[verifier::external_body]
pub(crate) fn utf8_text(bytes: &[u8]) -> (text: Result<String, String>)
    ensures
        text is Ok <==> valid_utf8(bytes@),
        text matches Ok(decoded) ==> decoded@ == decode_utf8(bytes@),
        text matches Err(message) ==> message@ == utf8_error(bytes@),
{
    std::str::from_utf8(bytes).map(|text| text.to_string()).map_err(|err| err.to_string())
}

/// The text that [`String::from_utf8_lossy`] makes of bytes.
pub uninterp spec fn lossy_utf8(bytes: Seq<u8>) -> Seq<char>;

/// Calls [`String::from_utf8_lossy`]: bytes in UTF-8 give the text that they encode; in all others
/// each invalid sequence is replaced, and the text that results is named, not described.
#[verifier::external_body]
pub(crate) fn lossy_text(bytes: &[u8]) -> (text: String)
    ensures
        text@ == lossy_utf8(bytes@),
        valid_utf8(bytes@) ==> text@ == decode_utf8(bytes@),
{
    String::from_utf8_lossy(bytes).into_owned()
}

/// A path without the separators, and without the `.` after a separator, at its end; the root
/// stays.
pub open spec fn stripped(path: Seq<char>) -> Seq<char>
    decreases path.len(),
{
    if path.len() > 1 && path.last() == '/' {
        stripped(path.drop_last())
    } else if path.len() > 1 && path.last() == '.' && path[path.len() - 2] == '/' {
        stripped(path.drop_last())
    } else {
        path
    }
}

/// A path up to and with its last separator; nothing where it has none.
pub open spec fn up_to_separator(path: Seq<char>) -> Seq<char>
    decreases path.len(),
{
    if path.len() == 0 || path.last() == '/' {
        path
    } else {
        up_to_separator(path.drop_last())
    }
}

/// A path without its last component. The root and the empty path have none.
pub open spec fn parent_of(path: Seq<char>) -> Option<Seq<char>> {
    let whole = stripped(path);
    if whole.len() == 0 || whole == seq!['/'] {
        None
    } else {
        Some(stripped(up_to_separator(whole)))
    }
}

/// The length of what [`stripped`] leaves of the first `len` characters.
fn stripped_len(chars: &Vec<char>, len: usize) -> (kept: usize)
    requires
        len <= chars@.len(),
    ensures
        kept <= len,
        chars@.take(kept as int) == stripped(chars@.take(len as int)),
    decreases len,
{
    proof {
        if len > 0 {
            assert(chars@.take(len as int).drop_last() =~= chars@.take(len - 1));
        }
    }
    if len > 1 && (chars[len - 1] == '/' || (chars[len - 1] == '.' && chars[len - 2] == '/')) {
        stripped_len(chars, len - 1)
    } else {
        len
    }
}

/// The length of what [`up_to_separator`] leaves of the first `len` characters.
fn separator_len(chars: &Vec<char>, len: usize) -> (kept: usize)
    requires
        len <= chars@.len(),
    ensures
        kept <= len,
        chars@.take(kept as int) == up_to_separator(chars@.take(len as int)),
    decreases len,
{
    proof {
        if len > 0 {
            assert(chars@.take(len as int).drop_last() =~= chars@.take(len - 1));
        }
    }
    if len == 0 || chars[len - 1] == '/' {
        len
    } else {
        separator_len(chars, len - 1)
    }
}

/// The directory that holds what a path names; `None` for the root and for the empty path.
pub fn parent_dir(path: &str) -> (parent: Option<String>)
    ensures
        match parent {
            Some(dir) => parent_of(path@) == Some(dir@),
            None => parent_of(path@) is None,
        },
{
    let chars = chars_of(path);
    proof {
        assert(chars@.take(chars@.len() as int) =~= path@);
    }
    let whole = stripped_len(&chars, chars.len());
    if whole == 0 || (whole == 1 && chars[0] == '/') {
        proof {
            if whole == 1 {
                assert(chars@.take(1) =~= seq!['/']);
            }
        }
        None
    } else {
        proof {
            if chars@.take(whole as int) == seq!['/'] {
                assert(chars@.take(whole as int)[0] == '/');
                assert(chars@.take(whole as int).len() == 1);
            }
        }
        let directory = separator_len(&chars, whole);
        let kept = stripped_len(&chars, directory);
        let parent = text_of(&chars, 0, kept);
        proof {
            assert(chars@.subrange(0, kept as int) =~= chars@.take(kept as int));
        }
        Some(parent)
    }
}

/// The parent of a plain name inside a directory is the directory.
pub proof fn parent_of_a_name(directory: Seq<char>, name: Seq<char>)
    requires
        directory.len() > 0,
        directory.last() != '/',
        directory.last() != '.',
        name.len() > 0,
        name.last() != '.',
        !name.contains('/'),
    ensures
        parent_of(directory + seq!['/'] + name) == Some(directory),
{
    let path = directory + seq!['/'] + name;
    assert(path.last() == name.last());
    assert(name.contains(name.last()));
    assert(stripped(path) == path);
    assert(path != seq!['/']) by {
        assert(path.len() > 1);
    }
    up_to_separator_stops(directory + seq!['/'], name);
    assert((directory + seq!['/']).drop_last() =~= directory);
    assert(stripped(directory) == directory);
    assert(stripped(directory + seq!['/']) == stripped(directory));
}

/// Without a separator in `name`, the last separator is the one before it.
proof fn up_to_separator_stops(directory: Seq<char>, name: Seq<char>)
    requires
        directory.len() > 0,
        directory.last() == '/',
        !name.contains('/'),
    ensures
        up_to_separator(directory + name) == directory,
    decreases name.len(),
{
    if name.len() > 0 {
        assert((directory + name).drop_last() =~= directory + name.drop_last());
        assert((directory + name).last() == name.last());
        assert(name.contains(name.last()));
        assert forall|c: char| name.drop_last().contains(c) implies name.contains(c) by {
            let k = choose|k: int| 0 <= k < name.drop_last().len() && name.drop_last()[k] == c;
            assert(name[k] == c);
        }
        up_to_separator_stops(directory, name.drop_last());
    } else {
        assert(directory + name =~= directory);
    }
}

/// Different numbers are written differently.
pub proof fn decimal_is_injective(m: nat, n: nat)
    requires
        decimal(m) == decimal(n),
    ensures
        m == n,
    decreases m,
{
    decimal_is_not_empty(m / 10);
    decimal_is_not_empty(n / 10);
    if m < 10 && n < 10 {
        assert(decimal(m)[0] == digit(m));
        assert(decimal(n)[0] == digit(n));
    } else if m < 10 {
        assert(decimal(n).len() == decimal(n / 10).len() + 1);
    } else if n < 10 {
        assert(decimal(m).len() == decimal(m / 10).len() + 1);
    } else {
        assert(decimal(m).last() == digit(m % 10));
        assert(decimal(n).last() == digit(n % 10));
        assert(decimal(m).drop_last() =~= decimal(m / 10));
        assert(decimal(n).drop_last() =~= decimal(n / 10));
        decimal_is_injective(m / 10, n / 10);
    }
}

/// A number has at least one digit.
proof fn decimal_is_not_empty(n: nat)
    ensures
        decimal(n).len() > 0,
{
}

/// A decimal begins with a digit, which is a zero only for the number zero.
pub(crate) proof fn decimal_begins_with_a_digit(n: nat)
    ensures
        decimal(n).len() > 0,
        '0' <= decimal(n)[0] <= '9',
        n > 0 ==> decimal(n)[0] != '0',
    decreases n,
{
    if n >= 10 {
        decimal_begins_with_a_digit(n / 10);
        assert(decimal(n)[0] == decimal(n / 10)[0]);
    }
}

} // verus!
