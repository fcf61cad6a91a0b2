//! What holds of the texts that users read, and of the parts that they are made of.

use vstd::prelude::*;

use crate::json::{digits_are_read_back, read_digits};
use crate::text::{
    decimal, decimal_begins_with_a_digit, is_white_space, joined, parent_of, precedes,
    signed_decimal, split_at, stripped, trimmed, up_to_separator,
};

verus! {

/// A number is written so that its digits, read from the front, lead back to it, and with no zero in
/// front that it could do without.
pub proof fn decimals_are_read_back(n: nat)
    ensures
        read_digits(decimal(n), 0) == (n, Seq::<char>::empty()),
        decimal(n).len() > 1 ==> decimal(n)[0] != '0',
{
    digits_are_read_back(n, Seq::empty());
    assert(decimal(n) + Seq::<char>::empty() =~= decimal(n));
    decimal_begins_with_a_digit(n);
}

/// An integer is written as its magnitude, with a minus sign in front where it is negative.
pub proof fn integers_have_their_sign(n: int)
    ensures
        n >= 0 ==> read_digits(signed_decimal(n), 0) == (n as nat, Seq::<char>::empty()),
        n < 0 ==> {
            &&& signed_decimal(n).len() > 1
            &&& signed_decimal(n)[0] == '-'
            &&& read_digits(signed_decimal(n).skip(1), 0) == ((-n) as nat, Seq::<char>::empty())
        },
{
    if n >= 0 {
        decimals_are_read_back(n as nat);
    } else {
        decimals_are_read_back((-n) as nat);
        decimal_begins_with_a_digit((-n) as nat);
        assert(signed_decimal(n).skip(1) =~= decimal((-n) as nat));
    }
}

/// Of two texts the first comes before the other exactly where both agree up to some place at which
/// the first has ended, and the other not, or holds the smaller character.
pub proof fn texts_are_ordered_by_their_first_difference(a: Seq<char>, b: Seq<char>)
    ensures
        precedes(a, b) <==> comes_before(a, b),
    decreases a.len(),
{
    if b.len() == 0 {
    } else if a.len() == 0 {
        assert(a.take(0) =~= b.take(0));
        assert(differs_first(a, b, 0));
    } else if a[0] != b[0] {
        if a[0] < b[0] {
            assert(a.take(0) =~= b.take(0));
            assert(differs_first(a, b, 0));
        }
        if exists|k: int| #[trigger] differs_first(a, b, k) {
            let k = choose|k: int| #[trigger] differs_first(a, b, k);
            if k > 0 {
                assert(a.take(k)[0] == a[0] && b.take(k)[0] == b[0]);
            }
        }
    } else {
        let (s, t) = (a.skip(1), b.skip(1));
        texts_are_ordered_by_their_first_difference(s, t);
        if precedes(a, b) {
            let k = choose|k: int| #[trigger] differs_first(s, t, k);
            assert(a.take(k + 1) =~= seq![a[0]] + s.take(k));
            assert(b.take(k + 1) =~= seq![b[0]] + t.take(k));
            assert(differs_first(a, b, k + 1));
        }
        if exists|k: int| #[trigger] differs_first(a, b, k) {
            let k = choose|k: int| #[trigger] differs_first(a, b, k);
            assert(k > 0);
            assert(s.take(k - 1) =~= a.take(k).skip(1));
            assert(t.take(k - 1) =~= b.take(k).skip(1));
            assert(differs_first(s, t, k - 1));
        }
    }
}

/// Two texts agree up to a place at which the first has ended, and the other not, or holds the
/// smaller character.
pub open spec fn differs_first(a: Seq<char>, b: Seq<char>, k: int) -> bool {
    &&& 0 <= k <= a.len()
    &&& k < b.len()
    &&& a.take(k) == b.take(k)
    &&& k == a.len() || a[k] < b[k]
}

/// A text agrees with another one up to a place at which it has ended, and the other not, or holds the
/// smaller character.
pub open spec fn comes_before(a: Seq<char>, b: Seq<char>) -> bool {
    exists|k: int| #[trigger] differs_first(a, b, k)
}

/// Texts are joined so that two lists, joined one after the other, make up the whole: nothing for no
/// text, a single text as it is, and the separator between two lists with a text in each.
pub proof fn joining_is_piecewise(a: Seq<Seq<char>>, b: Seq<Seq<char>>, separator: Seq<char>)
    ensures
        joined(Seq::empty(), separator).len() == 0,
        a.len() == 1 ==> joined(a, separator) == a[0],
        a.len() > 0 && b.len() > 0 ==> joined(a + b, separator) == joined(a, separator) + separator
            + joined(b, separator),
    decreases b.len(),
{
    if a.len() > 0 && b.len() > 0 {
        assert((a + b).drop_last() =~= a + b.drop_last());
        assert((a + b).last() == b.last());
        if b.len() == 1 {
            assert(a + b.drop_last() =~= a);
        } else {
            joining_is_piecewise(a, b.drop_last(), separator);
            assert(joined(a + b, separator) =~= joined(a, separator) + separator + joined(
                b,
                separator,
            ));
        }
    }
}

/// The pieces of a split text hold no separator and, joined by it, give the text back.
pub proof fn split_texts_can_be_joined(text: Seq<char>, separator: char)
    ensures
        split_at(text, separator).len() > 0,
        joined(split_at(text, separator), seq![separator]) == text,
        forall|k: int|
            0 <= k < split_at(text, separator).len() ==> !(#[trigger] split_at(
                text,
                separator,
            )[k]).contains(separator),
    decreases text.len(),
{
    if text.len() == 0 {
        assert(joined(split_at(text, separator), seq![separator]) =~= text);
    } else {
        let before = split_at(text.drop_last(), separator);
        split_texts_can_be_joined(text.drop_last(), separator);
        let pieces = split_at(text, separator);
        if text.last() == separator {
            assert(pieces.drop_last() =~= before);
            assert(joined(pieces, seq![separator]) =~= text);
        } else {
            assert(pieces.drop_last() =~= before.drop_last());
            assert(text =~= text.drop_last().push(text.last()));
            assert(pieces.len() == before.len());
            assert(pieces.last() == before.last().push(text.last()));
            if before.len() == 1 {
                assert(before[0] == before.last());
                assert(pieces[0] == pieces.last());
            } else {
                let front = joined(before.drop_last(), seq![separator]) + seq![separator];
                assert(front + before.last() == text.drop_last());
                assert(front + pieces.last() =~= (front + before.last()).push(text.last()));
            }
            assert(joined(pieces, seq![separator]) =~= text);
            let last = before.last().push(text.last());
            assert(!last.contains(separator)) by {
                if last.contains(separator) {
                    let k = choose|k: int| 0 <= k < last.len() && last[k] == separator;
                    assert(before[before.len() - 1].contains(separator)) by {
                        assert(before.last()[k] == separator);
                    }
                }
            }
        }
    }
}

/// White space is what Unicode calls so: tab, line feed, vertical tab, form feed, carriage return,
/// space, next line, no-break space, and the spaces and separators of other scripts.
pub proof fn white_space_is_that_of_unicode(c: char)
    ensures
        is_white_space(c) <==> {
            let code = c as u32;
            ||| 9 <= code <= 13
            ||| code == 32
            ||| code == 133
            ||| code == 160
            ||| code == 5760
            ||| 8192 <= code <= 8202
            ||| code == 8232
            ||| code == 8233
            ||| code == 8239
            ||| code == 8287
            ||| code == 12288
        },
{
}

/// The part of a text between two places, around which there is only white space, and which has none
/// at its own ends.
pub open spec fn bare_part(text: Seq<char>, from: int, to: int) -> bool {
    &&& 0 <= from <= to <= text.len()
    &&& forall|k: int| 0 <= k < from ==> is_white_space(#[trigger] text[k])
    &&& forall|k: int| to <= k < text.len() ==> is_white_space(#[trigger] text[k])
    &&& from < to ==> !is_white_space(text[from]) && !is_white_space(text[to - 1])
}

/// Trimming takes the white space around a text, and nothing else.
pub proof fn trimming_takes_the_white_space_around(text: Seq<char>) -> (part: (int, int))
    ensures
        bare_part(text, part.0, part.1),
        trimmed(text) == text.subrange(part.0, part.1),
    decreases text.len(),
{
    if text.len() == 0 {
        assert(text.subrange(0, 0) =~= text);
        (0, 0)
    } else if is_white_space(text[0]) {
        let rest = text.skip(1);
        let (from, to) = trimming_takes_the_white_space_around(rest);
        assert(text.subrange(from + 1, to + 1) =~= rest.subrange(from, to));
        assert forall|k: int| 0 <= k < from + 1 implies is_white_space(#[trigger] text[k]) by {
            if k > 0 {
                assert(rest[k - 1] == text[k]);
            }
        }
        assert forall|k: int| to + 1 <= k < text.len() implies is_white_space(
            #[trigger] text[k],
        ) by {
            assert(rest[k - 1] == text[k]);
        }
        (from + 1, to + 1)
    } else if is_white_space(text.last()) {
        let rest = text.drop_last();
        let (from, to) = trimming_takes_the_white_space_around(rest);
        assert(text.subrange(from, to) =~= rest.subrange(from, to));
        assert forall|k: int| 0 <= k < from implies is_white_space(#[trigger] text[k]) by {
            assert(rest[k] == text[k]);
        }
        assert forall|k: int| to <= k < text.len() implies is_white_space(#[trigger] text[k]) by {
            if k < rest.len() {
                assert(rest[k] == text[k]);
            }
        }
        (from, to)
    } else {
        assert(text.subrange(0, text.len() as int) =~= text);
        (0, text.len() as int)
    }
}

/// The directory that holds what a path names is the front of the path, and a separator at the end of
/// the path does not change it.
pub proof fn parents_are_in_front(path: Seq<char>)
    ensures
        parent_of(path) matches Some(parent) ==> parent.is_prefix_of(path) && parent.len()
            < path.len(),
        path.len() > 0 ==> parent_of(path.push('/')) == parent_of(path),
{
    let whole = stripped(path);
    stripped_is_in_front(path);
    if whole.len() > 0 && whole != seq!['/'] {
        let directory = up_to_separator(whole);
        up_to_separator_is_in_front(whole);
        stripped_is_in_front(directory);
        let parent = stripped(directory);
        assert(parent.is_prefix_of(path)) by {
            assert(whole =~= path.take(whole.len() as int));
            assert(directory =~= path.take(directory.len() as int));
            assert(parent =~= path.subrange(0, parent.len() as int));
        }
        if whole.last() == '/' {
            assert(whole.len() == 1);
            assert(whole =~= seq!['/']);
        }
    }
    if path.len() > 0 {
        assert(path.push('/').drop_last() =~= path);
    }
}

/// What is left of a stripped path is its front.
proof fn stripped_is_in_front(path: Seq<char>)
    ensures
        stripped(path).len() <= path.len(),
        stripped(path) == path.take(stripped(path).len() as int),
        stripped(path).len() > 1 ==> stripped(path).last() != '/',
    decreases path.len(),
{
    if !(path.len() > 1 && (path.last() == '/' || (path.last() == '.' && path[path.len() - 2]
        == '/'))) {
        assert(path.take(path.len() as int) =~= path);
    } else {
        stripped_is_in_front(path.drop_last());
        let kept = stripped(path);
        assert(path.drop_last().take(kept.len() as int) =~= path.take(kept.len() as int));
    }
}

/// A path up to its last separator is its front, and shorter where it does not end with one.
proof fn up_to_separator_is_in_front(path: Seq<char>)
    ensures
        up_to_separator(path).len() <= path.len(),
        up_to_separator(path) == path.take(up_to_separator(path).len() as int),
        path.len() > 0 && path.last() != '/' ==> up_to_separator(path).len() < path.len(),
    decreases path.len(),
{
    if path.len() == 0 || path.last() == '/' {
        assert(path.take(path.len() as int) =~= path);
    } else {
        up_to_separator_is_in_front(path.drop_last());
        let kept = up_to_separator(path);
        assert(path.drop_last().take(kept.len() as int) =~= path.take(kept.len() as int));
    }
}

} // verus!
