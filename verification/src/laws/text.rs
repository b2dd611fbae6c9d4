//! What holds of text: numbers, lines, and upper case.

use vstd::prelude::*;

use crate::text::{
    chomped, decimal, is_one_line, line_len, number, position, trimmed, uppercase,
};
use crate::wire::{is_listable, is_word};

verus! {

/// A number is written by its last digit behind what the rest of it is
/// written as, and one below ten by that digit alone.
pub proof fn lemma_last_digit_stands_last(n: nat)
    ensures
        decimal(n).len() > 0,
        decimal(n).last() as nat == 48 + n % 10,
        n < 10 ==> decimal(n).len() == 1,
        n >= 10 ==> decimal(n).drop_last() == decimal(n / 10),
{
    if n >= 10 {
        assert(decimal(n).drop_last() =~= decimal(n / 10));
    }
}

/// A digit behind others takes what they write ten times, and itself.
pub proof fn lemma_digits_count_tenfold(digits: Seq<char>, c: char)
    requires
        '0' <= c <= '9',
    ensures
        number(Seq::empty()) == 0,
        number(digits.push(c)) == number(digits) * 10 + (c as nat - 48),
{
    assert(digits.push(c).drop_last() =~= digits);
}

/// What is trimmed away are line ends, all that close the text and no more.
pub proof fn lemma_trimming_takes_line_ends(text: Seq<char>)
    ensures
        trimmed(text).len() <= text.len(),
        trimmed(text) == text.take(trimmed(text).len() as int),
        forall|i: int|
            trimmed(text).len() <= i < text.len() ==> #[trigger] text[i] == '\r' || text[i]
                == '\n',
        trimmed(text).len() > 0 ==> trimmed(text).last() != '\r' && trimmed(text).last() != '\n',
    decreases text.len(),
{
    if text.len() > 0 && (text.last() == '\r' || text.last() == '\n') {
        let front = text.drop_last();
        lemma_trimming_takes_line_ends(front);
        assert(front.take(trimmed(front).len() as int) =~= text.take(trimmed(front).len() as int));
        assert forall|i: int| trimmed(text).len() <= i < text.len() implies #[trigger] text[i]
            == '\r' || text[i] == '\n' by {
            if i < text.len() - 1 {
                assert(front[i] == text[i]);
            }
        }
    } else {
        assert(text.take(text.len() as int) =~= text);
    }
}

/// A text and the line ends behind it: trimming gives the text.
pub proof fn lemma_trimming_gives_the_text(text: Seq<char>, ends: Seq<char>)
    requires
        text.len() > 0 ==> text.last() != '\r' && text.last() != '\n',
        forall|i: int| 0 <= i < ends.len() ==> #[trigger] ends[i] == '\r' || ends[i] == '\n',
    ensures
        trimmed(text + ends) == text,
    decreases ends.len(),
{
    if ends.len() == 0 {
        assert(text + ends =~= text);
    } else {
        let fewer = ends.drop_last();
        assert forall|i: int| 0 <= i < fewer.len() implies #[trigger] fewer[i] == '\r' || fewer[i]
            == '\n' by {
            assert(fewer[i] == ends[i]);
        }
        lemma_trimming_gives_the_text(text, fewer);
        assert((text + ends).drop_last() =~= text + fewer);
        assert((text + ends).last() == ends.last());
    }
}

/// One line end is taken from behind a text, with its carriage return if it
/// has one; a text that does not end in a line feed stays as it is.
pub proof fn lemma_one_line_end_is_taken(text: Seq<char>)
    ensures
        chomped(text.push('\r').push('\n')) == text,
        text.len() == 0 || text.last() != '\r' ==> chomped(text.push('\n')) == text,
        text.len() == 0 || text.last() != '\n' ==> chomped(text) == text,
{
    assert(text.push('\r').push('\n').drop_last() =~= text.push('\r'));
    assert(text.push('\r').drop_last() =~= text);
    assert(text.push('\n').drop_last() =~= text);
}

/// Upper case changes ASCII letters, by what lies between the two cases, and
/// no other character.
pub proof fn lemma_upper_case_is_of_letters(text: Seq<char>, i: int)
    requires
        0 <= i < text.len(),
    ensures
        uppercase(text).len() == text.len(),
        'a' <= text[i] <= 'z' ==> uppercase(text)[i] as int == text[i] as int - 32,
        !('a' <= text[i] <= 'z') ==> uppercase(text)[i] == text[i],
{
}

/// The first line of some bytes ends with their first line feed, or with
/// them.
pub proof fn lemma_a_line_ends_with_a_line_feed(bytes: Seq<u8>)
    ensures
        line_len(bytes) <= bytes.len(),
        bytes.len() > 0 ==> line_len(bytes) > 0,
        forall|i: int| 0 <= i < line_len(bytes) - 1 ==> #[trigger] bytes[i] != 10,
        0 < line_len(bytes) < bytes.len() ==> bytes[line_len(bytes) - 1] == 10,
    decreases bytes.len(),
{
    if bytes.len() > 0 && bytes[0] != 10 {
        let rest = bytes.skip(1);
        lemma_a_line_ends_with_a_line_feed(rest);
        assert forall|i: int| 0 <= i < line_len(bytes) - 1 implies #[trigger] bytes[i] != 10 by {
            if i > 0 {
                assert(rest[i - 1] == bytes[i]);
            }
        }
        if 0 < line_len(bytes) < bytes.len() {
            assert(rest[line_len(rest) - 1] == bytes[line_len(bytes) - 1]);
        }
    }
}

/// Bytes with no line feed but at their end, and a line feed there or nothing
/// behind them: those are the first line.
pub proof fn lemma_first_line_is_read(raw: Seq<u8>, rest: Seq<u8>)
    requires
        raw.len() > 0,
        forall|i: int| 0 <= i < raw.len() - 1 ==> #[trigger] raw[i] != 10,
        raw.last() == 10 || rest.len() == 0,
    ensures
        line_len(raw + rest) == raw.len(),
        (raw + rest).take(raw.len() as int) == raw,
        (raw + rest).skip(raw.len() as int) == rest,
{
    let bytes = raw + rest;
    let n = line_len(bytes) as int;
    lemma_a_line_ends_with_a_line_feed(bytes);
    assert forall|i: int| 0 <= i < raw.len() implies bytes[i] == raw[i] by {}
    if n < raw.len() {
        assert(bytes[n - 1] == 10);
        assert(raw[n - 1] != 10);
    }
    if n > raw.len() {
        assert(bytes[raw.len() - 1] != 10);
    }
    assert(bytes.take(raw.len() as int) =~= raw);
    assert(bytes.skip(raw.len() as int) =~= rest);
}

/// A character that stands behind a text without it stands there first.
pub proof fn lemma_first_place(front: Seq<char>, c: char, rest: Seq<char>)
    requires
        !front.contains(c),
    ensures
        position(front.push(c) + rest, c) == front.len(),
        position(front, c) == front.len(),
{
    let text = front.push(c) + rest;
    crate::text::lemma_position(text, c);
    crate::text::lemma_position(front, c);
    assert(text[front.len() as int] == c);
    if position(text, c) < front.len() {
        assert(text[position(text, c) as int] == front[position(text, c) as int]);
        assert(front.contains(c));
    }
    if position(front, c) < front.len() {
        assert(front.contains(c));
    }
}

/// Which texts are one line, which names a listing can carry, and which are
/// one word.
pub proof fn lemma_one_line_has_no_line_feed(text: Seq<char>)
    ensures
        is_one_line(text) <==> !text.contains('\n') && (text.len() == 0 || text.last() != '\r'),
        is_listable(text) <==> text.len() > 0 && !text.contains('\n') && text.last() != '\r',
        is_word(text) <==> !text.contains(' ') && !text.contains('\r') && !text.contains('\n'),
{
    if text.contains('\n') {
        let i = choose|i: int| 0 <= i < text.len() && text[i] == '\n';
        assert(text[i] == '\n');
    }
    if text.contains('\r') {
        let i = choose|i: int| 0 <= i < text.len() && text[i] == '\r';
        assert(text[i] == '\r');
    }
    if text.contains(' ') {
        let i = choose|i: int| 0 <= i < text.len() && text[i] == ' ';
        assert(text[i] == ' ');
    }
}

} // verus!
