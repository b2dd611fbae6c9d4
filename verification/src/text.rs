//! Text as the control connection carries it: characters, decimal numbers,
//! lines and the bytes they arrive as.

use vstd::prelude::*;
use vstd::utf8::{
    decode_utf8, encode_scalar, encode_utf8, encode_utf8_decode_utf8, encode_utf8_valid_utf8,
    has_width_1_encoding, is_ascii_chars_encode_utf8, last_continuation_byte,
    leading_byte_width_1, leading_byte_width_2, leading_byte_width_3, leading_byte_width_4,
    second_last_continuation_byte, third_last_continuation_byte, valid_utf8,
};

verus! {

/// An ASCII decimal digit.
pub open spec fn is_digit(c: char) -> bool {
    '0' <= c <= '9'
}

/// What a decimal digit stands for.
pub open spec fn digit_value(c: char) -> nat {
    (c as nat - '0' as nat) as nat
}

/// The number that a run of decimal digits writes.
pub open spec fn number(digits: Seq<char>) -> nat
    decreases digits.len(),
{
    if digits.len() == 0 {
        0
    } else {
        number(digits.drop_last()) * 10 + digit_value(digits.last())
    }
}

/// The decimal digit for a number below ten.
pub open spec fn digit(n: nat) -> char {
    ('0' as nat + n) as char
}

/// A number in decimal, without leading zeros.
pub open spec fn decimal(n: nat) -> Seq<char>
    decreases n,
{
    if n < 10 {
        seq![digit(n)]
    } else {
        decimal(n / 10).push(digit(n % 10))
    }
}

/// Where `c` first stands in `text`, or the end of `text`.
pub open spec fn position(text: Seq<char>, c: char) -> nat
    decreases text.len(),
{
    if text.len() == 0 || text[0] == c {
        0
    } else {
        1 + position(text.skip(1), c)
    }
}

/// A character that ends a line: a carriage return or a line feed.
pub open spec fn is_line_end(c: char) -> bool {
    c == '\r' || c == '\n'
}

/// `text` without the line ends that close it.
pub open spec fn trimmed(text: Seq<char>) -> Seq<char>
    decreases text.len(),
{
    if text.len() > 0 && is_line_end(text.last()) {
        trimmed(text.drop_last())
    } else {
        text
    }
}

/// `text` without the one line feed that closes it, nor the carriage return
/// before that.
pub open spec fn chomped(text: Seq<char>) -> Seq<char> {
    if text.len() > 0 && text.last() == '\n' {
        let body = text.drop_last();
        if body.len() > 0 && body.last() == '\r' {
            body.drop_last()
        } else {
            body
        }
    } else {
        text
    }
}

/// An ASCII letter in upper case, any other character as it is.
pub open spec fn upper(c: char) -> char {
    if 'a' <= c <= 'z' {
        (c as u32 - 32) as char
    } else {
        c
    }
}

/// `text` with its ASCII letters in upper case.
pub open spec fn uppercase(text: Seq<char>) -> Seq<char> {
    Seq::new(text.len(), |i: int| upper(text[i]))
}

/// The length of the first line in `bytes`: up to and with the first line
/// feed, or all of them where there is none.
pub open spec fn line_len(bytes: Seq<u8>) -> nat
    decreases bytes.len(),
{
    if bytes.len() == 0 {
        0
    } else if bytes[0] == 10 {
        1
    } else {
        1 + line_len(bytes.skip(1))
    }
}

/// Whether `text` can be written as one line and read back: it holds no line
/// feed, and does not end in a carriage return.
pub open spec fn is_one_line(text: Seq<char>) -> bool {
    &&& forall|i: int| 0 <= i < text.len() ==> text[i] != '\n'
    &&& text.len() > 0 ==> text.last() != '\r'
}

/// What `{:?}` writes of a text: in quotes, with escapes.
pub uninterp spec fn quoted(text: Seq<char>) -> Seq<char>;

/// The characters of a string, one by one.
pub fn chars_of(text: &str) -> (chars: Vec<char>)
    ensures
        chars@ == text@,
{
    let mut chars: Vec<char> = Vec::new();
    for c in iter: text.chars()
        invariant
            chars@ == iter.seq().take(iter.index() as int),
            iter.seq() == text@,
    {
        chars.push(c);
    }
    assert(chars@ =~= text@);
    chars
}

/// A number in decimal.
pub fn to_decimal(n: u16) -> (text: String)
    ensures
        text@ == decimal(n as nat),
    decreases n,
{
    let mut text: String = if n < 10 { String::new() } else { to_decimal(n / 10) };
    let last: u16 = n % 10;
    let one: &str = if last == 0 {
        "0"
    } else if last == 1 {
        "1"
    } else if last == 2 {
        "2"
    } else if last == 3 {
        "3"
    } else if last == 4 {
        "4"
    } else if last == 5 {
        "5"
    } else if last == 6 {
        "6"
    } else if last == 7 {
        "7"
    } else if last == 8 {
        "8"
    } else {
        "9"
    };
    text.append(one);
    proof {
        reveal_strlit("0");
        reveal_strlit("1");
        reveal_strlit("2");
        reveal_strlit("3");
        reveal_strlit("4");
        reveal_strlit("5");
        reveal_strlit("6");
        reveal_strlit("7");
        reveal_strlit("8");
        reveal_strlit("9");
        assert(one@ =~= seq![digit(last as nat)]);
        assert(text@ =~= decimal(n as nat));
    }
    text
}

/// The first line of `bytes` is no longer than `bytes`, and is empty only
/// where they are.
pub proof fn lemma_line_len(bytes: Seq<u8>)
    ensures
        line_len(bytes) <= bytes.len(),
        bytes.len() > 0 ==> line_len(bytes) > 0,
    decreases bytes.len(),
{
    if bytes.len() > 0 && bytes[0] != 10 {
        lemma_line_len(bytes.skip(1));
    }
}

/// How many of `bytes` the first line takes.
pub fn first_line(bytes: &[u8]) -> (n: usize)
    ensures
        n == line_len(bytes@),
        n <= bytes@.len(),
{
    let mut i: usize = 0;
    proof {
        lemma_line_len(bytes@);
        assert(bytes@.skip(0) =~= bytes@);
    }
    while i < bytes.len()
        invariant
            i <= bytes@.len(),
            line_len(bytes@) == i + line_len(bytes@.skip(i as int)),
        decreases bytes@.len() - i,
    {
        proof {
            lemma_line_len(bytes@.skip(i as int));
            assert(bytes@.skip(i as int).skip(1) =~= bytes@.skip(i + 1));
        }
        if bytes[i] == 10 {
            return i + 1;
        }
        i += 1;
    }
    i
}

/// Where a character stands in a text: all before it are others.
pub proof fn lemma_position(text: Seq<char>, c: char)
    ensures
        position(text, c) <= text.len(),
        position(text, c) < text.len() ==> text[position(text, c) as int] == c,
        forall|i: int| 0 <= i < position(text, c) ==> text[i] != c,
    decreases text.len(),
{
    if text.len() > 0 && text[0] != c {
        lemma_position(text.skip(1), c);
        assert forall|i: int| 0 <= i < position(text, c) implies text[i] != c by {
            if i > 0 {
                assert(text[i] == text.skip(1)[i - 1]);
            }
        }
    }
}

/// Where `c` first stands among `chars`, or their number.
pub fn find(chars: &Vec<char>, c: char) -> (at: usize)
    ensures
        at == position(chars@, c),
        at <= chars@.len(),
{
    let mut i: usize = 0;
    proof {
        assert(chars@.skip(0) =~= chars@);
    }
    while i < chars.len()
        invariant
            i <= chars@.len(),
            position(chars@, c) == i + position(chars@.skip(i as int), c),
        decreases chars@.len() - i,
    {
        if chars[i] == c {
            return i;
        }
        proof {
            assert(chars@.skip(i as int).skip(1) =~= chars@.skip(i + 1));
        }
        i += 1;
    }
    i
}

/// `text` without the line ends that close it.
pub fn trim_line_end(text: &str) -> (line: String)
    ensures
        line@ == trimmed(text@),
{
    let chars: Vec<char> = chars_of(text);
    let mut n: usize = chars.len();
    proof {
        assert(text@.take(n as int) =~= text@);
    }
    while n > 0 && (chars[n - 1] == '\r' || chars[n - 1] == '\n')
        invariant
            n <= chars@.len(),
            chars@ == text@,
            trimmed(text@) == trimmed(text@.take(n as int)),
        decreases n,
    {
        proof {
            assert(text@.take(n as int).drop_last() =~= text@.take(n - 1));
        }
        n -= 1;
    }
    proof {
        assert(text@.take(n as int) =~= text@.subrange(0, n as int));
    }
    text.substring_char(0, n).to_owned()
}

/// `text` without the one line end that closes it.
pub fn chomp(text: &str) -> (line: String)
    ensures
        line@ == chomped(text@),
{
    let chars: Vec<char> = chars_of(text);
    let mut n: usize = chars.len();
    if n > 0 && chars[n - 1] == '\n' {
        n -= 1;
        if n > 0 && chars[n - 1] == '\r' {
            n -= 1;
        }
    }
    proof {
        assert(text@.subrange(0, n as int) =~= chomped(text@));
    }
    text.substring_char(0, n).to_owned()
}

/// Whether `text`, its ASCII letters put in upper case, is `word`.
pub fn reads_as(text: &Vec<char>, word: &str) -> (yes: bool)
    ensures
        yes == (uppercase(text@) == word@),
{
    let letters: Vec<char> = chars_of(word);
    if text.len() != letters.len() {
        return false;
    }
    let mut i: usize = 0;
    while i < text.len()
        invariant
            i <= text@.len() == letters@.len(),
            letters@ == word@,
            forall|j: int| 0 <= j < i ==> upper(text@[j]) == letters@[j],
        decreases text@.len() - i,
    {
        if to_upper(text[i]) != letters[i] {
            proof {
                assert(uppercase(text@)[i as int] != word@[i as int]);
            }
            return false;
        }
        i += 1;
    }
    proof {
        assert(uppercase(text@) =~= word@);
    }
    true
}

fn to_upper(c: char) -> (u: char)
    ensures
        u == upper(c),
{
    if 'a' <= c && c <= 'z' {
        ((c as u8) - 32) as char
    } else {
        c
    }
}

/// The text that `bytes` encode, or nothing where they are not UTF-8.
///
/// This is `std::str::from_utf8`: it succeeds exactly on valid UTF-8, and its
/// text is then the one that the bytes encode.
#[verifier::external_body]
pub(crate) fn text_of(bytes: &[u8]) -> (text: Option<&str>)
    ensures
        text is Some <==> valid_utf8(bytes@),
        text matches Some(t) ==> t@ == decode_utf8(bytes@),
{
    std::str::from_utf8(bytes).ok()
}

/// `text` as `{:?}` shows it.
///
/// This is the `Debug` of `str`, which puts the text in double quotes and
/// escapes what would not print. What it writes depends on the text alone;
/// which characters it escapes is not stated.
#[verifier::external_body]
pub(crate) fn quote(text: &str) -> (shown: String)
    ensures
        shown@ == quoted(text@),
{
    format!("{text:?}")
}

/// The bytes of `text` in UTF-8.
pub(crate) fn bytes_of(text: &str) -> (bytes: Vec<u8>)
    ensures
        bytes@ == encode_utf8(text@),
{
    text.as_bytes_vec()
}

/// The decimal of a number is made of digits, and writes that number.
pub proof fn lemma_decimal(n: nat)
    ensures
        number(decimal(n)) == n,
        decimal(n).len() > 0,
        forall|i: int| 0 <= i < decimal(n).len() ==> is_digit(#[trigger] decimal(n)[i]),
    decreases n,
{
    if n < 10 {
        reveal_with_fuel(number, 2);
        assert(decimal(n).drop_last() =~= Seq::<char>::empty());
    } else {
        lemma_decimal(n / 10);
        assert(decimal(n).drop_last() =~= decimal(n / 10));
    }
}

/// The bytes of two texts, one behind the other.
pub proof fn lemma_encode_concat(a: Seq<char>, b: Seq<char>)
    ensures
        encode_utf8(a + b) == encode_utf8(a) + encode_utf8(b),
    decreases a.len(),
{
    if a.len() == 0 {
        assert(a + b =~= b);
        assert(encode_utf8(a) + encode_utf8(b) =~= encode_utf8(b));
    } else {
        lemma_encode_concat(a.drop_first(), b);
        assert((a + b).drop_first() =~= a.drop_first() + b);
        assert(encode_utf8(a + b) =~= encode_utf8(a) + encode_utf8(b));
    }
}

/// No character but the line feed puts a line feed among the bytes.
pub proof fn lemma_encode_no_line_feed(text: Seq<char>)
    requires
        forall|i: int| 0 <= i < text.len() ==> text[i] != '\n',
    ensures
        forall|i: int| 0 <= i < encode_utf8(text).len() ==> encode_utf8(text)[i] != 10,
    decreases text.len(),
{
    if text.len() > 0 {
        let rest = text.drop_first();
        assert forall|i: int| 0 <= i < rest.len() implies rest[i] != '\n' by {
            assert(rest[i] == text[i + 1]);
        }
        lemma_encode_no_line_feed(rest);
        lemma_scalar_no_line_feed(text[0]);
        let first = encode_scalar(text[0] as u32);
        assert forall|i: int| 0 <= i < encode_utf8(text).len() implies encode_utf8(text)[i]
            != 10 by {
            if i < first.len() {
                assert(first.contains(first[i]));
            } else {
                assert(encode_utf8(text)[i] == encode_utf8(rest)[i - first.len()]);
            }
        }
    }
}

proof fn lemma_scalar_no_line_feed(head: char)
    requires
        head != '\n',
    ensures
        !encode_scalar(head as u32).contains(10),
{
    let c = head as u32;
    assert(c != 10);
    assert(has_width_1_encoding(c) && c != 10 ==> leading_byte_width_1(c) != 10) by (bit_vector);
    assert(leading_byte_width_2(c) != 10 && leading_byte_width_3(c) != 10
        && leading_byte_width_4(c) != 10 && last_continuation_byte(c) != 10
        && second_last_continuation_byte(c) != 10 && third_last_continuation_byte(c) != 10)
        by (bit_vector);
}

/// Bytes without a line feed, and a line feed: that is a first line.
pub proof fn lemma_first_line(body: Seq<u8>, rest: Seq<u8>)
    requires
        forall|i: int| 0 <= i < body.len() ==> body[i] != 10,
    ensures
        line_len(body.push(10) + rest) == body.len() + 1,
    decreases body.len(),
{
    let bytes = body.push(10) + rest;
    if body.len() > 0 {
        let tail = body.drop_first();
        assert forall|i: int| 0 <= i < tail.len() implies tail[i] != 10 by {
            assert(tail[i] == body[i + 1]);
        }
        lemma_first_line(tail, rest);
        assert(bytes.skip(1) =~= tail.push(10) + rest);
        assert(bytes[0] == body[0]);
    } else {
        assert(bytes[0] == 10);
    }
}

/// A line that ends as lines do on the wire is the first line of what is
/// read, and its text comes back.
pub proof fn lemma_line_reads_back(line: Seq<char>, rest: Seq<u8>)
    requires
        is_one_line(line),
    ensures
        ({
            let raw = encode_utf8(line + "\r\n"@);
            &&& raw.len() > 0
            &&& line_len(raw + rest) == raw.len()
            &&& valid_utf8(raw)
            &&& decode_utf8(raw) == line + "\r\n"@
            &&& trimmed(decode_utf8(raw)) == line
            &&& chomped(decode_utf8(raw)) == line
        }),
{
    reveal_strlit("\r\n");
    let whole = line + "\r\n"@;
    let raw = encode_utf8(whole);
    encode_utf8_valid_utf8(whole);
    encode_utf8_decode_utf8(whole);
    let body = line.push('\r');
    assert(whole =~= body + seq!['\n']);
    lemma_encode_concat(body, seq!['\n']);
    lemma_encode_no_line_feed(body);
    is_ascii_chars_encode_utf8(seq!['\n']);
    assert(encode_utf8(seq!['\n']) =~= seq![10u8]);
    assert(raw =~= encode_utf8(body).push(10));
    lemma_first_line(encode_utf8(body), rest);
    assert(whole.drop_last() =~= body);
    assert(body.drop_last() =~= line);
    reveal_with_fuel(trimmed, 3);
}

} // verus!
