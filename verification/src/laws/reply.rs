//! What holds of replies: which lines open and close one, what its text is,
//! what stays unread, and which address a `227` carries.

use vstd::prelude::*;
use vstd::utf8::{decode_utf8, encode_utf8, valid_utf8};

use crate::error::ErrorView;
use crate::laws::text::{
    lemma_first_line_is_read, lemma_first_place, lemma_trimming_gives_the_text,
};
use crate::reply::{
    after_line, closes, code_or_shown, in_parentheses, lemma_run_ends, line_text, numbers, opens,
    passive_address, port_fits, reply_bytes, reply_code, reply_in, ReplyView, Taken,
};
use crate::text::{decimal, number, quoted};

verus! {

/// The hundreds of a code tell what the reply is.
pub proof fn lemma_the_hundreds_tell(reply: ReplyView)
    ensures
        reply.is_preliminary() <==> 100 <= reply.code < 200,
        reply.is_completion() <==> 200 <= reply.code < 300,
        reply.is_intermediate() <==> 300 <= reply.code < 400,
        reply.is_transient() <==> 400 <= reply.code < 500,
{
}

proof fn lemma_numbers_of_digits(digits: Seq<char>)
    requires
        forall|i: int| 0 <= i < digits.len() ==> '0' <= #[trigger] digits[i] <= '9',
    ensures
        digits.len() == 2 ==> number(digits) == (digits[0] as int - 48) * 10 + (digits[1] as int
            - 48),
        digits.len() == 3 ==> number(digits) == (digits[0] as int - 48) * 100 + (digits[1] as int
            - 48) * 10 + (digits[2] as int - 48),
{
    reveal_with_fuel(number, 4);
    if digits.len() == 2 {
        assert(digits.drop_last().drop_last() =~= Seq::<char>::empty());
    }
    if digits.len() == 3 {
        assert(digits.drop_last().drop_last().drop_last() =~= Seq::<char>::empty());
    }
}

/// A line has a code exactly where it opens with one from 100 to 599 and has
/// something behind it, and the code is what its digits come to. Any other
/// line is refused, and shown: as no reply where it opens with a number, three
/// digits or a plus and two, and else as opening with no code.
pub proof fn lemma_a_code_is_three_digits(line: Seq<char>, shown: Seq<char>)
    ensures
        code_or_shown(line, shown) is Ok <==> line.len() >= 4 && '1' <= line[0] <= '5' && '0'
            <= line[1] <= '9' && '0' <= line[2] <= '9',
        code_or_shown(line, shown) matches Ok(code) ==> code == (line[0] as int - 48) * 100 + (
        line[1] as int - 48) * 10 + (line[2] as int - 48),
        code_or_shown(line, shown) matches Err(error) ==> error == (if line.len() >= 3 && (line[0]
            == '+' || '0' <= line[0] <= '9') && '0' <= line[1] <= '9' && '0' <= line[2] <= '9' {
            ErrorView::Protocol(shown + " is not a reply"@)
        } else {
            ErrorView::Protocol(shown + " does not open with a reply code"@)
        }),
        reply_code(line) == code_or_shown(line, quoted(line)),
{
    if line.len() >= 3 && '0' <= line[1] <= '9' && '0' <= line[2] <= '9' {
        if '0' <= line[0] <= '9' {
            lemma_numbers_of_digits(line.take(3));
        } else {
            lemma_numbers_of_digits(line.subrange(1, 3));
        }
    }
}

/// A line closes a reply of several lines exactly where it opens with the
/// digits of the reply's code and a space.
pub proof fn lemma_the_code_and_a_space_close(line: Seq<char>, code: u16)
    requires
        100 <= code < 600,
    ensures
        closes(line, code) <==> line.len() >= 4 && line.take(3) == decimal(code as nat) && line[3]
            == ' ',
        closes(line, code) <==> line.len() >= 4 && '1' <= line[0] <= '5' && '0' <= line[1] <= '9'
            && '0' <= line[2] <= '9' && line[3] == ' ' && (line[0] as int - 48) * 100 + (
        line[1] as int - 48) * 10 + (line[2] as int - 48) == code,
        line.len() >= 4 && line[3] != ' ' ==> !closes(line, code),
{
    lemma_a_code_is_three_digits(line, quoted(line));
    reveal_with_fuel(decimal, 4);
    let digits = decimal(code as nat);
    let c = code as nat;
    assert(digits.len() == 3);
    assert(digits[2] as int == 48 + c % 10);
    assert(digits[1] as int == 48 + (c / 10) % 10);
    assert(digits[0] as int == 48 + c / 100);
    if line.len() >= 4 {
        if line.take(3) == digits {
            assert(line[0] == digits[0] && line[1] == digits[1] && line[2] == digits[2]);
        }
        if '1' <= line[0] <= '5' && '0' <= line[1] <= '9' && '0' <= line[2] <= '9' && (
        line[0] as int - 48) * 100 + (line[1] as int - 48) * 10 + (line[2] as int - 48) == code {
            assert(line.take(3)[0] == line[0]);
            assert(line[2] as int - 48 == c % 10);
            assert(line[1] as int - 48 == (c / 10) % 10);
            assert(line[0] as int - 48 == c / 100);
            assert(line[0] == digits[0]);
            assert(line[1] == digits[1]);
            assert(line[2] == digits[2]);
            assert(line.take(3) =~= digits);
        }
    }
}

/// What was read of a line is its text without the line ends, unless nothing
/// was read or it is not text.
pub proof fn lemma_a_line_is_its_text(raw: Seq<u8>, line: Seq<char>, ends: Seq<char>)
    requires
        raw.len() > 0,
        valid_utf8(raw),
        decode_utf8(raw) == line + ends,
        line.len() > 0 ==> line.last() != '\r' && line.last() != '\n',
        forall|i: int| 0 <= i < ends.len() ==> #[trigger] ends[i] == '\r' || ends[i] == '\n',
    ensures
        line_text(raw) == Ok::<Seq<char>, ErrorView>(line),
{
    lemma_trimming_gives_the_text(line, ends);
}

/// Nothing read means that the peer is gone, and what is not text is garbled.
pub proof fn lemma_what_is_no_line(raw: Seq<u8>, so_far: Option<ReplyView>)
    ensures
        raw.len() == 0 ==> line_text(raw) == Err::<Seq<char>, ErrorView>(
            ErrorView::Protocol("the peer closed the control connection"@),
        ),
        raw.len() > 0 && !valid_utf8(raw) ==> line_text(raw) == Err::<Seq<char>, ErrorView>(
            ErrorView::Garbled("reading a reply"@),
        ),
        raw.len() == 0 || !valid_utf8(raw) ==> opens(raw) && after_line(so_far, raw) == Err::<
            Taken,
            ErrorView,
        >(line_text(raw)->Err_0),
{
}

/// A first line gives the code and the text behind the character that
/// follows it. That character, a hyphen, tells that more lines follow. A line
/// without a code is refused.
pub proof fn lemma_the_first_line(raw: Seq<u8>, line: Seq<char>, ends: Seq<char>)
    requires
        raw.len() > 0,
        valid_utf8(raw),
        decode_utf8(raw) == line + ends,
        line.len() > 0 ==> line.last() != '\r' && line.last() != '\n',
        forall|i: int| 0 <= i < ends.len() ==> #[trigger] ends[i] == '\r' || ends[i] == '\n',
    ensures
        opens(raw) <==> !(line.len() >= 4 && '1' <= line[0] <= '5' && '0' <= line[1] <= '9' && '0'
            <= line[2] <= '9' && line[3] as u32 >= 0x80),
        line.len() >= 4 && '1' <= line[0] <= '5' && '0' <= line[1] <= '9' && '0' <= line[2] <= '9'
            ==> ({
            let reply = ReplyView {
                code: ((line[0] as int - 48) * 100 + (line[1] as int - 48) * 10 + (line[2] as int
                    - 48)) as u16,
                text: line.subrange(4, line.len() as int),
            };
            after_line(None, raw) == if line[3] == '-' {
                Ok::<Taken, ErrorView>(Taken::Open(reply))
            } else {
                Ok::<Taken, ErrorView>(Taken::Complete(reply))
            }
        }),
        !(line.len() >= 4 && '1' <= line[0] <= '5' && '0' <= line[1] <= '9' && '0' <= line[2]
            <= '9') ==> after_line(None, raw) == Err::<Taken, ErrorView>(
            code_or_shown(line, quoted(line))->Err_0,
        ),
{
    lemma_a_line_is_its_text(raw, line, ends);
    lemma_a_code_is_three_digits(line, quoted(line));
    if line.len() >= 4 {
        assert(line.subrange(4, line.len() as int) =~= line.skip(4));
    }
}

/// A further line is joined behind a line feed: the text behind the code and
/// the space that close the reply, and any other line whole, the reply staying
/// open. The code stays.
pub proof fn lemma_a_further_line(
    reply: ReplyView,
    raw: Seq<u8>,
    line: Seq<char>,
    ends: Seq<char>,
)
    requires
        100 <= reply.code < 600,
        raw.len() > 0,
        valid_utf8(raw),
        decode_utf8(raw) == line + ends,
        line.len() > 0 ==> line.last() != '\r' && line.last() != '\n',
        forall|i: int| 0 <= i < ends.len() ==> #[trigger] ends[i] == '\r' || ends[i] == '\n',
    ensures
        line.len() >= 4 && line.take(3) == decimal(reply.code as nat) && line[3] == ' '
            ==> after_line(Some(reply), raw) == Ok::<Taken, ErrorView>(
            Taken::Complete(
                ReplyView {
                    code: reply.code,
                    text: reply.text + "\n"@ + line.subrange(4, line.len() as int),
                },
            ),
        ),
        !(line.len() >= 4 && line.take(3) == decimal(reply.code as nat) && line[3] == ' ')
            ==> after_line(Some(reply), raw) == Ok::<Taken, ErrorView>(
            Taken::Open(ReplyView { code: reply.code, text: reply.text + "\n"@ + line }),
        ),
{
    lemma_a_line_is_its_text(raw, line, ends);
    lemma_the_code_and_a_space_close(line, reply.code);
    if line.len() >= 4 {
        assert(line.subrange(4, line.len() as int) =~= line.skip(4));
    }
}

/// A reply is read line by line, up to the one that ends or refuses it, and
/// what follows that line stays unread. Where the lines run out, the peer is
/// gone.
pub proof fn lemma_reading_goes_line_by_line(
    raw: Seq<u8>,
    rest: Seq<u8>,
    so_far: Option<ReplyView>,
)
    requires
        raw.len() > 0,
        forall|i: int| 0 <= i < raw.len() - 1 ==> #[trigger] raw[i] != 10,
        raw.last() == 10 || rest.len() == 0,
    ensures
        match after_line(so_far, raw) {
            Ok(Taken::Complete(reply)) => reply_in(raw + rest, so_far) == (
                Ok::<ReplyView, ErrorView>(reply),
                rest,
            ),
            Ok(Taken::Open(reply)) => reply_in(raw + rest, so_far) == reply_in(rest, Some(reply)),
            Err(error) => reply_in(raw + rest, so_far) == (
                Err::<ReplyView, ErrorView>(error),
                rest,
            ),
        },
        reply_in(Seq::empty(), so_far) == (
            Err::<ReplyView, ErrorView>(
                ErrorView::Protocol("the peer closed the control connection"@),
            ),
            Seq::<u8>::empty(),
        ),
{
    lemma_first_line_is_read(raw, rest);
}

/// A reply is written as its code, a space, its text and a line end.
pub proof fn lemma_a_reply_is_written_whole(code: u16, text: Seq<char>)
    ensures
        reply_bytes(code, text) == encode_utf8(decimal(code as nat) + " "@ + text + "\r\n"@),
{
}

/// Numbers are read from the front: what is no digit is passed over, and a
/// run of digits is one number, left out where it is over 65535.
pub proof fn lemma_numbers_are_runs_of_digits(c: char, digits: Seq<char>, rest: Seq<char>)
    requires
        !('0' <= c <= '9'),
        digits.len() > 0,
        forall|i: int| 0 <= i < digits.len() ==> '0' <= #[trigger] digits[i] <= '9',
        rest.len() == 0 || !('0' <= rest[0] <= '9'),
    ensures
        numbers(Seq::empty()) == Seq::<u16>::empty(),
        numbers(seq![c] + rest) == numbers(rest),
        number(digits) <= 65535 ==> numbers(digits + rest) == seq![number(digits) as u16]
            + numbers(rest),
        number(digits) > 65535 ==> numbers(digits + rest) == numbers(rest),
{
    let one = seq![c] + rest;
    assert(one.skip(1) =~= rest);
    assert(one[0] == c);
    let text = digits + rest;
    lemma_run_ends(digits, rest);
    assert(text[0] == digits[0]);
    assert(text.take(digits.len() as int) =~= digits);
    assert(text.skip(digits.len() as int) =~= rest);
}

/// The numbers of a `227` are those behind its first opening parenthesis, or
/// all of them where it has none.
pub proof fn lemma_the_parenthesis_opens(front: Seq<char>, rest: Seq<char>)
    requires
        !front.contains('('),
    ensures
        in_parentheses(front.push('(') + rest) == rest,
        in_parentheses(front) == front,
{
    lemma_first_place(front, '(', rest);
    assert((front.push('(') + rest).skip(front.len() as int + 1) =~= rest);
}

/// A `227` with fewer than six numbers carries no address; else the first
/// four are the host's, and the port is the fifth times 256 and the sixth.
pub proof fn lemma_six_numbers_are_an_address(text: Seq<char>)
    ensures
        ({
            let parts = numbers(in_parentheses(text));
            let port = parts[4] * 256 + parts[5];
            &&& parts.len() < 6 ==> passive_address(text) == Err::<Seq<char>, ErrorView>(
                ErrorView::Protocol("a 227 without a passive address in it"@),
            )
            &&& parts.len() >= 6 ==> passive_address(text) == Ok::<Seq<char>, ErrorView>(
                decimal(parts[0] as nat) + "."@ + decimal(parts[1] as nat) + "."@ + decimal(
                    parts[2] as nat,
                ) + "."@ + decimal(parts[3] as nat) + ":"@ + decimal(port as nat),
            )
            &&& port_fits(text) <==> parts.len() < 6 || port <= 65535
        }),
{
}

} // verus!
