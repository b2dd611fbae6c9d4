//! RFC 959 replies on the control connection: a three-digit code, one line
//! or several, and the passive-mode address a `227` carries.

use vstd::prelude::*;
use vstd::slice::slice_subrange;
use vstd::utf8::{decode_utf8, encode_utf8, valid_utf8};

use crate::error::{protocol_error, ErrorView, TransportError};
use crate::laws::reply::lemma_the_code_and_a_space_close;
use crate::text::{
    bytes_of, chars_of, decimal, digit_value, find, first_line, is_digit, is_one_line,
    lemma_decimal, lemma_line_len, lemma_line_reads_back, line_len, number, position, quote,
    quoted, text_of, to_decimal, trim_line_end, trimmed,
};

verus! {

/// One reply, its code and its text with the code stripped.
#[derive(Clone, Debug, PartialEq, Eq)]
pub struct Reply {
    pub code: u16,
    pub text: String,
}

/// A [`Reply`] by the characters of its text.
pub struct ReplyView {
    pub code: u16,
    pub text: Seq<char>,
}

impl View for Reply {
    type V = ReplyView;

    open spec fn view(&self) -> ReplyView {
        ReplyView { code: self.code, text: self.text@ }
    }
}

impl ReplyView {
    /// Positive preliminary, `1xx`.
    pub open spec fn is_preliminary(self) -> bool {
        100 <= self.code < 200
    }

    /// Positive completion, `2xx`.
    pub open spec fn is_completion(self) -> bool {
        200 <= self.code < 300
    }

    /// Positive intermediate, `3xx`.
    pub open spec fn is_intermediate(self) -> bool {
        300 <= self.code < 400
    }

    /// Transient negative, `4xx`.
    pub open spec fn is_transient(self) -> bool {
        400 <= self.code < 500
    }
}

/// How many digits `text` opens with.
pub open spec fn run_len(text: Seq<char>) -> nat
    decreases text.len(),
{
    if text.len() == 0 || !is_digit(text[0]) {
        0
    } else {
        1 + run_len(text.skip(1))
    }
}

/// A run of digits is part of its text.
pub proof fn lemma_run_len(text: Seq<char>)
    ensures
        run_len(text) <= text.len(),
    decreases text.len(),
{
    if text.len() > 0 && is_digit(text[0]) {
        lemma_run_len(text.skip(1));
    }
}

/// The numbers that stand in `text`, in their order, without those that are
/// over 65535.
pub open spec fn numbers(text: Seq<char>) -> Seq<u16>
    decreases text.len(),
{
    if text.len() == 0 {
        Seq::empty()
    } else if !is_digit(text[0]) {
        numbers(text.skip(1))
    } else {
        let run = run_len(text);
        proof {
            lemma_run_len(text);
        }
        let value = number(text.take(run as int));
        if value <= u16::MAX {
            seq![value as u16] + numbers(text.skip(run as int))
        } else {
            numbers(text.skip(run as int))
        }
    }
}

/// A run of digits ends where another character follows.
pub proof fn lemma_run_ends(digits: Seq<char>, rest: Seq<char>)
    requires
        forall|i: int| 0 <= i < digits.len() ==> is_digit(#[trigger] digits[i]),
        rest.len() == 0 || !is_digit(rest[0]),
    ensures
        run_len(digits + rest) == digits.len(),
    decreases digits.len(),
{
    let text = digits + rest;
    if digits.len() > 0 {
        let tail = digits.skip(1);
        assert forall|i: int| 0 <= i < tail.len() implies is_digit(#[trigger] tail[i]) by {
            assert(tail[i] == digits[i + 1]);
        }
        lemma_run_ends(tail, rest);
        assert(text.skip(1) =~= tail + rest);
        assert(text[0] == digits[0]);
    } else {
        assert(text =~= rest);
    }
}

/// A number that stands at the front is the first of the numbers.
pub proof fn lemma_first_number(n: u16, rest: Seq<char>)
    requires
        rest.len() == 0 || !is_digit(rest[0]),
    ensures
        numbers(decimal(n as nat) + rest) == seq![n] + numbers(rest),
{
    lemma_decimal(n as nat);
    let digits = decimal(n as nat);
    let text = digits + rest;
    lemma_run_ends(digits, rest);
    assert(text[0] == digits[0]);
    assert(text.take(digits.len() as int) =~= digits);
    assert(text.skip(digits.len() as int) =~= rest);
}

/// The part of `text` behind its first opening parenthesis, or all of it.
pub open spec fn in_parentheses(text: Seq<char>) -> Seq<char> {
    let open = position(text, '(') as int;
    if open < text.len() {
        text.skip(open + 1)
    } else {
        text
    }
}

/// The numbers among which a `227` carries its address.
pub open spec fn passive_numbers(text: Seq<char>) -> Seq<u16> {
    numbers(in_parentheses(text))
}

/// The port that the fifth and the sixth number give.
pub open spec fn passive_port(parts: Seq<u16>) -> int {
    parts[4] * 256 + parts[5]
}

/// Whether the port that a `227` carries, if it carries one, is a port.
pub open spec fn port_fits(text: Seq<char>) -> bool {
    passive_numbers(text).len() >= 6 ==> passive_port(passive_numbers(text)) <= u16::MAX
}

/// `host:port` of the six numbers `h1,h2,h3,h4,p1,p2`.
pub open spec fn host_and_port(parts: Seq<u16>) -> Seq<char> {
    decimal(parts[0] as nat) + "."@ + decimal(parts[1] as nat) + "."@ + decimal(parts[2] as nat)
        + "."@ + decimal(parts[3] as nat) + ":"@ + decimal(passive_port(parts) as nat)
}

/// What a `227` with this text says of where to connect.
pub open spec fn passive_address(text: Seq<char>) -> Result<Seq<char>, ErrorView> {
    if passive_numbers(text).len() >= 6 {
        Ok(host_and_port(passive_numbers(text)))
    } else {
        Err(ErrorView::Protocol("a 227 without a passive address in it"@))
    }
}

impl Reply {
    /// Positive preliminary, `1xx`: the data transfer is about to start.
    #[must_use]
    pub fn is_preliminary(&self) -> (yes: bool)
        ensures
            yes == self@.is_preliminary(),
            yes == (100 <= self.code < 200),
    {
        self.code / 100 == 1
    }

    /// Positive completion, `2xx`.
    #[must_use]
    pub fn is_completion(&self) -> (yes: bool)
        ensures
            yes == self@.is_completion(),
            yes == (200 <= self.code < 300),
    {
        self.code / 100 == 2
    }

    /// Positive intermediate, `3xx`: send the next command of the sequence.
    #[must_use]
    pub fn is_intermediate(&self) -> (yes: bool)
        ensures
            yes == self@.is_intermediate(),
            yes == (300 <= self.code < 400),
    {
        self.code / 100 == 3
    }

    /// Whether a failure is worth trying again: `4xx` is transient, `5xx`
    /// is not.
    #[must_use]
    pub fn is_transient(&self) -> (yes: bool)
        ensures
            yes == self@.is_transient(),
            yes == (400 <= self.code < 500),
    {
        self.code / 100 == 4
    }

    /// The `h1,h2,h3,h4,p1,p2` a `227 Entering Passive Mode` carries, as
    /// `host:port`. A text whose last two numbers make no port is not for
    /// this; [`Self::has_port`] tells.
    ///
    /// # Errors
    /// A 227 without six numbers in it.
    pub fn passive_address(&self) -> (address: Result<String, TransportError>)
        requires
            port_fits(self.text@),
        ensures
            match address {
                Ok(text) => passive_address(self.text@) == Ok::<Seq<char>, ErrorView>(text@),
                Err(error) => passive_address(self.text@) == Err::<Seq<char>, ErrorView>(error@),
            },
    {
        let parts: Vec<u16> = self.parts();
        if parts.len() < 6 {
            return Err(protocol_error("a 227 without a passive address in it"));
        }
        let mut address: String = to_decimal(parts[0]);
        address.append(".");
        address.append(to_decimal(parts[1]).as_str());
        address.append(".");
        address.append(to_decimal(parts[2]).as_str());
        address.append(".");
        address.append(to_decimal(parts[3]).as_str());
        address.append(":");
        address.append(to_decimal(parts[4] * 256 + parts[5]).as_str());
        Ok(address)
    }

    /// Whether the port that the text carries, if it carries one, is a port
    /// number.
    pub fn has_port(&self) -> (fits: bool)
        ensures
            fits == port_fits(self.text@),
    {
        let parts: Vec<u16> = self.parts();
        parts.len() < 6 || parts[4] as u32 * 256 + parts[5] as u32 <= 65535
    }

    fn parts(&self) -> (parts: Vec<u16>)
        ensures
            parts@ == passive_numbers(self.text@),
    {
        let chars: Vec<char> = chars_of(self.text.as_str());
        let open: usize = find(&chars, '(');
        let ghost tail = in_parentheses(self.text@);
        let mut at: usize = if open < chars.len() { open + 1 } else { 0 };
        let mut parts: Vec<u16> = Vec::new();
        proof {
            assert(chars@.skip(at as int) =~= tail);
        }
        while at < chars.len()
            invariant
                at <= chars@.len(),
                parts@ + numbers(chars@.skip(at as int)) =~= numbers(tail),
            decreases chars@.len() - at,
        {
            if !('0' <= chars[at] && chars[at] <= '9') {
                proof {
                    assert(chars@.skip(at as int).skip(1) =~= chars@.skip(at + 1));
                }
                at += 1;
            } else {
                let (end, value) = digits_from(&chars, at);
                proof {
                    let here = chars@.skip(at as int);
                    assert(here.take(end - at) =~= chars@.subrange(at as int, end as int));
                    assert(here.skip(end - at) =~= chars@.skip(end as int));
                }
                if let Some(part) = value {
                    parts.push(part);
                }
                at = end;
            }
        }
        proof {
            assert(chars@.skip(at as int) =~= Seq::<char>::empty());
        }
        parts
    }
}

/// The end of the run of digits that starts at `at`, and its value where
/// that is at most 65535.
fn digits_from(chars: &Vec<char>, at: usize) -> (run: (usize, Option<u16>))
    requires
        at < chars@.len(),
        is_digit(chars@[at as int]),
    ensures
        at < run.0 <= chars@.len(),
        run.0 - at == run_len(chars@.skip(at as int)),
        match run.1 {
            Some(value) => number(chars@.subrange(at as int, run.0 as int)) == value,
            None => number(chars@.subrange(at as int, run.0 as int)) > u16::MAX,
        },
{
    let mut end: usize = at;
    let mut value: Option<u16> = Some(0);
    proof {
        assert(chars@.subrange(at as int, at as int) =~= Seq::<char>::empty());
    }
    while end < chars.len() && '0' <= chars[end] && chars[end] <= '9'
        invariant
            at <= end <= chars@.len(),
            run_len(chars@.skip(at as int)) == end - at + run_len(chars@.skip(end as int)),
            match value {
                Some(v) => number(chars@.subrange(at as int, end as int)) == v,
                None => number(chars@.subrange(at as int, end as int)) > u16::MAX,
            },
        decreases chars@.len() - end,
    {
        proof {
            assert(chars@.skip(end as int).skip(1) =~= chars@.skip(end + 1));
            assert(chars@.subrange(at as int, end + 1).drop_last() =~= chars@.subrange(
                at as int,
                end as int,
            ));
        }
        value = match value {
            Some(v) => {
                let next: u32 = v as u32 * 10 + (chars[end] as u32 - '0' as u32);
                if next <= 65535 {
                    Some(next as u16)
                } else {
                    None
                }
            },
            None => None,
        };
        end += 1;
    }
    (end, value)
}

/// The text of a line as it was read, without its line end. Nothing read
/// means that the peer is gone.
pub open spec fn line_text(raw: Seq<u8>) -> Result<Seq<char>, ErrorView> {
    if raw.len() == 0 {
        Err(ErrorView::Protocol("the peer closed the control connection"@))
    } else if !valid_utf8(raw) {
        Err(ErrorView::Garbled("reading a reply"@))
    } else {
        Ok(trimmed(decode_utf8(raw)))
    }
}

/// The number of three characters that `line` opens with: three digits, or a
/// plus sign and two.
pub open spec fn leading_number(line: Seq<char>) -> Option<nat> {
    if line.len() >= 3 && is_digit(line[1]) && is_digit(line[2]) {
        if is_digit(line[0]) {
            Some(number(line.take(3)))
        } else if line[0] == '+' {
            Some(number(line.subrange(1, 3)))
        } else {
            None
        }
    } else {
        None
    }
}

/// The code that `line` opens with: a number from 100 to 599 with something
/// behind it. Where there is none, the error shows the line as `shown`.
pub open spec fn code_or_shown(line: Seq<char>, shown: Seq<char>) -> Result<u16, ErrorView> {
    match leading_number(line) {
        Some(code) => if 100 <= code < 600 && line.len() >= 4 {
            Ok(code as u16)
        } else {
            Err(ErrorView::Protocol(shown + " is not a reply"@))
        },
        None => Err(ErrorView::Protocol(shown + " does not open with a reply code"@)),
    }
}

/// The code that `line` opens with, or an error that quotes the line.
pub open spec fn reply_code(line: Seq<char>) -> Result<u16, ErrorView> {
    code_or_shown(line, quoted(line))
}

/// Whether `line` can be cut behind the character that follows its code, if
/// it has a code: that character takes one byte.
pub open spec fn cuts(line: Seq<char>) -> bool {
    reply_code(line) is Ok ==> (line[3] as u32) < 0x80
}

/// Whether the line that was read can open a reply or be refused as one.
pub open spec fn opens(raw: Seq<u8>) -> bool {
    line_text(raw) matches Ok(line) ==> cuts(line)
}

/// Where a reply stands after one more of its lines.
pub enum Taken {
    /// More lines follow.
    Open(ReplyView),
    /// That was the last one.
    Complete(ReplyView),
}

/// Whether `line` closes a reply of several lines: the code again, and a
/// space.
pub open spec fn closes(line: Seq<char>, code: u16) -> bool {
    reply_code(line) == Ok::<u16, ErrorView>(code) && line[3] == ' '
}

/// A reply of which `so_far` was read, after one more line.
pub open spec fn after_line(so_far: Option<ReplyView>, raw: Seq<u8>) -> Result<Taken, ErrorView> {
    match line_text(raw) {
        Err(error) => Err(error),
        Ok(line) => match so_far {
            None => match reply_code(line) {
                Err(error) => Err(error),
                Ok(code) => {
                    let reply = ReplyView { code, text: line.skip(4) };
                    if line[3] == '-' {
                        Ok(Taken::Open(reply))
                    } else {
                        Ok(Taken::Complete(reply))
                    }
                },
            },
            Some(reply) => if closes(line, reply.code) {
                Ok(
                    Taken::Complete(
                        ReplyView { code: reply.code, text: reply.text + "\n"@ + line.skip(4) },
                    ),
                )
            } else {
                Ok(Taken::Open(ReplyView { code: reply.code, text: reply.text + "\n"@ + line }))
            },
        },
    }
}

/// What reading a reply from `bytes` gives, `so_far` having been read of it,
/// and the bytes that stay unread.
pub open spec fn reply_in(bytes: Seq<u8>, so_far: Option<ReplyView>) -> (
    Result<ReplyView, ErrorView>,
    Seq<u8>,
)
    decreases bytes.len(),
{
    let n = line_len(bytes) as int;
    let rest = bytes.skip(n);
    if bytes.len() == 0 {
        (Err(ErrorView::Protocol("the peer closed the control connection"@)), bytes)
    } else {
        proof {
            lemma_line_len(bytes);
        }
        match after_line(so_far, bytes.take(n)) {
            Err(error) => (Err(error), rest),
            Ok(Taken::Complete(reply)) => (Ok(reply), rest),
            Ok(Taken::Open(reply)) => reply_in(rest, Some(reply)),
        }
    }
}

/// `code text` as the server writes it.
pub open spec fn reply_bytes(code: u16, text: Seq<char>) -> Seq<u8> {
    encode_utf8(decimal(code as nat) + " "@ + text + "\r\n"@)
}

/// A reply while its lines are read.
pub struct Reading {
    so_far: Option<Reply>,
}

impl View for Reading {
    type V = Option<ReplyView>;

    closed spec fn view(&self) -> Option<ReplyView> {
        match self.so_far {
            Some(reply) => Some(reply@),
            None => None,
        }
    }
}

impl Reading {
    /// A reply of which nothing was read yet.
    pub fn new() -> (reading: Self)
        ensures
            reading@ is None,
    {
        Reading { so_far: None }
    }

    /// Take the next line as it was read, nothing of it where the peer is
    /// gone, and give the reply if that was its last line. The next line is
    /// then the first of another reply. A first line that [`can_open`]
    /// refuses is not for this.
    ///
    /// # Errors
    /// A connection that closed, a line that is not text, or a first line
    /// that does not open with a code.
    pub fn take(&mut self, raw: &[u8]) -> (taken: Result<Option<Reply>, TransportError>)
        requires
            old(self)@ is None ==> opens(raw@),
        ensures
            match taken {
                Ok(Some(reply)) => {
                    &&& after_line(old(self)@, raw@) == Ok::<Taken, ErrorView>(
                        Taken::Complete(reply@),
                    )
                    &&& final(self)@ is None
                },
                Ok(None) => {
                    &&& final(self)@ is Some
                    &&& after_line(old(self)@, raw@) == Ok::<Taken, ErrorView>(
                        Taken::Open(final(self)@->0),
                    )
                },
                Err(error) => {
                    &&& after_line(old(self)@, raw@) == Err::<Taken, ErrorView>(error@)
                    &&& final(self)@ is None
                },
            },
    {
        let so_far: Option<Reply> = self.so_far.take();
        let text: String = match line(raw) {
            Ok(text) => text,
            Err(error) => return Err(error),
        };
        let n: usize = text.as_str().unicode_len();
        match so_far {
            None => {
                let code: u16 = match code_of(text.as_str()) {
                    Ok(code) => code,
                    Err(error) => return Err(error),
                };
                let more: bool = text.as_str().get_char(3) == '-';
                let reply: Reply = Reply {
                    code,
                    text: text.as_str().substring_char(4, n).to_owned(),
                };
                proof {
                    assert(text@.subrange(4, n as int) =~= text@.skip(4));
                }
                if more {
                    self.so_far = Some(reply);
                    Ok(None)
                } else {
                    Ok(Some(reply))
                }
            },
            Some(reply) => {
                let mut reply: Reply = reply;
                let last: bool = match code_of(text.as_str()) {
                    Ok(code) => code == reply.code && text.as_str().get_char(3) == ' ',
                    Err(_) => false,
                };
                reply.text.append("\n");
                if last {
                    reply.text.append(text.as_str().substring_char(4, n));
                    proof {
                        assert(text@.subrange(4, n as int) =~= text@.skip(4));
                    }
                    Ok(Some(reply))
                } else {
                    reply.text.append(text.as_str());
                    self.so_far = Some(reply);
                    Ok(None)
                }
            },
        }
    }
}

/// Whether a line as it was read can be the first of a reply, or be refused
/// as one: a character of several bytes directly behind a code can not be
/// cut from its text.
pub fn can_open(raw: &[u8]) -> (yes: bool)
    ensures
        yes == opens(raw@),
{
    match line(raw) {
        Ok(text) => match code_of(text.as_str()) {
            Ok(_) => (text.as_str().get_char(3) as u32) < 0x80,
            Err(_) => true,
        },
        Err(_) => true,
    }
}

/// Read one reply, multi-line replies (`123-` ... `123 `) joined. What comes
/// behind it stays in `reader`. A first line that [`can_open`] refuses is
/// not for this.
///
/// # Errors
/// A connection that closed, or a line that does not open with a code.
pub fn read(reader: &mut &[u8]) -> (reply: Result<Reply, TransportError>)
    requires
        opens(old(reader)@.take(line_len(old(reader)@) as int)),
    ensures
        match reply {
            Ok(reply) => reply_in(old(reader)@, None).0 == Ok::<ReplyView, ErrorView>(reply@),
            Err(error) => reply_in(old(reader)@, None).0 == Err::<ReplyView, ErrorView>(error@),
        },
        final(reader)@ == reply_in(old(reader)@, None).1,
{
    let mut reading: Reading = Reading::new();
    let mut bytes: &[u8] = *reader;
    let ghost all = bytes@;
    loop
        invariant
            reply_in(bytes@, reading@) == reply_in(all, None),
            reading@ is None ==> opens(bytes@.take(line_len(bytes@) as int)),
            all == old(reader)@,
        decreases bytes@.len(),
    {
        let n: usize = first_line(bytes);
        let raw: &[u8] = slice_subrange(bytes, 0, n);
        let rest: &[u8] = slice_subrange(bytes, n, bytes.len());
        proof {
            lemma_line_len(bytes@);
            assert(raw@ =~= bytes@.take(n as int));
            assert(rest@ =~= bytes@.skip(n as int));
        }
        match reading.take(raw) {
            Ok(Some(reply)) => {
                *reader = rest;
                return Ok(reply);
            },
            Ok(None) => {
                bytes = rest;
            },
            Err(error) => {
                *reader = rest;
                return Err(error);
            },
        }
    }
}

/// The text of a line as it was read, without its line end.
///
/// # Errors
/// A connection that closed, which reads as nothing, or what is not text.
pub fn line(raw: &[u8]) -> (text: Result<String, TransportError>)
    ensures
        match text {
            Ok(text) => line_text(raw@) == Ok::<Seq<char>, ErrorView>(text@),
            Err(error) => line_text(raw@) == Err::<Seq<char>, ErrorView>(error@),
        },
{
    if raw.len() == 0 {
        return Err(protocol_error("the peer closed the control connection"));
    }
    match text_of(raw) {
        Some(text) => Ok(trim_line_end(text)),
        None => Err(TransportError::Garbled("reading a reply".to_owned())),
    }
}

/// The code that `line` opens with.
///
/// # Errors
/// A line that does not open with a code, or has nothing behind it.
pub fn code_of(line: &str) -> (code: Result<u16, TransportError>)
    ensures
        match code {
            Ok(code) => reply_code(line@) == Ok::<u16, ErrorView>(code),
            Err(error) => reply_code(line@) == Err::<u16, ErrorView>(error@),
        },
{
    let shown: String = quote(line);
    code_in(line, shown.as_str())
}

/// The code that `line` opens with, the line to be shown as `shown`.
///
/// # Errors
/// As [`code_of`].
pub fn code_in(line: &str, shown: &str) -> (code: Result<u16, TransportError>)
    ensures
        match code {
            Ok(code) => code_or_shown(line@, shown@) == Ok::<u16, ErrorView>(code),
            Err(error) => code_or_shown(line@, shown@) == Err::<u16, ErrorView>(error@),
        },
{
    let chars: Vec<char> = chars_of(line);
    let mut message: String = shown.to_owned();
    if chars.len() >= 3 && chars[0] == '+' && is_a_digit(chars[1]) && is_a_digit(chars[2]) {
        proof {
            lemma_two_digits(line@.subrange(1, 3));
        }
        message.append(" is not a reply");
    } else if chars.len() >= 3 && is_a_digit(chars[0]) && is_a_digit(chars[1]) && is_a_digit(
        chars[2],
    ) {
        let code: u16 = (chars[0] as u16 - '0' as u16) * 100 + (chars[1] as u16 - '0' as u16) * 10
            + (chars[2] as u16 - '0' as u16);
        proof {
            assert(line@.take(3).drop_last() =~= line@.take(2));
            lemma_two_digits(line@.take(2));
        }
        if 100 <= code && code < 600 && chars.len() >= 4 {
            return Ok(code);
        }
        message.append(" is not a reply");
    } else {
        message.append(" does not open with a reply code");
    }
    Err(TransportError::Protocol(message))
}

fn is_a_digit(c: char) -> (yes: bool)
    ensures
        yes == is_digit(c),
{
    '0' <= c && c <= '9'
}

/// Two digits write what they stand for.
proof fn lemma_two_digits(digits: Seq<char>)
    requires
        digits.len() == 2,
        is_digit(digits[0]),
        is_digit(digits[1]),
    ensures
        number(digits) == digit_value(digits[0]) * 10 + digit_value(digits[1]),
        number(digits) < 100,
{
    reveal_with_fuel(number, 3);
    assert(digits.drop_last().drop_last() =~= Seq::<char>::empty());
}

/// What [`format`] writes reads back as the reply it was written from, and
/// what follows it stays unread. The text is one line: it holds no line feed
/// and does not end in a carriage return, and the code is one that a reply
/// can have.
pub proof fn lemma_format_reads_back(code: u16, text: Seq<char>, rest: Seq<u8>)
    requires
        100 <= code < 600,
        is_one_line(text),
    ensures
        reply_in(reply_bytes(code, text) + rest, None) == (
            Ok::<ReplyView, ErrorView>(ReplyView { code, text }),
            rest,
        ),
        opens(reply_bytes(code, text)),
{
    reveal_strlit(" ");
    let bytes = reply_bytes(code, text);
    let line = decimal(code as nat) + " "@ + text;
    lemma_code_line(code, " "@, text);
    lemma_line_reads_back(line, rest);
    assert(bytes == encode_utf8(line + "\r\n"@));
    assert((bytes + rest).take(bytes.len() as int) =~= bytes);
    assert((bytes + rest).skip(bytes.len() as int) =~= rest);
}

/// Lines as they go over the wire.
pub open spec fn lines_bytes(lines: Seq<Seq<char>>) -> Seq<u8>
    decreases lines.len(),
{
    if lines.len() == 0 {
        Seq::empty()
    } else {
        encode_utf8(lines[0] + "\r\n"@) + lines_bytes(lines.skip(1))
    }
}

/// Lines joined behind a text, a line feed before each.
pub open spec fn joined(text: Seq<char>, lines: Seq<Seq<char>>) -> Seq<char>
    decreases lines.len(),
{
    if lines.len() == 0 {
        text
    } else {
        joined(text + "\n"@ + lines[0], lines.skip(1))
    }
}

/// A line that opens with a code, a character behind it, and a text.
proof fn lemma_code_line(code: u16, mark: Seq<char>, text: Seq<char>)
    requires
        100 <= code < 600,
        mark.len() == 1,
        mark[0] == '-' || mark[0] == ' ',
        is_one_line(text),
    ensures
        ({
            let line = decimal(code as nat) + mark + text;
            &&& is_one_line(line)
            &&& reply_code(line) == Ok::<u16, ErrorView>(code)
            &&& line[3] == mark[0]
            &&& line.skip(4) == text
        }),
{
    let line = decimal(code as nat) + mark + text;
    lemma_decimal(code as nat);
    lemma_three_digits(code);
    assert(line.last() != '\r') by {
        if text.len() > 0 {
            assert(line.last() == text.last());
        } else {
            assert(line.last() == mark[0]);
        }
    }
    assert(line.take(3) =~= decimal(code as nat));
    assert(line.skip(4) =~= text);
}

/// A reply of several lines: its lines are joined, whatever they are, up to
/// the one with the code and a space, and what follows that stays unread.
pub proof fn lemma_multi_line_reads_joined(
    code: u16,
    first: Seq<char>,
    lines: Seq<Seq<char>>,
    last: Seq<char>,
    rest: Seq<u8>,
)
    requires
        100 <= code < 600,
        is_one_line(first),
        is_one_line(last),
        forall|i: int|
            0 <= i < lines.len() ==> is_one_line(#[trigger] lines[i]) && !(lines[i].len() >= 4
                && lines[i].take(3) == decimal(code as nat) && lines[i][3] == ' '),
    ensures
        reply_in(
            encode_utf8(decimal(code as nat) + "-"@ + first + "\r\n"@) + (lines_bytes(lines) + (
            reply_bytes(code, last) + rest)),
            None,
        ) == (
            Ok::<ReplyView, ErrorView>(
                ReplyView { code, text: joined(first, lines) + "\n"@ + last },
            ),
            rest,
        ),
{
    reveal_strlit("-");
    let line = decimal(code as nat) + "-"@ + first;
    let raw = encode_utf8(line + "\r\n"@);
    let tail = lines_bytes(lines) + (reply_bytes(code, last) + rest);
    lemma_code_line(code, "-"@, first);
    lemma_line_reads_back(line, tail);
    assert((raw + tail).take(raw.len() as int) =~= raw);
    assert((raw + tail).skip(raw.len() as int) =~= tail);
    assert forall|i: int| 0 <= i < lines.len() implies is_one_line(#[trigger] lines[i]) && !closes(
        lines[i],
        code,
    ) by {
        lemma_the_code_and_a_space_close(lines[i], code);
    }
    lemma_more_lines(ReplyView { code, text: first }, lines, last, rest);
}

proof fn lemma_more_lines(
    so_far: ReplyView,
    lines: Seq<Seq<char>>,
    last: Seq<char>,
    rest: Seq<u8>,
)
    requires
        100 <= so_far.code < 600,
        is_one_line(last),
        forall|i: int|
            0 <= i < lines.len() ==> is_one_line(#[trigger] lines[i]) && !closes(
                lines[i],
                so_far.code,
            ),
    ensures
        reply_in(
            lines_bytes(lines) + (reply_bytes(so_far.code, last) + rest),
            Some(so_far),
        ) == (
            Ok::<ReplyView, ErrorView>(
                ReplyView {
                    code: so_far.code,
                    text: joined(so_far.text, lines) + "\n"@ + last,
                },
            ),
            rest,
        ),
    decreases lines.len(),
{
    let end = reply_bytes(so_far.code, last) + rest;
    if lines.len() == 0 {
        reveal_strlit(" ");
        let line = decimal(so_far.code as nat) + " "@ + last;
        let raw = reply_bytes(so_far.code, last);
        lemma_code_line(so_far.code, " "@, last);
        lemma_line_reads_back(line, rest);
        assert(raw == encode_utf8(line + "\r\n"@));
        assert(lines_bytes(lines) + end =~= raw + rest);
        assert((raw + rest).take(raw.len() as int) =~= raw);
        assert((raw + rest).skip(raw.len() as int) =~= rest);
    } else {
        let raw = encode_utf8(lines[0] + "\r\n"@);
        let others = lines.skip(1);
        let tail = lines_bytes(others) + end;
        assert forall|i: int| 0 <= i < others.len() implies is_one_line(#[trigger] others[i])
            && !closes(others[i], so_far.code) by {
            assert(others[i] == lines[i + 1]);
        }
        assert(is_one_line(lines[0]));
        lemma_line_reads_back(lines[0], tail);
        assert(lines_bytes(lines) + end =~= raw + tail);
        assert((raw + tail).take(raw.len() as int) =~= raw);
        assert((raw + tail).skip(raw.len() as int) =~= tail);
        lemma_more_lines(
            ReplyView { code: so_far.code, text: so_far.text + "\n"@ + lines[0] },
            others,
            last,
            rest,
        );
    }
}

/// A code that a reply can have takes three digits.
proof fn lemma_three_digits(code: u16)
    requires
        100 <= code < 600,
    ensures
        decimal(code as nat).len() == 3,
{
    reveal_with_fuel(decimal, 4);
}

/// `code text` as the server writes it.
#[must_use]
pub fn format(code: u16, text: &str) -> (bytes: Vec<u8>)
    ensures
        bytes@ == reply_bytes(code, text@),
        bytes@ == encode_utf8(decimal(code as nat) + " "@ + text@ + "\r\n"@),
{
    let mut line: String = to_decimal(code);
    line.append(" ");
    line.append(text);
    line.append("\r\n");
    bytes_of(line.as_str())
}

} // verus!
