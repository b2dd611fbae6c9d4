//! The server's side of one control connection: what a Receive Location
//! that accepts uploads directly runs, and what a test puts at the far end.
//!
//! Not an FTP server. One session serves one client over one directory kept
//! in memory: what is stored is handed up as a Stream, what was given is
//! served to `RETR` and `NLST`. Users are not checked; a Location that needs
//! accounts and a file system behind them talks to a server through
//! [`crate::Client`].
//!
//! A [`Session`] holds no socket. It says what to do next, an [`Action`], and
//! is told what came of it, an [`Outcome`].

use vstd::prelude::*;
use vstd::utf8::{decode_utf8, encode_utf8, valid_utf8};

use crate::arrived::{arrival, Arrived, ArrivedView};
use crate::error::{protocol_error, ErrorView, TransportError};
use crate::files::{copy_bytes, names_in, Files};
use crate::reply::{
    in_parentheses, lemma_first_number, numbers, passive_address, passive_numbers, passive_port,
    port_fits, reply_bytes,
};
use crate::text::{
    bytes_of, chars_of, decimal, find, is_digit, is_line_end, is_one_line, lemma_decimal,
    lemma_position, position, reads_as, text_of, to_decimal, trim_line_end, trimmed, uppercase,
};

verus! {

/// What the client did, as [`Session::next_event`] reports it.
#[derive(Clone, Debug, PartialEq, Eq)]
pub enum Event {
    /// The client stored a file; here is the Stream.
    Stored(Arrived),
    /// The client retrieved this name.
    Retrieved(String),
    /// The client deleted this name.
    Deleted(String),
}

/// An [`Event`] by its characters and bytes.
pub enum EventView {
    Stored(ArrivedView),
    Retrieved(Seq<char>),
    Deleted(Seq<char>),
}

impl View for Event {
    type V = EventView;

    open spec fn view(&self) -> EventView {
        match self {
            Event::Stored(arrived) => EventView::Stored(arrived@),
            Event::Retrieved(name) => EventView::Retrieved(name@),
            Event::Deleted(name) => EventView::Deleted(name@),
        }
    }
}

/// What a session wants done next.
pub enum Action {
    /// Read a command line, up to and with its line feed.
    ReadLine,
    /// Write this to the control connection and flush it.
    Write(Vec<u8>),
    /// Bind a data listener to this address; it becomes the one that the
    /// client is told of if its address is an IPv4 one, and any before it is
    /// dropped.
    Bind(String),
    /// Accept the data connection on the data listener, and drop the listener.
    AcceptData,
    /// Read the data connection to its end, and close it.
    ReceiveData,
    /// Write this file to the data connection, and close it.
    SendData(Vec<u8>),
    /// Write this listing to the data connection, and close it.
    SendNames(Vec<u8>),
    /// The client did this.
    Happened(Event),
    /// The client quit.
    Left,
    /// The conversation can not go on as it was.
    Failed(TransportError),
}

/// An [`Action`] by its characters and bytes.
pub enum ActionView {
    ReadLine,
    Write(Seq<u8>),
    Bind(Seq<char>),
    AcceptData,
    ReceiveData,
    SendData(Seq<u8>),
    SendNames(Seq<u8>),
    Happened(EventView),
    Left,
    Failed(ErrorView),
}

impl View for Action {
    type V = ActionView;

    open spec fn view(&self) -> ActionView {
        match self {
            Action::ReadLine => ActionView::ReadLine,
            Action::Write(bytes) => ActionView::Write(bytes@),
            Action::Bind(address) => ActionView::Bind(address@),
            Action::AcceptData => ActionView::AcceptData,
            Action::ReceiveData => ActionView::ReceiveData,
            Action::SendData(bytes) => ActionView::SendData(bytes@),
            Action::SendNames(bytes) => ActionView::SendNames(bytes@),
            Action::Happened(event) => ActionView::Happened(event@),
            Action::Left => ActionView::Left,
            Action::Failed(error) => ActionView::Failed(error@),
        }
    }
}

/// What came of an [`Action`].
pub enum Outcome {
    /// Nothing was asked yet, or what was asked failed and was given up: the
    /// session starts over from the next command.
    Begin,
    /// This line was read, nothing of it where the client is gone.
    Line(Vec<u8>),
    /// It was done.
    Done,
    /// The data listener has this port, and this address if it is an IPv4
    /// one.
    Bound(Option<(u8, u8, u8, u8)>, u16),
    /// This was read.
    Data(Vec<u8>),
}

/// An [`Outcome`] by its bytes.
pub enum OutcomeView {
    Begin,
    Line(Seq<u8>),
    Done,
    Bound(Option<(u8, u8, u8, u8)>, u16),
    Data(Seq<u8>),
}

impl View for Outcome {
    type V = OutcomeView;

    open spec fn view(&self) -> OutcomeView {
        match self {
            Outcome::Begin => OutcomeView::Begin,
            Outcome::Line(raw) => OutcomeView::Line(raw@),
            Outcome::Done => OutcomeView::Done,
            Outcome::Bound(ip, port) => OutcomeView::Bound(*ip, *port),
            Outcome::Data(bytes) => OutcomeView::Data(bytes@),
        }
    }
}

/// What moves over a data connection.
enum Transfer {
    /// What the client stores under this name.
    Store(String),
    /// These bytes, which this name holds.
    Retrieve(String, Vec<u8>),
    /// The listing.
    List,
}

/// A transfer by its characters and bytes.
pub enum TransferView {
    Store(Seq<char>),
    Retrieve(Seq<char>, Seq<u8>),
    List,
}

impl Transfer {
    spec fn shape(self) -> TransferView {
        match self {
            Transfer::Store(name) => TransferView::Store(name@),
            Transfer::Retrieve(name, bytes) => TransferView::Retrieve(name@, bytes@),
            Transfer::List => TransferView::List,
        }
    }
}

/// What the session waits for.
enum Phase {
    /// To be begun.
    Idle,
    /// A command line.
    Command,
    /// A reply to be written, another command to follow.
    Answering,
    /// A reply to be written, this to be reported.
    Leaving(Action),
    /// A data listener.
    Binding,
    /// The reply that opens a transfer to be written.
    Opening(Transfer),
    /// The data connection.
    Accepting(Transfer),
    /// The data.
    Moving(Transfer),
}

/// What a session waits for, by its characters and bytes.
pub enum PhaseView {
    Idle,
    Command,
    Answering,
    Leaving(ActionView),
    Binding,
    Opening(TransferView),
    Accepting(TransferView),
    Moving(TransferView),
}

impl Phase {
    spec fn shape(self) -> PhaseView {
        match self {
            Phase::Idle => PhaseView::Idle,
            Phase::Command => PhaseView::Command,
            Phase::Answering => PhaseView::Answering,
            Phase::Leaving(report) => PhaseView::Leaving(report@),
            Phase::Binding => PhaseView::Binding,
            Phase::Opening(transfer) => PhaseView::Opening(transfer.shape()),
            Phase::Accepting(transfer) => PhaseView::Accepting(transfer.shape()),
            Phase::Moving(transfer) => PhaseView::Moving(transfer.shape()),
        }
    }
}

/// One client's worth of server over one directory.
pub struct Session {
    peer: String,
    files: Files,
    passive: bool,
    phase: Phase,
}

/// A [`Session`] by what it knows.
pub struct SessionView {
    /// The client's address.
    pub peer: Seq<char>,
    /// What the directory holds.
    pub files: Map<Seq<char>, Seq<u8>>,
    /// Whether a data listener waits.
    pub passive: bool,
    /// What the session waits for.
    pub phase: PhaseView,
}

impl View for Session {
    type V = SessionView;

    closed spec fn view(&self) -> SessionView {
        SessionView {
            peer: self.peer@,
            files: self.files@,
            passive: self.passive,
            phase: self.phase.shape(),
        }
    }
}

/// The word that a command line opens with, up to its first space.
pub open spec fn verb_of(line: Seq<char>) -> Seq<char> {
    line.take(position(line, ' ') as int)
}

/// What stands behind the first space of a command line.
pub open spec fn argument_of(line: Seq<char>) -> Seq<char> {
    if position(line, ' ') < line.len() {
        line.skip(position(line, ' ') as int + 1)
    } else {
        Seq::empty()
    }
}

/// What a `227` says of a data listener.
pub open spec fn passive_text(ip: (u8, u8, u8, u8), port: u16) -> Seq<char> {
    "Entering Passive Mode ("@ + decimal(ip.0 as nat) + ","@ + decimal(ip.1 as nat) + ","@
        + decimal(ip.2 as nat) + ","@ + decimal(ip.3 as nat) + ","@ + decimal((port / 256) as nat)
        + ","@ + decimal((port % 256) as nat) + ")"@
}

/// `host:port` of a data listener.
pub open spec fn listener_address(ip: (u8, u8, u8, u8), port: u16) -> Seq<char> {
    decimal(ip.0 as nat) + "."@ + decimal(ip.1 as nat) + "."@ + decimal(ip.2 as nat) + "."@
        + decimal(ip.3 as nat) + ":"@ + decimal(port as nat)
}

/// A number, a comma and more: that number, and those of the rest.
proof fn lemma_number_and_comma(n: u16, rest: Seq<char>)
    ensures
        numbers(decimal(n as nat) + (","@ + rest)) == seq![n] + numbers(rest),
{
    reveal_strlit(",");
    let tail = ","@ + rest;
    lemma_first_number(n, tail);
    assert(tail.skip(1) =~= rest);
    assert(numbers(tail) == numbers(rest));
}

/// A number and a closing parenthesis: that number.
proof fn lemma_number_and_end(n: u16)
    ensures
        numbers(decimal(n as nat) + ")"@) == seq![n],
{
    reveal_strlit(")");
    let tail = ")"@;
    lemma_first_number(n, tail);
    assert(tail.skip(1) =~= Seq::<char>::empty());
    assert(!is_digit(tail[0]));
    reveal_with_fuel(numbers, 2);
    assert(numbers(tail) =~= Seq::<u16>::empty());
    assert(seq![n] + numbers(tail) =~= seq![n]);
}

/// The numbers of a data listener, as its `227` writes them.
spec fn passive_list(ip: (u8, u8, u8, u8), port: u16) -> Seq<char> {
    decimal(ip.0 as nat) + (","@ + (decimal(ip.1 as nat) + (","@ + (decimal(ip.2 as nat) + (","@
        + (decimal(ip.3 as nat) + (","@ + (decimal((port / 256) as nat) + (","@ + (decimal(
        (port % 256) as nat,
    ) + ")"@))))))))))
}

proof fn lemma_passive_list(ip: (u8, u8, u8, u8), port: u16)
    ensures
        numbers(passive_list(ip, port)) == seq![
            ip.0 as u16,
            ip.1 as u16,
            ip.2 as u16,
            ip.3 as u16,
            port / 256,
            port % 256,
        ],
{
    let t6 = decimal((port % 256) as nat) + ")"@;
    let t5 = decimal((port / 256) as nat) + (","@ + t6);
    let t4 = decimal(ip.3 as nat) + (","@ + t5);
    let t3 = decimal(ip.2 as nat) + (","@ + t4);
    let t2 = decimal(ip.1 as nat) + (","@ + t3);
    lemma_number_and_end(port % 256);
    lemma_number_and_comma(port / 256, t6);
    lemma_number_and_comma(ip.3 as u16, t5);
    lemma_number_and_comma(ip.2 as u16, t4);
    lemma_number_and_comma(ip.1 as u16, t3);
    lemma_number_and_comma(ip.0 as u16, t2);
    assert(numbers(passive_list(ip, port)) =~= seq![
        ip.0 as u16,
        ip.1 as u16,
        ip.2 as u16,
        ip.3 as u16,
        port / 256,
        port % 256,
    ]);
}

/// A text without line ends stays one when a number follows, or more such
/// text.
spec fn no_line_end(text: Seq<char>) -> bool {
    forall|i: int| 0 <= i < text.len() ==> !is_line_end(#[trigger] text[i])
}

proof fn lemma_no_line_end(a: Seq<char>, n: u16, b: Seq<char>)
    requires
        no_line_end(a),
        no_line_end(b),
    ensures
        no_line_end(a + decimal(n as nat) + b),
{
    lemma_decimal(n as nat);
    let text = a + decimal(n as nat) + b;
    assert forall|i: int| 0 <= i < text.len() implies !is_line_end(#[trigger] text[i]) by {
        if i >= a.len() && i < a.len() + decimal(n as nat).len() {
            assert(is_digit(decimal(n as nat)[i - a.len()]));
        }
    }
}

proof fn lemma_passive_text(ip: (u8, u8, u8, u8), port: u16)
    ensures
        no_line_end(passive_text(ip, port)),
        in_parentheses(passive_text(ip, port)) == passive_list(ip, port),
{
    reveal_strlit("Entering Passive Mode (");
    reveal_strlit(",");
    reveal_strlit(")");
    let text = passive_text(ip, port);
    let s1 = "Entering Passive Mode ("@ + decimal(ip.0 as nat) + ","@;
    let s2 = s1 + decimal(ip.1 as nat) + ","@;
    let s3 = s2 + decimal(ip.2 as nat) + ","@;
    let s4 = s3 + decimal(ip.3 as nat) + ","@;
    let s5 = s4 + decimal((port / 256) as nat) + ","@;
    lemma_no_line_end("Entering Passive Mode ("@, ip.0 as u16, ","@);
    lemma_no_line_end(s1, ip.1 as u16, ","@);
    lemma_no_line_end(s2, ip.2 as u16, ","@);
    lemma_no_line_end(s3, ip.3 as u16, ","@);
    lemma_no_line_end(s4, port / 256, ","@);
    lemma_no_line_end(s5, port % 256, ")"@);
    let front = "Entering Passive Mode ("@;
    let list = passive_list(ip, port);
    assert(text =~= front + list);
    lemma_position(text, '(');
    assert(text[22] == '(');
    assert forall|i: int| 0 <= i < 22 implies text[i] != '(' by {
        assert(text[i] == front[i]);
    }
    assert(position(text, '(') == 22);
    assert(text.skip(23) =~= list);
}

/// The address in the `227` that tells of a data listener is the listener's,
/// whatever its address and port, and the reply is one line.
pub proof fn lemma_passive_address_reads_back(ip: (u8, u8, u8, u8), port: u16)
    ensures
        passive_address(passive_text(ip, port)) == Ok::<Seq<char>, ErrorView>(
            listener_address(ip, port),
        ),
        port_fits(passive_text(ip, port)),
        is_one_line(passive_text(ip, port)),
{
    lemma_passive_text(ip, port);
    lemma_passive_list(ip, port);
    let parts = passive_numbers(passive_text(ip, port));
    assert(passive_port(parts) == port);
}

/// A listing as it goes over the data connection, one name to a line.
pub open spec fn listing(names: Seq<Seq<char>>) -> Seq<u8>
    decreases names.len(),
{
    if names.len() == 0 {
        Seq::empty()
    } else {
        listing(names.drop_last()) + encode_utf8(names.last() + "\r\n"@)
    }
}

impl SessionView {
    /// Whether a data listener waits where a transfer is about to use it, and
    /// what is to be reported is a report.
    pub open spec fn is_coherent(self) -> bool {
        match self.phase {
            PhaseView::Opening(_) => self.passive,
            PhaseView::Leaving(report) => report is Happened || report is Left || report is Failed,
            _ => true,
        }
    }

    /// Whether this can come of what the session asked for.
    pub open spec fn awaits(self, outcome: OutcomeView) -> bool {
        match outcome {
            OutcomeView::Begin => true,
            OutcomeView::Line(_) => self.phase is Command,
            OutcomeView::Bound(..) => self.phase is Binding,
            OutcomeView::Data(_) => self.phase matches PhaseView::Moving(TransferView::Store(_)),
            OutcomeView::Done => match self.phase {
                PhaseView::Answering => true,
                PhaseView::Leaving(_) => true,
                PhaseView::Opening(_) => true,
                PhaseView::Accepting(_) => true,
                PhaseView::Moving(transfer) => !(transfer is Store),
                _ => false,
            },
        }
    }

    /// Go on to wait for this.
    pub open spec fn go(self, phase: PhaseView, action: ActionView) -> (SessionView, ActionView) {
        (SessionView { phase, ..self }, action)
    }

    /// Answer, and read on.
    pub open spec fn answer(self, code: u16, text: Seq<char>) -> (SessionView, ActionView) {
        self.go(PhaseView::Answering, ActionView::Write(reply_bytes(code, text)))
    }

    /// Answer, and report this.
    pub open spec fn answer_and(self, code: u16, text: Seq<char>, report: ActionView) -> (
        SessionView,
        ActionView,
    ) {
        self.go(PhaseView::Leaving(report), ActionView::Write(reply_bytes(code, text)))
    }

    /// Answer that a transfer starts.
    pub open spec fn open(self, text: Seq<char>, transfer: TransferView) -> (
        SessionView,
        ActionView,
    ) {
        self.go(PhaseView::Opening(transfer), ActionView::Write(reply_bytes(150, text)))
    }

    /// `STOR name`.
    pub open spec fn store(self, name: Seq<char>) -> (SessionView, ActionView) {
        if !self.passive {
            self.answer_and(
                425,
                "use PASV first"@,
                ActionView::Failed(ErrorView::Protocol("a STOR without PASV"@)),
            )
        } else {
            self.open("ok to send data"@, TransferView::Store(name))
        }
    }

    /// `RETR name`.
    pub open spec fn retrieve(self, name: Seq<char>) -> (SessionView, ActionView) {
        if !self.files.contains_key(name) {
            self.answer(550, "no such file"@)
        } else if !self.passive {
            self.answer(425, "use PASV first"@)
        } else {
            self.open(
                "opening data connection"@,
                TransferView::Retrieve(name, self.files[name]),
            )
        }
    }

    /// `NLST` and `LIST`.
    pub open spec fn list(self) -> (SessionView, ActionView) {
        if !self.passive {
            self.answer(425, "use PASV first"@)
        } else {
            self.open("here comes the listing"@, TransferView::List)
        }
    }

    /// `DELE name`.
    pub open spec fn delete(self, name: Seq<char>) -> (SessionView, ActionView) {
        if self.files.contains_key(name) {
            SessionView { files: self.files.remove(name), ..self }.answer_and(
                250,
                "deleted"@,
                ActionView::Happened(EventView::Deleted(name)),
            )
        } else {
            self.answer(550, "no such file"@)
        }
    }

    /// What a command comes to, its verb in upper case.
    pub open spec fn obey(self, verb: Seq<char>, argument: Seq<char>) -> (SessionView, ActionView) {
        if verb == "USER"@ {
            self.answer(331, "password please"@)
        } else if verb == "PASS"@ {
            self.answer(230, "logged in"@)
        } else if verb == "TYPE"@ || verb == "NOOP"@ {
            self.answer(200, "ok"@)
        } else if verb == "CWD"@ {
            self.answer(250, "directory changed"@)
        } else if verb == "PWD"@ {
            self.answer(257, "\"/\""@)
        } else if verb == "PASV"@ {
            self.go(PhaseView::Binding, ActionView::Bind("127.0.0.1:0"@))
        } else if verb == "STOR"@ {
            self.store(argument)
        } else if verb == "RETR"@ {
            self.retrieve(argument)
        } else if verb == "NLST"@ || verb == "LIST"@ {
            self.list()
        } else if verb == "DELE"@ {
            self.delete(argument)
        } else if verb == "QUIT"@ {
            self.answer_and(221, "goodbye"@, ActionView::Left)
        } else {
            self.answer(502, "not implemented"@)
        }
    }

    /// What a line that was read comes to.
    pub open spec fn heard(self, raw: Seq<u8>) -> (SessionView, ActionView) {
        if raw.len() == 0 {
            self.go(PhaseView::Idle, ActionView::Left)
        } else if !valid_utf8(raw) {
            self.go(
                PhaseView::Idle,
                ActionView::Failed(ErrorView::Garbled("reading a command"@)),
            )
        } else {
            let line = trimmed(decode_utf8(raw));
            self.obey(uppercase(verb_of(line)), argument_of(line))
        }
    }

    /// What a data listener comes to.
    pub open spec fn enter_passive(self, ip: Option<(u8, u8, u8, u8)>, port: u16) -> (
        SessionView,
        ActionView,
    ) {
        match ip {
            Some(ip) => SessionView { passive: true, ..self }.answer(227, passive_text(ip, port)),
            None => self.go(
                PhaseView::Idle,
                ActionView::Failed(ErrorView::Protocol("passive mode needs IPv4"@)),
            ),
        }
    }

    /// Have the data connection accepted; the listener is used up.
    pub open spec fn data(self, transfer: TransferView) -> (SessionView, ActionView) {
        if self.passive {
            SessionView { passive: false, ..self }.go(
                PhaseView::Accepting(transfer),
                ActionView::AcceptData,
            )
        } else {
            self.go(
                PhaseView::Idle,
                ActionView::Failed(ErrorView::Protocol("a transfer without PASV first"@)),
            )
        }
    }

    /// Have the data moved.
    pub open spec fn transfer(self, transfer: TransferView) -> (SessionView, ActionView) {
        self.go(
            PhaseView::Moving(transfer),
            match transfer {
                TransferView::Store(_) => ActionView::ReceiveData,
                TransferView::Retrieve(_, bytes) => ActionView::SendData(bytes),
                TransferView::List => ActionView::SendNames(listing(names_in(self.files))),
            },
        )
    }

    /// What a session does next, given what came of what it did.
    pub open spec fn step(self, outcome: OutcomeView) -> (SessionView, ActionView) {
        match (outcome, self.phase) {
            (OutcomeView::Line(raw), _) => self.heard(raw),
            (OutcomeView::Bound(ip, port), _) => self.enter_passive(ip, port),
            (OutcomeView::Done, PhaseView::Leaving(report)) => self.go(PhaseView::Idle, report),
            (OutcomeView::Done, PhaseView::Opening(transfer)) => self.data(transfer),
            (OutcomeView::Done, PhaseView::Accepting(transfer)) => self.transfer(transfer),
            (OutcomeView::Done, PhaseView::Moving(TransferView::Retrieve(name, _))) => {
                self.answer_and(
                    226,
                    "transfer complete"@,
                    ActionView::Happened(EventView::Retrieved(name)),
                )
            },
            (OutcomeView::Done, PhaseView::Moving(_)) => self.answer(226, "transfer complete"@),
            (OutcomeView::Data(bytes), PhaseView::Moving(TransferView::Store(name))) => {
                SessionView { files: self.files.insert(name, bytes), ..self }.answer_and(
                    226,
                    "transfer complete"@,
                    ActionView::Happened(EventView::Stored(arrival(self.peer, name, bytes))),
                )
            },
            _ => self.go(PhaseView::Command, ActionView::ReadLine),
        }
    }

    /// What a session does next where only what the client stores is wanted.
    pub open spec fn step_to_store(self, outcome: OutcomeView) -> (SessionView, ActionView) {
        let (next, action) = self.step(outcome);
        match action {
            ActionView::Happened(EventView::Stored(_)) => (next, action),
            ActionView::Happened(_) => next.step(OutcomeView::Begin),
            _ => (next, action),
        }
    }
}

/// A session stays coherent, whatever comes of what it does: so it is in
/// every state that it can come to. A transfer that is open has its data
/// listener, which serves that transfer and no other.
pub proof fn lemma_sessions_stay_coherent(session: SessionView, outcome: OutcomeView)
    requires
        session.is_coherent(),
    ensures
        session.step(outcome).0.is_coherent(),
        session.step_to_store(outcome).0.is_coherent(),
        session.phase is Opening && outcome is Done ==> session.step(outcome).1 is AcceptData,
        session.step(outcome).1 is AcceptData ==> session.passive && !session.step(
            outcome,
        ).0.passive,
{
}

/// Without a data listener nothing is transferred and nothing changes: the
/// client is told so, or that the file is not there.
pub proof fn lemma_transfers_need_pasv(session: SessionView, name: Seq<char>)
    requires
        !session.passive,
    ensures
        session.store(name).1 == ActionView::Write(reply_bytes(425, "use PASV first"@)),
        session.store(name).0.files == session.files,
        session.list() == session.answer(425, "use PASV first"@),
        session.retrieve(name) == if session.files.contains_key(name) {
            session.answer(425, "use PASV first"@)
        } else {
            session.answer(550, "no such file"@)
        },
{
}

/// Only what a client stores and what it deletes changes the directory, and
/// only under that name.
pub proof fn lemma_only_stores_and_deletes_change_files(
    session: SessionView,
    outcome: OutcomeView,
)
    requires
        session.awaits(outcome),
    ensures
        ({
            let files = session.step(outcome).0.files;
            match (outcome, session.phase) {
                (OutcomeView::Data(bytes), PhaseView::Moving(TransferView::Store(name))) => files
                    == session.files.insert(name, bytes),
                (OutcomeView::Line(raw), _) => {
                    let line = trimmed(decode_utf8(raw));
                    files == session.files || (uppercase(verb_of(line)) == "DELE"@ && files
                        == session.files.remove(argument_of(line)))
                },
                _ => files == session.files,
            }
        }),
{
}

/// What a session knows of its client does not change.
pub proof fn lemma_peer_stays(session: SessionView, outcome: OutcomeView)
    ensures
        session.step(outcome).0.peer == session.peer,
        session.step_to_store(outcome).0.peer == session.peer,
{
}

/// Waiting for stores, a session reports nothing else but that the client
/// left.
pub proof fn lemma_only_stores_are_reported(session: SessionView, outcome: OutcomeView)
    ensures
        session.step_to_store(outcome).1 matches ActionView::Happened(event) ==> event is Stored,
{
}

impl Session {
    /// Greet a client that was accepted: the session, and what to write to
    /// the control connection first.
    pub fn accept(peer: String) -> (accepted: (Self, Vec<u8>))
        ensures
            accepted.0@ == (SessionView {
                peer: peer@,
                files: Map::empty(),
                passive: false,
                phase: PhaseView::Idle,
            }),
            accepted.0@.is_coherent(),
            accepted.1@ == reply_bytes(220, "xmip ready"@),
    {
        let session: Session = Session {
            peer,
            files: Files::new(),
            passive: false,
            phase: Phase::Idle,
        };
        (session, crate::reply::format(220, "xmip ready"))
    }

    /// Serve these names to `RETR` and `NLST`.
    #[must_use]
    pub fn with_files(self, files: Files) -> (session: Self)
        ensures
            session@ == (SessionView { files: files@, ..self@ }),
    {
        Session { peer: self.peer, files, passive: self.passive, phase: self.phase }
    }

    /// What the directory holds now, stores included.
    #[must_use]
    pub fn files(&self) -> (files: &Files)
        ensures
            files@ == self@.files,
    {
        &self.files
    }

    /// Whether this can come of what was asked for last.
    pub fn accepts(&self, outcome: &Outcome) -> (yes: bool)
        ensures
            yes == self@.awaits(outcome@),
    {
        match (outcome, &self.phase) {
            (Outcome::Begin, _) => true,
            (Outcome::Line(_), Phase::Command) => true,
            (Outcome::Bound(..), Phase::Binding) => true,
            (Outcome::Data(_), Phase::Moving(Transfer::Store(_))) => true,
            (Outcome::Done, Phase::Answering) => true,
            (Outcome::Done, Phase::Leaving(_)) => true,
            (Outcome::Done, Phase::Opening(_)) => true,
            (Outcome::Done, Phase::Accepting(_)) => true,
            (Outcome::Done, Phase::Moving(Transfer::Retrieve(..))) => true,
            (Outcome::Done, Phase::Moving(Transfer::List)) => true,
            _ => false,
        }
    }

    /// What to do next for the next file that the client stores, or until it
    /// quits. [`Action::Happened`] then reports a store.
    pub fn next_store(&mut self, outcome: Outcome) -> (action: Action)
        requires
            old(self)@.awaits(outcome@),
        ensures
            (final(self)@, action@) == old(self)@.step_to_store(outcome@),
            action matches Action::Happened(event) ==> event is Stored,
    {
        match self.next_event(outcome) {
            Action::Happened(Event::Stored(arrived)) => Action::Happened(Event::Stored(arrived)),
            Action::Happened(_) => self.next_event(Outcome::Begin),
            action => action,
        }
    }

    /// What to do next for the next thing that the client does with the
    /// directory, or until it quits, given what came of what was done last.
    /// Login, mode and passive commands are answered on the way.
    pub fn next_event(&mut self, outcome: Outcome) -> (action: Action)
        requires
            old(self)@.awaits(outcome@),
        ensures
            (final(self)@, action@) == old(self)@.step(outcome@),
    {
        let mut phase: Phase = Phase::Idle;
        std::mem::swap(&mut phase, &mut self.phase);
        match outcome {
            Outcome::Line(raw) => self.hear(&raw),
            Outcome::Bound(ip, port) => self.enter_passive(ip, port),
            Outcome::Data(bytes) => match phase {
                Phase::Moving(Transfer::Store(name)) => self.stored(name, bytes),
                _ => self.await_command(),
            },
            Outcome::Done => match phase {
                Phase::Leaving(report) => report,
                Phase::Opening(transfer) => self.data(transfer),
                Phase::Accepting(transfer) => self.transfer(transfer),
                Phase::Moving(Transfer::Retrieve(name, _)) => self.reply_and(
                    226,
                    "transfer complete",
                    Action::Happened(Event::Retrieved(name)),
                ),
                Phase::Moving(_) => self.reply(226, "transfer complete"),
                _ => self.await_command(),
            },
            Outcome::Begin => self.await_command(),
        }
    }

    fn await_command(&mut self) -> (action: Action)
        ensures
            (final(self)@, action@) == old(self)@.go(PhaseView::Command, ActionView::ReadLine),
    {
        self.phase = Phase::Command;
        Action::ReadLine
    }

    fn hear(&mut self, raw: &Vec<u8>) -> (action: Action)
        requires
            old(self)@.phase is Idle,
        ensures
            (final(self)@, action@) == old(self)@.heard(raw@),
    {
        if raw.len() == 0 {
            return Action::Left;
        }
        let line: String = match text_of(raw.as_slice()) {
            Some(text) => trim_line_end(text),
            None => {
                return Action::Failed(TransportError::Garbled("reading a command".to_owned()));
            },
        };
        let chars: Vec<char> = chars_of(line.as_str());
        let space: usize = find(&chars, ' ');
        let n: usize = chars.len();
        let verb: Vec<char> = chars_of(line.as_str().substring_char(0, space));
        let argument: &str = if space < n {
            line.as_str().substring_char(space + 1, n)
        } else {
            ""
        };
        proof {
            reveal_strlit("");
            assert(verb@ =~= verb_of(line@));
            assert(argument@ =~= argument_of(line@));
        }
        self.obey(&verb, argument)
    }

    fn obey(&mut self, verb: &Vec<char>, argument: &str) -> (action: Action)
        ensures
            (final(self)@, action@) == old(self)@.obey(uppercase(verb@), argument@),
    {
        if reads_as(verb, "USER") {
            self.reply(331, "password please")
        } else if reads_as(verb, "PASS") {
            self.reply(230, "logged in")
        } else if reads_as(verb, "TYPE") || reads_as(verb, "NOOP") {
            self.reply(200, "ok")
        } else if reads_as(verb, "CWD") {
            self.reply(250, "directory changed")
        } else if reads_as(verb, "PWD") {
            self.reply(257, "\"/\"")
        } else if reads_as(verb, "PASV") {
            self.phase = Phase::Binding;
            Action::Bind("127.0.0.1:0".to_owned())
        } else if reads_as(verb, "STOR") {
            self.store(argument)
        } else if reads_as(verb, "RETR") {
            self.retrieve(argument)
        } else if reads_as(verb, "NLST") || reads_as(verb, "LIST") {
            self.list()
        } else if reads_as(verb, "DELE") {
            if self.files.remove(argument) {
                self.reply_and(
                    250,
                    "deleted",
                    Action::Happened(Event::Deleted(argument.to_owned())),
                )
            } else {
                proof {
                    assert(self.files@ =~= old(self)@.files);
                }
                self.reply(550, "no such file")
            }
        } else if reads_as(verb, "QUIT") {
            self.reply_and(221, "goodbye", Action::Left)
        } else {
            self.reply(502, "not implemented")
        }
    }

    fn enter_passive(&mut self, ip: Option<(u8, u8, u8, u8)>, port: u16) -> (action: Action)
        requires
            old(self)@.phase is Idle,
        ensures
            (final(self)@, action@) == old(self)@.enter_passive(ip, port),
    {
        match ip {
            Some((a, b, c, d)) => {
                let mut text: String = "Entering Passive Mode (".to_owned();
                text.append(to_decimal(a as u16).as_str());
                text.append(",");
                text.append(to_decimal(b as u16).as_str());
                text.append(",");
                text.append(to_decimal(c as u16).as_str());
                text.append(",");
                text.append(to_decimal(d as u16).as_str());
                text.append(",");
                text.append(to_decimal(port / 256).as_str());
                text.append(",");
                text.append(to_decimal(port % 256).as_str());
                text.append(")");
                self.passive = true;
                self.reply(227, text.as_str())
            },
            None => Action::Failed(protocol_error("passive mode needs IPv4")),
        }
    }

    fn data(&mut self, transfer: Transfer) -> (action: Action)
        requires
            old(self)@.phase is Idle,
        ensures
            (final(self)@, action@) == old(self)@.data(transfer.shape()),
    {
        if !self.passive {
            return Action::Failed(protocol_error("a transfer without PASV first"));
        }
        self.passive = false;
        self.phase = Phase::Accepting(transfer);
        Action::AcceptData
    }

    fn transfer(&mut self, transfer: Transfer) -> (action: Action)
        ensures
            (final(self)@, action@) == old(self)@.transfer(transfer.shape()),
    {
        let action: Action = match &transfer {
            Transfer::Store(_) => Action::ReceiveData,
            Transfer::Retrieve(_, bytes) => Action::SendData(copy_bytes(bytes)),
            Transfer::List => Action::SendNames(self.names()),
        };
        self.phase = Phase::Moving(transfer);
        action
    }

    fn store(&mut self, name: &str) -> (action: Action)
        ensures
            (final(self)@, action@) == old(self)@.store(name@),
    {
        if !self.passive {
            let report: Action = Action::Failed(protocol_error("a STOR without PASV"));
            return self.reply_and(425, "use PASV first", report);
        }
        self.open("ok to send data", Transfer::Store(name.to_owned()))
    }

    fn stored(&mut self, name: String, bytes: Vec<u8>) -> (action: Action)
        ensures
            (final(self)@, action@) == (SessionView {
                files: old(self)@.files.insert(name@, bytes@),
                ..old(self)@
            }).answer_and(
                226,
                "transfer complete"@,
                ActionView::Happened(
                    EventView::Stored(arrival(old(self)@.peer, name@, bytes@)),
                ),
            ),
    {
        let copy: Vec<u8> = copy_bytes(&bytes);
        let arrived: Arrived = Arrived::from_server(self.peer.as_str(), name.as_str(), copy);
        self.files.insert(name, bytes);
        self.reply_and(226, "transfer complete", Action::Happened(Event::Stored(arrived)))
    }

    fn retrieve(&mut self, name: &str) -> (action: Action)
        ensures
            (final(self)@, action@) == old(self)@.retrieve(name@),
    {
        let bytes: Vec<u8> = match self.files.get(name) {
            Some(bytes) => copy_bytes(bytes),
            None => return self.reply(550, "no such file"),
        };
        if !self.passive {
            return self.reply(425, "use PASV first");
        }
        self.open("opening data connection", Transfer::Retrieve(name.to_owned(), bytes))
    }

    fn list(&mut self) -> (action: Action)
        ensures
            (final(self)@, action@) == old(self)@.list(),
    {
        if !self.passive {
            return self.reply(425, "use PASV first");
        }
        self.open("here comes the listing", Transfer::List)
    }

    fn names(&self) -> (bytes: Vec<u8>)
        ensures
            bytes@ == listing(names_in(self@.files)),
    {
        let names: Vec<String> = self.files.names();
        let mut bytes: Vec<u8> = Vec::new();
        let mut i: usize = 0;
        let ghost all = names.deep_view();
        proof {
            assert(all.take(0) =~= Seq::<Seq<char>>::empty());
        }
        while i < names.len()
            invariant
                i <= names@.len(),
                all == names.deep_view(),
                bytes@ == listing(all.take(i as int)),
            decreases names@.len() - i,
        {
            let mut line: String = names[i].clone();
            line.append("\r\n");
            let mut more: Vec<u8> = bytes_of(line.as_str());
            bytes.append(&mut more);
            proof {
                assert(all.take(i + 1).drop_last() =~= all.take(i as int));
                assert(all.take(i + 1).last() == names@[i as int]@);
            }
            i += 1;
        }
        proof {
            assert(all.take(i as int) =~= all);
        }
        bytes
    }

    fn reply(&mut self, code: u16, text: &str) -> (action: Action)
        ensures
            (final(self)@, action@) == old(self)@.answer(code, text@),
    {
        self.phase = Phase::Answering;
        Action::Write(crate::reply::format(code, text))
    }

    fn reply_and(&mut self, code: u16, text: &str, report: Action) -> (action: Action)
        ensures
            (final(self)@, action@) == old(self)@.answer_and(code, text@, report@),
    {
        self.phase = Phase::Leaving(report);
        Action::Write(crate::reply::format(code, text))
    }

    fn open(&mut self, text: &str, transfer: Transfer) -> (action: Action)
        ensures
            (final(self)@, action@) == old(self)@.open(text@, transfer.shape()),
    {
        self.phase = Phase::Opening(transfer);
        Action::Write(crate::reply::format(150, text))
    }
}

} // verus!
