//! Both ends at once: a client and a session with nothing between them that
//! fails, and what then holds of every conversation.

use vstd::prelude::*;
use vstd::utf8::encode_utf8;

use crate::arrived::arrival;
use crate::client::{
    command_bytes, listed, refusal, AnswerView, ClientView, LoginView, ProductView, RequestView,
    TransferView,
};
use crate::files::names_in;
use crate::reply::{lemma_format_reads_back, reply_bytes, reply_in, ReplyView};
use crate::session::{
    argument_of, lemma_passive_address_reads_back, listener_address, listing, passive_text, verb_of,
    ActionView, EventView, OutcomeView, PhaseView, SessionView,
};
use crate::text::{
    is_line_end, is_one_line, lemma_line_reads_back, lemma_position, line_len, position, upper,
    uppercase,
};

verus! {

/// A client, a session, and what is on its way between them.
pub struct Wire {
    pub client: ClientView,
    /// What the client wants done.
    pub request: RequestView,
    pub session: SessionView,
    /// What the session wants done.
    pub action: ActionView,
    /// What the client wrote and the session did not read.
    pub commands: Seq<u8>,
    /// What the session wrote and the client did not read.
    pub replies: Seq<u8>,
    /// What was written to the data connection by the end that closed it.
    pub data: Option<Seq<u8>>,
    /// Whether the data listener waits, and whether the client reached it.
    pub listening: bool,
    pub reached: bool,
    /// Where a data listener is bound.
    pub ip: (u8, u8, u8, u8),
    pub port: u16,
    /// What the session reported.
    pub events: Seq<EventView>,
}

impl Wire {
    /// Whether what the client wants can be done.
    pub open spec fn client_can(self) -> bool {
        match self.request {
            RequestView::ReadReply => self.replies.len() > 0 && reply_in(self.replies, None).0 is Ok,
            RequestView::Command(_) => true,
            RequestView::Dial(address) => self.listening && address == listener_address(
                self.ip,
                self.port,
            ),
            RequestView::SendData(_) => true,
            RequestView::ReceiveData => self.data is Some,
            RequestView::ReceiveNames => self.data is Some,
            RequestView::Finished(_) => false,
            RequestView::Failed(_) => false,
        }
    }

    /// The client being told this.
    pub open spec fn told(self, answer: AnswerView) -> Wire {
        let (client, request) = self.client.step(answer);
        Wire { client, request, ..self }
    }

    /// What the client wants, done.
    pub open spec fn client_moves(self) -> Wire {
        match self.request {
            RequestView::ReadReply => {
                let (reply, rest) = reply_in(self.replies, None);
                Wire { replies: rest, ..self }.told(AnswerView::Reply(reply->Ok_0))
            },
            RequestView::Command(bytes) => Wire {
                commands: self.commands + bytes,
                request: RequestView::ReadReply,
                ..self
            },
            RequestView::Dial(_) => Wire { reached: true, ..self }.told(AnswerView::Done),
            RequestView::SendData(bytes) => Wire { data: Some(bytes), ..self }.told(
                AnswerView::Done,
            ),
            RequestView::ReceiveData => Wire { data: None, ..self }.told(
                AnswerView::Data(self.data->0),
            ),
            RequestView::ReceiveNames => Wire { data: None, ..self }.told(
                AnswerView::Names(self.data->0),
            ),
            _ => self,
        }
    }

    /// The session being told this.
    pub open spec fn heard(self, outcome: OutcomeView) -> Wire {
        let (session, action) = self.session.step(outcome);
        Wire { session, action, ..self }
    }

    /// Whether what the session wants can be done.
    pub open spec fn session_can(self) -> bool {
        match self.action {
            ActionView::ReadLine => self.commands.len() > 0,
            ActionView::Write(_) => true,
            ActionView::Bind(_) => true,
            ActionView::AcceptData => self.reached,
            ActionView::ReceiveData => self.data is Some,
            ActionView::SendData(_) => true,
            ActionView::SendNames(_) => true,
            ActionView::Happened(_) => true,
            ActionView::Left => false,
            ActionView::Failed(_) => false,
        }
    }

    /// What the session wants, done, and what came of it. What it reports is
    /// kept, and it starts over.
    pub open spec fn done(self) -> (Wire, OutcomeView) {
        match self.action {
            ActionView::ReadLine => {
                let n = line_len(self.commands) as int;
                (
                    Wire { commands: self.commands.skip(n), ..self },
                    OutcomeView::Line(self.commands.take(n)),
                )
            },
            ActionView::Write(bytes) => (
                Wire { replies: self.replies + bytes, ..self },
                OutcomeView::Done,
            ),
            ActionView::Bind(_) => (
                Wire { listening: true, reached: false, ..self },
                OutcomeView::Bound(Some(self.ip), self.port),
            ),
            ActionView::AcceptData => (
                Wire { listening: false, reached: false, ..self },
                OutcomeView::Done,
            ),
            ActionView::ReceiveData => (
                Wire { data: None, ..self },
                OutcomeView::Data(self.data->0),
            ),
            ActionView::SendData(bytes) => (Wire { data: Some(bytes), ..self }, OutcomeView::Done),
            ActionView::SendNames(bytes) => (Wire { data: Some(bytes), ..self }, OutcomeView::Done),
            ActionView::Happened(event) => (
                Wire { events: self.events.push(event), ..self },
                OutcomeView::Begin,
            ),
            _ => (self, OutcomeView::Begin),
        }
    }

    /// What the session wants, done, and the session told.
    pub open spec fn session_moves(self) -> Wire {
        let (wire, outcome) = self.done();
        wire.heard(outcome)
    }

    /// One thing done, the client's where it can be.
    pub open spec fn tick(self) -> Wire {
        if self.client_can() {
            self.client_moves()
        } else if self.session_can() {
            self.session_moves()
        } else {
            self
        }
    }

    /// So many things done.
    pub open spec fn run(self, n: nat) -> Wire
        decreases n,
    {
        if n == 0 {
            self
        } else {
            self.tick().run((n - 1) as nat)
        }
    }

    /// Whether all that happens from here leads to `end`.
    pub open spec fn leads_to(self, end: Wire) -> bool {
        exists|n: nat| #[trigger] self.run(n) == end
    }

    /// Whether nothing is on its way and the session waits for a command.
    pub open spec fn is_quiet(self) -> bool {
        &&& self.session.phase is Command
        &&& self.action is ReadLine
        &&& self.commands.len() == 0
        &&& self.replies.len() == 0
        &&& self.data is None
    }

    /// The client having begun this.
    pub open spec fn with(self, begun: (ClientView, RequestView)) -> Wire {
        Wire { client: begun.0, request: begun.1, ..self }
    }
}

/// One thing done, and what that leads to.
proof fn lemma_tick(w: Wire, end: Wire)
    requires
        w.tick().leads_to(end),
    ensures
        w.leads_to(end),
{
    let n = choose|n: nat| #[trigger] w.tick().run(n) == end;
    assert(w.run(n + 1) == end);
}

/// Nothing done.
proof fn lemma_there(w: Wire)
    ensures
        w.leads_to(w),
{
    assert(w.run(0) == w);
}

/// What leads to what leads to the end leads to the end.
pub proof fn lemma_leads_on(a: Wire, b: Wire, c: Wire)
    requires
        a.leads_to(b),
        b.leads_to(c),
    ensures
        a.leads_to(c),
{
    let n = choose|n: nat| #[trigger] a.run(n) == b;
    lemma_leads_on_steps(a, n, b, c);
}

proof fn lemma_leads_on_steps(a: Wire, n: nat, b: Wire, c: Wire)
    requires
        a.run(n) == b,
        b.leads_to(c),
    ensures
        a.leads_to(c),
    decreases n,
{
    if n > 0 {
        lemma_leads_on_steps(a.tick(), (n - 1) as nat, b, c);
        lemma_tick(a, c);
    }
}

/// A command of one line is obeyed as it was written.
pub proof fn lemma_command_is_heard(session: SessionView, command: Seq<char>)
    requires
        is_one_line(command),
    ensures
        session.heard(command_bytes(command)) == session.obey(
            uppercase(verb_of(command)),
            argument_of(command),
        ),
{
    lemma_line_reads_back(command, Seq::empty());
}

/// A command goes over to the session: what the session makes of it.
proof fn lemma_sent(w: Wire, command: Seq<char>, next: (SessionView, ActionView))
    requires
        w.is_quiet(),
        w.request == RequestView::Command(command_bytes(command)),
        is_one_line(command),
        w.session.obey(uppercase(verb_of(command)), argument_of(command)) == next,
    ensures
        w.tick().tick() == (Wire {
            request: RequestView::ReadReply,
            session: next.0,
            action: next.1,
            ..w
        }),
{
    let bytes = command_bytes(command);
    lemma_command_is_heard(w.session, command);
    lemma_line_reads_back(command, Seq::empty());
    let w1 = w.tick();
    assert(w1.commands =~= bytes);
    assert(bytes + Seq::<u8>::empty() =~= bytes);
    assert(bytes.take(bytes.len() as int) =~= bytes);
    assert(bytes.skip(bytes.len() as int) =~= Seq::<u8>::empty());
    assert(w.commands =~= Seq::<u8>::empty());
}

/// A reply goes over to the client, and the session goes on.
proof fn lemma_replied(w: Wire, code: u16, text: Seq<char>)
    requires
        w.request is ReadReply,
        w.action == ActionView::Write(reply_bytes(code, text)),
        w.replies.len() == 0,
        100 <= code < 600,
        is_one_line(text),
    ensures
        w.tick().tick() == w.heard(OutcomeView::Done).told(
            AnswerView::Reply(ReplyView { code, text }),
        ),
{
    let bytes = reply_bytes(code, text);
    lemma_format_reads_back(code, text, Seq::empty());
    assert(bytes + Seq::<u8>::empty() =~= bytes);
    assert(w.replies =~= Seq::<u8>::empty());
    assert(w.replies + bytes =~= bytes);
    assert(reply_in(bytes, None).0 is Ok);
    assert(bytes.len() > 0);
    let w1 = w.tick();
    assert(w1 == Wire { replies: bytes, ..w }.heard(OutcomeView::Done));
    assert(w1.client_can());
    let w2 = w.heard(OutcomeView::Done);
    assert(w1.tick().replies =~= w2.replies);
}

/// A command that is answered, and nothing else: the client has the answer,
/// and the session waits for the next command.
proof fn lemma_answered(w: Wire, command: Seq<char>, after: SessionView, code: u16, text: Seq<char>)
    requires
        w.is_quiet(),
        w.request == RequestView::Command(command_bytes(command)),
        is_one_line(command),
        w.session.obey(uppercase(verb_of(command)), argument_of(command)) == after.answer(
            code,
            text,
        ),
        100 <= code < 600,
        is_one_line(text),
    ensures
        w.leads_to(
            Wire { session: SessionView { phase: PhaseView::Command, ..after }, ..w }.told(
                AnswerView::Reply(ReplyView { code, text }),
            ),
        ),
{
    let next = after.answer(code, text);
    lemma_sent(w, command, next);
    let w2 = w.tick().tick();
    lemma_replied(w2, code, text);
    let w4 = w2.tick().tick();
    let end = Wire { session: SessionView { phase: PhaseView::Command, ..after }, ..w }.told(
        AnswerView::Reply(ReplyView { code, text }),
    );
    assert(w4 == end);
    lemma_there(end);
    lemma_tick(w2.tick(), end);
    lemma_tick(w2, end);
    lemma_tick(w.tick(), end);
    lemma_tick(w, end);
}

/// A verb as it is written: in upper case, and one word.
spec fn is_verb(word: Seq<char>) -> bool {
    forall|i: int| 0 <= i < word.len() ==> 'A' <= #[trigger] word[i] <= 'Z'
}

/// Whether `text` is one word: it holds no space and no line end.
pub open spec fn is_word(text: Seq<char>) -> bool {
    forall|i: int|
        0 <= i < text.len() ==> #[trigger] text[i] != ' ' && !is_line_end(text[i])
}

/// A word and what stands behind it come apart as they were put together.
proof fn lemma_verb_and_argument(word: Seq<char>, argument: Seq<char>)
    requires
        is_word(word),
    ensures
        verb_of(word + " "@ + argument) == word,
        argument_of(word + " "@ + argument) == argument,
        is_verb(word) ==> uppercase(word) == word,
        is_one_line(argument) ==> is_one_line(word + " "@ + argument),
{
    reveal_strlit(" ");
    let line = word + " "@ + argument;
    lemma_position(line, ' ');
    let at = position(line, ' ') as int;
    assert(line[word.len() as int] == ' ');
    assert(at == word.len()) by {
        if at < word.len() {
            assert(line[at] == word[at]);
        }
    }
    assert(line.take(at) =~= word);
    assert(line.skip(at + 1) =~= argument);
    if is_verb(word) {
        assert(uppercase(word) =~= word);
    }
    if is_one_line(argument) {
        assert forall|i: int| 0 <= i < line.len() implies line[i] != '\n' by {
            if i < word.len() {
                assert(line[i] == word[i]);
            } else if i > word.len() {
                assert(line[i] == argument[i - word.len() - 1]);
            }
        }
        if argument.len() > 0 {
            assert(line.last() == argument.last());
        } else {
            assert(line.last() == ' ');
        }
    }
}

/// A verb is obeyed in any case: its ASCII letters might as well be in upper
/// case.
pub proof fn lemma_case_of_a_verb_is_ignored(
    session: SessionView,
    verb: Seq<char>,
    argument: Seq<char>,
)
    requires
        is_word(verb),
        is_one_line(argument),
    ensures
        session.heard(command_bytes(verb + " "@ + argument)) == session.heard(
            command_bytes(uppercase(verb) + " "@ + argument),
        ),
{
    let loud = uppercase(verb);
    assert forall|i: int| 0 <= i < loud.len() implies #[trigger] loud[i] != ' ' && !is_line_end(
        loud[i],
    ) by {
        lemma_upper(verb[i]);
    }
    assert forall|i: int| 0 <= i < loud.len() implies upper(#[trigger] loud[i]) == loud[i] by {
        lemma_upper(verb[i]);
    }
    assert(uppercase(loud) =~= loud);
    lemma_verb_and_argument(verb, argument);
    lemma_verb_and_argument(loud, argument);
    lemma_command_is_heard(session, verb + " "@ + argument);
    lemma_command_is_heard(session, loud + " "@ + argument);
}

/// An upper case letter stays, and is no space and no line end where what it
/// stands for was none.
proof fn lemma_upper(c: char)
    ensures
        upper(upper(c)) == upper(c),
        c != ' ' && !is_line_end(c) ==> upper(c) != ' ' && !is_line_end(upper(c)),
{
}

/// A verb alone has no argument.
proof fn lemma_verb_alone(word: Seq<char>)
    requires
        is_verb(word),
    ensures
        verb_of(word) == word,
        argument_of(word) == Seq::<char>::empty(),
        uppercase(word) == word,
        is_one_line(word),
{
    lemma_position(word, ' ');
    assert(word.take(word.len() as int) =~= word);
    assert(uppercase(word) =~= word);
}

/// What each verb that a client uses has a session do.
proof fn lemma_verbs(session: SessionView, argument: Seq<char>)
    ensures
        session.obey("USER"@, argument) == session.answer(331, "password please"@),
        session.obey("PASS"@, argument) == session.answer(230, "logged in"@),
        session.obey("TYPE"@, argument) == session.answer(200, "ok"@),
        session.obey("PASV"@, argument) == session.go(
            PhaseView::Binding,
            ActionView::Bind("127.0.0.1:0"@),
        ),
        session.obey("STOR"@, argument) == session.store(argument),
        session.obey("RETR"@, argument) == session.retrieve(argument),
        session.obey("NLST"@, argument) == session.list(),
        session.obey("DELE"@, argument) == session.delete(argument),
        session.obey("QUIT"@, argument) == session.answer_and(
            221,
            "goodbye"@,
            ActionView::Left,
        ),
        is_verb("USER"@),
        is_verb("PASS"@),
        is_verb("TYPE"@),
        is_verb("PASV"@),
        is_verb("STOR"@),
        is_verb("RETR"@),
        is_verb("NLST"@),
        is_verb("DELE"@),
        is_verb("QUIT"@),
{
    reveal_strlit("USER");
    reveal_strlit("PASS");
    reveal_strlit("TYPE");
    reveal_strlit("NOOP");
    reveal_strlit("CWD");
    reveal_strlit("PWD");
    reveal_strlit("PASV");
    reveal_strlit("STOR");
    reveal_strlit("RETR");
    reveal_strlit("NLST");
    reveal_strlit("LIST");
    reveal_strlit("DELE");
    reveal_strlit("QUIT");
    assert("USER"@ =~= seq!['U', 'S', 'E', 'R']);
    assert("PASS"@ =~= seq!['P', 'A', 'S', 'S']);
    assert("TYPE"@ =~= seq!['T', 'Y', 'P', 'E']);
    assert("NOOP"@ =~= seq!['N', 'O', 'O', 'P']);
    assert("CWD"@ =~= seq!['C', 'W', 'D']);
    assert("PWD"@ =~= seq!['P', 'W', 'D']);
    assert("PASV"@ =~= seq!['P', 'A', 'S', 'V']);
    assert("STOR"@ =~= seq!['S', 'T', 'O', 'R']);
    assert("RETR"@ =~= seq!['R', 'E', 'T', 'R']);
    assert("NLST"@ =~= seq!['N', 'L', 'S', 'T']);
    assert("LIST"@ =~= seq!['L', 'I', 'S', 'T']);
    assert("DELE"@ =~= seq!['D', 'E', 'L', 'E']);
    assert("QUIT"@ =~= seq!['Q', 'U', 'I', 'T']);
}

/// What a session answers is one line.
proof fn lemma_texts()
    ensures
        is_one_line("password please"@),
        is_one_line("logged in"@),
        is_one_line("ok"@),
        is_one_line("goodbye"@),
        is_one_line("deleted"@),
        is_one_line("no such file"@),
        is_one_line("use PASV first"@),
        is_one_line("ok to send data"@),
        is_one_line("opening data connection"@),
        is_one_line("here comes the listing"@),
        is_one_line("transfer complete"@),
{
    reveal_strlit("password please");
    reveal_strlit("logged in");
    reveal_strlit("ok");
    reveal_strlit("goodbye");
    reveal_strlit("deleted");
    reveal_strlit("no such file");
    reveal_strlit("use PASV first");
    reveal_strlit("ok to send data");
    reveal_strlit("opening data connection");
    reveal_strlit("here comes the listing");
    reveal_strlit("transfer complete");
}

/// A client that begins a transfer reaches the session's data listener.
proof fn lemma_dialed(w: Wire, transfer: TransferView)
    requires
        w.is_quiet(),
        (w.client, w.request) == ClientView::begin(transfer),
    ensures
        w.leads_to(
            Wire {
                session: SessionView { passive: true, ..w.session },
                listening: true,
                reached: true,
                ..w
            }.with(ClientView::Opening(transfer).ask(transfer.command())),
        ),
{
    let end = Wire {
        session: SessionView { passive: true, ..w.session },
        listening: true,
        reached: true,
        ..w
    }.with(ClientView::Opening(transfer).ask(transfer.command()));
    let bound = w.session.go(PhaseView::Binding, ActionView::Bind("127.0.0.1:0"@));
    let text = passive_text(w.ip, w.port);
    lemma_verbs(w.session, Seq::empty());
    lemma_verb_alone("PASV"@);
    lemma_sent(w, "PASV"@, bound);
    let w2 = w.tick().tick();
    let w3 = w2.tick();
    assert(w3 == Wire { listening: true, reached: false, ..w2 }.heard(
        OutcomeView::Bound(Some(w.ip), w.port),
    ));
    lemma_passive_address_reads_back(w.ip, w.port);
    lemma_replied(w3, 227, text);
    let w5 = w3.tick().tick();
    assert(w5.request == RequestView::Dial(listener_address(w.ip, w.port)));
    assert(w5.tick() == end);
    lemma_there(end);
    lemma_tick(w5, end);
    lemma_tick(w3.tick(), end);
    lemma_tick(w3, end);
    lemma_tick(w2, end);
    lemma_tick(w.tick(), end);
    lemma_tick(w, end);
}

/// Storing over an undisturbed connection: the client is done, the session
/// reports the file with all its bytes, and its directory holds it.
pub proof fn lemma_store_arrives(w: Wire, name: Seq<char>, bytes: Seq<u8>)
    requires
        w.is_quiet(),
        is_one_line(name),
    ensures
        w.with(ClientView::begin(TransferView::Store(name, bytes))).leads_to(
            Wire {
                session: SessionView {
                    files: w.session.files.insert(name, bytes),
                    passive: false,
                    ..w.session
                },
                listening: false,
                reached: false,
                events: w.events.push(EventView::Stored(arrival(w.session.peer, name, bytes))),
                ..w
            }.with(ClientView::finish(ProductView::Stored)),
        ),
{
    let transfer = TransferView::Store(name, bytes);
    let start = w.with(ClientView::begin(transfer));
    let end = Wire {
        session: SessionView {
            files: w.session.files.insert(name, bytes),
            passive: false,
            ..w.session
        },
        listening: false,
        reached: false,
        events: w.events.push(EventView::Stored(arrival(w.session.peer, name, bytes))),
        ..w
    }.with(ClientView::finish(ProductView::Stored));
    lemma_dialed(start, transfer);
    let a = Wire {
        session: SessionView { passive: true, ..w.session },
        listening: true,
        reached: true,
        ..start
    }.with(ClientView::Opening(transfer).ask(transfer.command()));
    lemma_texts();
    lemma_verbs(a.session, name);
    lemma_verb_and_argument("STOR"@, name);
    lemma_commands();
    lemma_sent(a, "STOR "@ + name, a.session.store(name));
    let a2 = a.tick().tick();
    lemma_replied(a2, 150, "ok to send data"@);
    let a4 = a2.tick().tick();
    assert(a4.request == RequestView::SendData(bytes));
    assert(a4.action is AcceptData);
    let a5 = a4.tick();
    assert(a5.request is ReadReply);
    let a6 = a5.tick();
    assert(a6.action is ReceiveData);
    let a7 = a6.tick();
    assert(a7.data is None);
    lemma_replied(a7, 226, "transfer complete"@);
    let a9 = a7.tick().tick();
    assert(a9.request is Finished);
    assert(a9.tick() == end);
    lemma_there(end);
    lemma_tick(a9, end);
    lemma_tick(a7.tick(), end);
    lemma_tick(a7, end);
    lemma_tick(a6, end);
    lemma_tick(a5, end);
    lemma_tick(a4, end);
    lemma_tick(a2.tick(), end);
    lemma_tick(a2, end);
    lemma_tick(a.tick(), end);
    lemma_tick(a, end);
    lemma_leads_on(start, a, end);
}

/// Retrieving a file that is there: the client has all its bytes, and the
/// session reports the name and keeps the file.
pub proof fn lemma_retrieve_gives_back(w: Wire, name: Seq<char>)
    requires
        w.is_quiet(),
        is_one_line(name),
        w.session.files.contains_key(name),
    ensures
        w.with(ClientView::begin(TransferView::Retrieve(name))).leads_to(
            Wire {
                session: SessionView { passive: false, ..w.session },
                listening: false,
                reached: false,
                events: w.events.push(EventView::Retrieved(name)),
                ..w
            }.with(ClientView::finish(ProductView::Retrieved(w.session.files[name]))),
        ),
{
    let transfer = TransferView::Retrieve(name);
    let start = w.with(ClientView::begin(transfer));
    let end = Wire {
        session: SessionView { passive: false, ..w.session },
        listening: false,
        reached: false,
        events: w.events.push(EventView::Retrieved(name)),
        ..w
    }.with(ClientView::finish(ProductView::Retrieved(w.session.files[name])));
    lemma_dialed(start, transfer);
    let a = Wire {
        session: SessionView { passive: true, ..w.session },
        listening: true,
        reached: true,
        ..start
    }.with(ClientView::Opening(transfer).ask(transfer.command()));
    lemma_texts();
    lemma_commands();
    lemma_verbs(a.session, name);
    lemma_verb_and_argument("RETR"@, name);
    lemma_sent(a, "RETR "@ + name, a.session.retrieve(name));
    let a2 = a.tick().tick();
    lemma_replied(a2, 150, "opening data connection"@);
    let a4 = a2.tick().tick();
    assert(a4.request is ReceiveData);
    assert(a4.action is AcceptData);
    let a5 = a4.tick();
    assert(a5.action == ActionView::SendData(w.session.files[name]));
    let a6 = a5.tick();
    assert(a6.data == Some(w.session.files[name]));
    let a7 = a6.tick();
    assert(a7.request is ReadReply);
    lemma_replied(a7, 226, "transfer complete"@);
    let a9 = a7.tick().tick();
    assert(a9.request is Finished);
    assert(a9.tick() == end);
    lemma_there(end);
    lemma_tick(a9, end);
    lemma_tick(a7.tick(), end);
    lemma_tick(a7, end);
    lemma_tick(a6, end);
    lemma_tick(a5, end);
    lemma_tick(a4, end);
    lemma_tick(a2.tick(), end);
    lemma_tick(a2, end);
    lemma_tick(a.tick(), end);
    lemma_tick(a, end);
    lemma_leads_on(start, a, end);
}

/// Retrieving a file that is not there is refused for good, and changes
/// nothing in the directory.
pub proof fn lemma_missing_file_is_refused(w: Wire, name: Seq<char>)
    requires
        w.is_quiet(),
        is_one_line(name),
        !w.session.files.contains_key(name),
    ensures
        w.with(ClientView::begin(TransferView::Retrieve(name))).leads_to(
            Wire {
                session: SessionView { passive: true, ..w.session },
                listening: true,
                reached: true,
                ..w
            }.with(
                ClientView::fail(
                    refusal(
                        "the retrieve"@,
                        ReplyView { code: 550, text: "no such file"@ },
                    ),
                ),
            ),
        ),
        refusal("the retrieve"@, ReplyView { code: 550, text: "no such file"@ }) is Permanent,
{
    let transfer = TransferView::Retrieve(name);
    let start = w.with(ClientView::begin(transfer));
    lemma_dialed(start, transfer);
    let a = Wire {
        session: SessionView { passive: true, ..w.session },
        listening: true,
        reached: true,
        ..start
    }.with(ClientView::Opening(transfer).ask(transfer.command()));
    lemma_texts();
    lemma_commands();
    lemma_verbs(a.session, name);
    lemma_verb_and_argument("RETR"@, name);
    lemma_answered(a, "RETR "@ + name, a.session, 550, "no such file"@);
    let end = Wire {
        session: SessionView { passive: true, ..w.session },
        listening: true,
        reached: true,
        ..w
    }.with(
        ClientView::fail(
            refusal("the retrieve"@, ReplyView { code: 550, text: "no such file"@ }),
        ),
    );
    assert(Wire { session: SessionView { phase: PhaseView::Command, ..a.session }, ..a }.told(
        AnswerView::Reply(ReplyView { code: 550, text: "no such file"@ }),
    ) == end);
    lemma_leads_on(start, a, end);
}

/// Listing: the client has the names that the session's listing holds.
pub proof fn lemma_names_come_over(w: Wire)
    requires
        w.is_quiet(),
    ensures
        w.with(ClientView::begin(TransferView::List)).leads_to(
            Wire {
                session: SessionView { passive: false, ..w.session },
                listening: false,
                reached: false,
                ..w
            }.with(
                ClientView::finish(
                    ProductView::Names(listed(listing(names_in(w.session.files)))),
                ),
            ),
        ),
{
    let transfer = TransferView::List;
    let start = w.with(ClientView::begin(transfer));
    let lines = listing(names_in(w.session.files));
    let end = Wire {
        session: SessionView { passive: false, ..w.session },
        listening: false,
        reached: false,
        ..w
    }.with(ClientView::finish(ProductView::Names(listed(lines))));
    lemma_dialed(start, transfer);
    let a = Wire {
        session: SessionView { passive: true, ..w.session },
        listening: true,
        reached: true,
        ..start
    }.with(ClientView::Opening(transfer).ask(transfer.command()));
    lemma_texts();
    lemma_verbs(a.session, Seq::empty());
    lemma_verb_alone("NLST"@);
    lemma_sent(a, "NLST"@, a.session.list());
    let a2 = a.tick().tick();
    lemma_replied(a2, 150, "here comes the listing"@);
    let a4 = a2.tick().tick();
    assert(a4.request is ReceiveNames);
    assert(a4.action is AcceptData);
    let a5 = a4.tick();
    assert(a5.action == ActionView::SendNames(lines));
    let a6 = a5.tick();
    assert(a6.data == Some(lines));
    let a7 = a6.tick();
    assert(a7.request is ReadReply);
    lemma_replied(a7, 226, "transfer complete"@);
    let a9 = a7.tick().tick();
    assert(a9 == end);
    lemma_there(end);
    lemma_tick(a7.tick(), end);
    lemma_tick(a7, end);
    lemma_tick(a6, end);
    lemma_tick(a5, end);
    lemma_tick(a4, end);
    lemma_tick(a2.tick(), end);
    lemma_tick(a2, end);
    lemma_tick(a.tick(), end);
    lemma_tick(a, end);
    lemma_leads_on(start, a, end);
}

/// Deleting a file that is there: the client is done, the session reports the
/// name, and its directory no longer holds it.
pub proof fn lemma_delete_takes_away(w: Wire, name: Seq<char>)
    requires
        w.is_quiet(),
        is_one_line(name),
        w.session.files.contains_key(name),
    ensures
        w.with(ClientView::Deleting.ask("DELE "@ + name)).leads_to(
            Wire {
                session: SessionView { files: w.session.files.remove(name), ..w.session },
                events: w.events.push(EventView::Deleted(name)),
                ..w
            }.with(ClientView::finish(ProductView::Deleted)),
        ),
{
    let a = w.with(ClientView::Deleting.ask("DELE "@ + name));
    let end = Wire {
        session: SessionView { files: w.session.files.remove(name), ..w.session },
        events: w.events.push(EventView::Deleted(name)),
        ..w
    }.with(ClientView::finish(ProductView::Deleted));
    lemma_texts();
    lemma_commands();
    lemma_verbs(a.session, name);
    lemma_verb_and_argument("DELE"@, name);
    lemma_sent(a, "DELE "@ + name, a.session.delete(name));
    let a2 = a.tick().tick();
    lemma_replied(a2, 250, "deleted"@);
    let a4 = a2.tick().tick();
    assert(a4.request is Finished);
    assert(a4.tick() == end);
    lemma_there(end);
    lemma_tick(a4, end);
    lemma_tick(a2.tick(), end);
    lemma_tick(a2, end);
    lemma_tick(a.tick(), end);
    lemma_tick(a, end);
}

/// Deleting a file that is not there is refused for good, and changes
/// nothing.
pub proof fn lemma_missing_file_is_not_deleted(w: Wire, name: Seq<char>)
    requires
        w.is_quiet(),
        is_one_line(name),
        !w.session.files.contains_key(name),
    ensures
        w.with(ClientView::Deleting.ask("DELE "@ + name)).leads_to(
            w.with(
                ClientView::fail(
                    refusal("the delete"@, ReplyView { code: 550, text: "no such file"@ }),
                ),
            ),
        ),
        refusal("the delete"@, ReplyView { code: 550, text: "no such file"@ }) is Permanent,
{
    let a = w.with(ClientView::Deleting.ask("DELE "@ + name));
    let reply = ReplyView { code: 550, text: "no such file"@ };
    lemma_texts();
    lemma_commands();
    lemma_verbs(w.session, name);
    lemma_verb_and_argument("DELE"@, name);
    lemma_answered(a, "DELE "@ + name, w.session, 550, "no such file"@);
    assert(Wire { session: SessionView { phase: PhaseView::Command, ..w.session }, ..a }.told(
        AnswerView::Reply(reply),
    ) == w.with(ClientView::fail(refusal("the delete"@, reply))));
}

/// A client is greeted, and says who it is.
proof fn lemma_greeted(w: Wire, login: LoginView)
    requires
        w.is_quiet(),
    ensures
        (Wire { replies: reply_bytes(220, "xmip ready"@), ..w }).with(
            (ClientView::Greeting(login), RequestView::ReadReply),
        ).leads_to(w.with(ClientView::User(login.password).ask("USER "@ + login.user))),
{
    let greeting = reply_bytes(220, "xmip ready"@);
    let start = Wire { replies: greeting, ..w }.with(
        (ClientView::Greeting(login), RequestView::ReadReply),
    );
    let end = w.with(ClientView::User(login.password).ask("USER "@ + login.user));
    assert(is_one_line("xmip ready"@)) by {
        reveal_strlit("xmip ready");
    }
    lemma_format_reads_back(220, "xmip ready"@, Seq::empty());
    assert(greeting + Seq::<u8>::empty() =~= greeting);
    assert(w.replies =~= Seq::<u8>::empty());
    assert(greeting.len() > 0);
    assert(start.tick() == end);
    lemma_there(end);
    lemma_tick(start, end);
}

/// Any user is asked for a password.
proof fn lemma_any_user(w: Wire, user: Seq<char>, password: Seq<char>)
    requires
        w.is_quiet(),
        is_one_line(user),
    ensures
        w.with(ClientView::User(password).ask("USER "@ + user)).leads_to(
            w.with(ClientView::Pass.ask("PASS "@ + password)),
        ),
{
    let a = w.with(ClientView::User(password).ask("USER "@ + user));
    let reply = ReplyView { code: 331, text: "password please"@ };
    lemma_texts();
    lemma_commands();
    lemma_verbs(w.session, user);
    lemma_verb_and_argument("USER"@, user);
    lemma_answered(a, "USER "@ + user, w.session, 331, "password please"@);
    assert(Wire { session: SessionView { phase: PhaseView::Command, ..w.session }, ..a }.told(
        AnswerView::Reply(reply),
    ) == w.with(ClientView::Pass.ask("PASS "@ + password)));
}

/// Any password lets the client in.
proof fn lemma_any_password(w: Wire, password: Seq<char>)
    requires
        w.is_quiet(),
        is_one_line(password),
    ensures
        w.with(ClientView::Pass.ask("PASS "@ + password)).leads_to(
            w.with(ClientView::Binary.ask("TYPE I"@)),
        ),
{
    let a = w.with(ClientView::Pass.ask("PASS "@ + password));
    let reply = ReplyView { code: 230, text: "logged in"@ };
    lemma_texts();
    lemma_commands();
    lemma_verbs(w.session, password);
    lemma_verb_and_argument("PASS"@, password);
    lemma_answered(a, "PASS "@ + password, w.session, 230, "logged in"@);
    assert(Wire { session: SessionView { phase: PhaseView::Command, ..w.session }, ..a }.told(
        AnswerView::Reply(reply),
    ) == w.with(ClientView::Binary.ask("TYPE I"@)));
}

/// The binary type is taken.
proof fn lemma_binary(w: Wire)
    requires
        w.is_quiet(),
    ensures
        w.with(ClientView::Binary.ask("TYPE I"@)).leads_to(
            w.with(ClientView::finish(ProductView::Connected)),
        ),
{
    let a = w.with(ClientView::Binary.ask("TYPE I"@));
    let reply = ReplyView { code: 200, text: "ok"@ };
    lemma_texts();
    lemma_commands();
    lemma_verbs(w.session, "I"@);
    lemma_verb_and_argument("TYPE"@, "I"@);
    lemma_answered(a, "TYPE I"@, w.session, 200, "ok"@);
    assert(Wire { session: SessionView { phase: PhaseView::Command, ..w.session }, ..a }.told(
        AnswerView::Reply(reply),
    ) == w.with(ClientView::finish(ProductView::Connected)));
}

/// Logging in: whoever the client is, it is let in, and the session is as it
/// was. The greeting is on its way when the client begins.
pub proof fn lemma_anyone_logs_in(w: Wire, login: LoginView)
    requires
        w.is_quiet(),
        is_one_line(login.user),
        is_one_line(login.password),
    ensures
        (Wire { replies: reply_bytes(220, "xmip ready"@), ..w }).with(
            (ClientView::Greeting(login), RequestView::ReadReply),
        ).leads_to(w.with(ClientView::finish(ProductView::Connected))),
{
    let start = Wire { replies: reply_bytes(220, "xmip ready"@), ..w }.with(
        (ClientView::Greeting(login), RequestView::ReadReply),
    );
    let a = w.with(ClientView::User(login.password).ask("USER "@ + login.user));
    let b = w.with(ClientView::Pass.ask("PASS "@ + login.password));
    let c = w.with(ClientView::Binary.ask("TYPE I"@));
    let end = w.with(ClientView::finish(ProductView::Connected));
    lemma_greeted(w, login);
    lemma_any_user(w, login.user, login.password);
    lemma_any_password(w, login.password);
    lemma_binary(w);
    lemma_leads_on(b, c, end);
    lemma_leads_on(a, b, end);
    lemma_leads_on(start, a, end);
}

/// Saying goodbye: the client is answered, and the session is over with its
/// directory as it was.
pub proof fn lemma_goodbye_is_answered(w: Wire)
    requires
        w.is_quiet(),
    ensures
        w.with(ClientView::Quitting.ask("QUIT"@)).leads_to(
            Wire {
                session: SessionView { phase: PhaseView::Idle, ..w.session },
                action: ActionView::Left,
                ..w
            }.with(ClientView::finish(ProductView::Left)),
        ),
{
    let a = w.with(ClientView::Quitting.ask("QUIT"@));
    let end = Wire {
        session: SessionView { phase: PhaseView::Idle, ..w.session },
        action: ActionView::Left,
        ..w
    }.with(ClientView::finish(ProductView::Left));
    lemma_texts();
    lemma_verbs(a.session, Seq::empty());
    lemma_verb_alone("QUIT"@);
    lemma_sent(a, "QUIT"@, a.session.answer_and(221, "goodbye"@, ActionView::Left));
    let a2 = a.tick().tick();
    lemma_replied(a2, 221, "goodbye"@);
    assert(a2.tick().tick() == end);
    lemma_there(end);
    lemma_tick(a2.tick(), end);
    lemma_tick(a2, end);
    lemma_tick(a.tick(), end);
    lemma_tick(a, end);
}

/// What a client puts before a name is a verb and a space.
proof fn lemma_commands()
    ensures
        "USER "@ == "USER"@ + " "@,
        "PASS "@ == "PASS"@ + " "@,
        "STOR "@ == "STOR"@ + " "@,
        "RETR "@ == "RETR"@ + " "@,
        "DELE "@ == "DELE"@ + " "@,
        "TYPE I"@ == "TYPE"@ + " "@ + "I"@,
        is_one_line("I"@),
{
    reveal_strlit(" ");
    reveal_strlit("USER ");
    reveal_strlit("PASS ");
    reveal_strlit("STOR ");
    reveal_strlit("RETR ");
    reveal_strlit("DELE ");
    reveal_strlit("TYPE I");
    reveal_strlit("USER");
    reveal_strlit("PASS");
    reveal_strlit("STOR");
    reveal_strlit("RETR");
    reveal_strlit("DELE");
    reveal_strlit("TYPE");
    reveal_strlit("I");
    assert("USER "@ =~= "USER"@ + " "@);
    assert("PASS "@ =~= "PASS"@ + " "@);
    assert("STOR "@ =~= "STOR"@ + " "@);
    assert("RETR "@ =~= "RETR"@ + " "@);
    assert("DELE "@ =~= "DELE"@ + " "@);
    assert("TYPE I"@ =~= "TYPE"@ + " "@ + "I"@);
}

/// What was stored is retrieved: the same bytes, under the same name.
pub proof fn lemma_stored_file_is_retrieved(w: Wire, name: Seq<char>, bytes: Seq<u8>)
    requires
        w.is_quiet(),
        is_one_line(name),
    ensures
        exists|stored: Wire, end: Wire|
            {
                &&& #[trigger] w.with(
                    ClientView::begin(TransferView::Store(name, bytes)),
                ).leads_to(stored)
                &&& stored.is_quiet()
                &&& #[trigger] stored.with(
                    ClientView::begin(TransferView::Retrieve(name)),
                ).leads_to(end)
                &&& end.request == RequestView::Finished(ProductView::Retrieved(bytes))
            },
{
    let stored = Wire {
        session: SessionView {
            files: w.session.files.insert(name, bytes),
            passive: false,
            ..w.session
        },
        listening: false,
        reached: false,
        events: w.events.push(EventView::Stored(arrival(w.session.peer, name, bytes))),
        ..w
    }.with(ClientView::finish(ProductView::Stored));
    let end = Wire {
        session: SessionView { passive: false, ..stored.session },
        listening: false,
        reached: false,
        events: stored.events.push(EventView::Retrieved(name)),
        ..stored
    }.with(ClientView::finish(ProductView::Retrieved(bytes)));
    lemma_store_arrives(w, name, bytes);
    lemma_retrieve_gives_back(stored, name);
    assert(stored.with(ClientView::begin(TransferView::Retrieve(name))).leads_to(end));
}

/// What was deleted is gone: retrieving it is refused for good.
pub proof fn lemma_deleted_file_is_gone(w: Wire, name: Seq<char>)
    requires
        w.is_quiet(),
        is_one_line(name),
        w.session.files.contains_key(name),
    ensures
        exists|deleted: Wire, end: Wire|
            {
                &&& #[trigger] w.with(ClientView::Deleting.ask("DELE "@ + name)).leads_to(deleted)
                &&& deleted.is_quiet()
                &&& #[trigger] deleted.with(
                    ClientView::begin(TransferView::Retrieve(name)),
                ).leads_to(end)
                &&& end.request matches RequestView::Failed(error) && error is Permanent
            },
{
    let deleted = Wire {
        session: SessionView { files: w.session.files.remove(name), ..w.session },
        events: w.events.push(EventView::Deleted(name)),
        ..w
    }.with(ClientView::finish(ProductView::Deleted));
    lemma_delete_takes_away(w, name);
    lemma_missing_file_is_refused(deleted, name);
    let end = Wire {
        session: SessionView { passive: true, ..deleted.session },
        listening: true,
        reached: true,
        ..deleted
    }.with(
        ClientView::fail(
            refusal("the retrieve"@, ReplyView { code: 550, text: "no such file"@ }),
        ),
    );
    assert(deleted.with(ClientView::begin(TransferView::Retrieve(name))).leads_to(end));
}

/// Whether a name can stand in a listing: it is one line, and not empty.
pub open spec fn is_listable(name: Seq<char>) -> bool {
    is_one_line(name) && name.len() > 0
}

/// A listing opens with its first name.
proof fn lemma_listing_front(names: Seq<Seq<char>>)
    requires
        names.len() > 0,
    ensures
        listing(names) == encode_utf8(names[0] + "\r\n"@) + listing(names.skip(1)),
    decreases names.len(),
{
    let first = encode_utf8(names[0] + "\r\n"@);
    if names.len() == 1 {
        assert(names.drop_last() =~= Seq::<Seq<char>>::empty());
        assert(names.skip(1) =~= Seq::<Seq<char>>::empty());
        assert(listing(names) =~= first + listing(names.skip(1)));
    } else {
        lemma_listing_front(names.drop_last());
        assert(names.drop_last().skip(1) =~= names.skip(1).drop_last());
        assert(names.skip(1).last() == names.last());
        assert(listing(names) =~= first + listing(names.skip(1)));
    }
}

/// What a session lists is what a client reads: the names, in their order.
pub proof fn lemma_listing_reads_back(names: Seq<Seq<char>>)
    requires
        forall|i: int| 0 <= i < names.len() ==> is_listable(#[trigger] names[i]),
    ensures
        listed(listing(names)) == names,
    decreases names.len(),
{
    if names.len() == 0 {
        assert(listed(listing(names)) =~= names);
    } else {
        let rest = names.skip(1);
        let raw = encode_utf8(names[0] + "\r\n"@);
        let bytes = listing(names);
        assert forall|i: int| 0 <= i < rest.len() implies is_listable(#[trigger] rest[i]) by {
            assert(rest[i] == names[i + 1]);
        }
        assert(is_listable(names[0]));
        lemma_listing_reads_back(rest);
        lemma_listing_front(names);
        lemma_line_reads_back(names[0], listing(rest));
        assert(bytes.take(raw.len() as int) =~= raw);
        assert(bytes.skip(raw.len() as int) =~= listing(rest));
        assert(seq![names[0]] + rest =~= names);
    }
}

} // verus!
