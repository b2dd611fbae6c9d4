//! What holds of a session: what each command is answered, what moves over
//! the data connection, and what becomes of the directory.

use vstd::prelude::*;
use vstd::utf8::{decode_utf8, encode_utf8, valid_utf8};

use crate::arrived::ArrivedView;
use crate::error::ErrorView;
use crate::files::names_in;
use crate::laws::text::{lemma_first_place, lemma_trimming_gives_the_text};
use crate::reply::reply_bytes;
use crate::session::{
    listing, ActionView, EventView, OutcomeView, PhaseView, SessionView,
    TransferView,
};
use crate::text::{decimal, uppercase};

verus! {

/// A command line is its first word and what stands behind the space that
/// follows it; the word is obeyed in upper case. Nothing read means that the
/// client is gone, and what is not text is garbled.
pub proof fn lemma_a_line_is_a_command(
    session: SessionView,
    raw: Seq<u8>,
    verb: Seq<char>,
    argument: Seq<char>,
    ends: Seq<char>,
)
    requires
        !verb.contains(' '),
        forall|i: int| 0 <= i < ends.len() ==> #[trigger] ends[i] == '\r' || ends[i] == '\n',
    ensures
        raw.len() == 0 ==> session.step(OutcomeView::Line(raw)) == (
            SessionView { phase: PhaseView::Idle, ..session },
            ActionView::Left,
        ),
        raw.len() > 0 && !valid_utf8(raw) ==> session.step(OutcomeView::Line(raw)) == (
            SessionView { phase: PhaseView::Idle, ..session },
            ActionView::Failed(ErrorView::Garbled("reading a command"@)),
        ),
        raw.len() > 0 && valid_utf8(raw) && decode_utf8(raw) == verb.push(' ') + argument + ends
            && (argument.len() > 0 ==> argument.last() != '\r' && argument.last() != '\n')
            ==> session.step(OutcomeView::Line(raw)) == session.obey(uppercase(verb), argument),
        raw.len() > 0 && valid_utf8(raw) && decode_utf8(raw) == verb + ends && (verb.len() > 0
            ==> verb.last() != '\r' && verb.last() != '\n') ==> session.step(
            OutcomeView::Line(raw),
        ) == session.obey(uppercase(verb), Seq::empty()),
{
    let line = verb.push(' ') + argument;
    lemma_first_place(verb, ' ', argument);
    if argument.len() > 0 ==> argument.last() != '\r' && argument.last() != '\n' {
        assert(line.last() == if argument.len() > 0 {
            argument.last()
        } else {
            ' '
        });
        lemma_trimming_gives_the_text(line, ends);
        assert(line.take(verb.len() as int) =~= verb);
        assert(line.skip(verb.len() as int + 1) =~= argument);
    }
    if verb.len() > 0 ==> verb.last() != '\r' && verb.last() != '\n' {
        lemma_trimming_gives_the_text(verb, ends);
        assert(verb.take(verb.len() as int) =~= verb);
    }
}

/// The verbs are different words.
proof fn lemma_verbs_differ()
    ensures
        "USER"@ == seq!['U', 'S', 'E', 'R'],
        "PASS"@ == seq!['P', 'A', 'S', 'S'],
        "TYPE"@ == seq!['T', 'Y', 'P', 'E'],
        "NOOP"@ == seq!['N', 'O', 'O', 'P'],
        "CWD"@ == seq!['C', 'W', 'D'],
        "PWD"@ == seq!['P', 'W', 'D'],
        "PASV"@ == seq!['P', 'A', 'S', 'V'],
        "STOR"@ == seq!['S', 'T', 'O', 'R'],
        "RETR"@ == seq!['R', 'E', 'T', 'R'],
        "NLST"@ == seq!['N', 'L', 'S', 'T'],
        "LIST"@ == seq!['L', 'I', 'S', 'T'],
        "DELE"@ == seq!['D', 'E', 'L', 'E'],
        "QUIT"@ == seq!['Q', 'U', 'I', 'T'],
{
    reveal_strlit("USER");
    reveal_strlit("PASS");
    reveal_strlit("TYPE");
    reveal_strlit("NOOP");
    reveal_strlit("CWD");
    reveal_strlit("PWD");
    reveal_strlit("PASV");
    reveal_strlit("STOR");
    reveal_strlit("RETR");
    reveal_strlit("NLST");
    reveal_strlit("LIST");
    reveal_strlit("DELE");
    reveal_strlit("QUIT");
}

/// Anyone is let in, with any password; the type and the directory may be
/// what they want; and what no one knows is not implemented. None of this
/// changes anything.
pub proof fn lemma_small_talk(session: SessionView, verb: Seq<char>, argument: Seq<char>)
    ensures
        session.obey("USER"@, argument) == (
            SessionView { phase: PhaseView::Answering, ..session },
            ActionView::Write(reply_bytes(331, "password please"@)),
        ),
        session.obey("PASS"@, argument) == (
            SessionView { phase: PhaseView::Answering, ..session },
            ActionView::Write(reply_bytes(230, "logged in"@)),
        ),
        session.obey("TYPE"@, argument) == (
            SessionView { phase: PhaseView::Answering, ..session },
            ActionView::Write(reply_bytes(200, "ok"@)),
        ),
        session.obey("NOOP"@, argument) == (
            SessionView { phase: PhaseView::Answering, ..session },
            ActionView::Write(reply_bytes(200, "ok"@)),
        ),
        session.obey("CWD"@, argument) == (
            SessionView { phase: PhaseView::Answering, ..session },
            ActionView::Write(reply_bytes(250, "directory changed"@)),
        ),
        session.obey("PWD"@, argument) == (
            SessionView { phase: PhaseView::Answering, ..session },
            ActionView::Write(reply_bytes(257, "\"/\""@)),
        ),
        verb != "USER"@ && verb != "PASS"@ && verb != "TYPE"@ && verb != "NOOP"@ && verb
            != "CWD"@ && verb != "PWD"@ && verb != "PASV"@ && verb != "STOR"@ && verb != "RETR"@
            && verb != "NLST"@ && verb != "LIST"@ && verb != "DELE"@ && verb != "QUIT"@
            ==> session.obey(verb, argument) == (
            SessionView { phase: PhaseView::Answering, ..session },
            ActionView::Write(reply_bytes(502, "not implemented"@)),
        ),
{
    lemma_verbs_differ();
}

/// A goodbye is answered, and then the client has left.
pub proof fn lemma_a_goodbye_is_the_end(session: SessionView, argument: Seq<char>)
    ensures
        session.obey("QUIT"@, argument) == (
            SessionView { phase: PhaseView::Leaving(ActionView::Left), ..session },
            ActionView::Write(reply_bytes(221, "goodbye"@)),
        ),
{
    lemma_verbs_differ();
}

/// `PASV` has a listener bound on this machine. The client is told its
/// address and port, and it waits for one transfer; without an IPv4 address
/// there is none.
pub proof fn lemma_a_listener_is_told_of(
    session: SessionView,
    argument: Seq<char>,
    ip: (u8, u8, u8, u8),
    port: u16,
)
    ensures
        session.obey("PASV"@, argument) == (
            SessionView { phase: PhaseView::Binding, ..session },
            ActionView::Bind("127.0.0.1:0"@),
        ),
        session.step(OutcomeView::Bound(Some(ip), port)) == (
            SessionView { passive: true, phase: PhaseView::Answering, ..session },
            ActionView::Write(reply_bytes(
                227,
                "Entering Passive Mode ("@ + decimal(ip.0 as nat) + ","@ + decimal(ip.1 as nat)
                    + ","@ + decimal(ip.2 as nat) + ","@ + decimal(ip.3 as nat) + ","@ + decimal(
                    (port / 256) as nat,
                ) + ","@ + decimal((port % 256) as nat) + ")"@,
            )),
        ),
        session.step(OutcomeView::Bound(None, port)) == (
            SessionView { phase: PhaseView::Idle, ..session },
            ActionView::Failed(ErrorView::Protocol("passive mode needs IPv4"@)),
        ),
{
    lemma_verbs_differ();
}

/// A store opens where a listener waits, whatever the name; else it is
/// refused and fails.
pub proof fn lemma_a_store_opens(session: SessionView, name: Seq<char>)
    ensures
        session.passive ==> session.obey("STOR"@, name) == (
            SessionView { phase: PhaseView::Opening(TransferView::Store(name)), ..session },
            ActionView::Write(reply_bytes(150, "ok to send data"@)),
        ),
        !session.passive ==> session.obey("STOR"@, name) == (
            SessionView {
                phase: PhaseView::Leaving(
                    ActionView::Failed(ErrorView::Protocol("a STOR without PASV"@)),
                ),
                ..session
            },
            ActionView::Write(reply_bytes(425, "use PASV first"@)),
        ),
{
    lemma_verbs_differ();
}

/// A retrieve opens where the file is there and a listener waits, and moves
/// what the file holds; a file that is not there is told of first.
pub proof fn lemma_a_retrieve_opens(session: SessionView, name: Seq<char>)
    ensures
        session.files.contains_key(name) && session.passive ==> session.obey("RETR"@, name) == (
            SessionView {
                phase: PhaseView::Opening(TransferView::Retrieve(name, session.files[name])),
                ..session
            },
            ActionView::Write(reply_bytes(150, "opening data connection"@)),
        ),
        !session.files.contains_key(name) ==> session.obey("RETR"@, name) == (
            SessionView { phase: PhaseView::Answering, ..session },
            ActionView::Write(reply_bytes(550, "no such file"@)),
        ),
        session.files.contains_key(name) && !session.passive ==> session.obey("RETR"@, name) == (
            SessionView { phase: PhaseView::Answering, ..session },
            ActionView::Write(reply_bytes(425, "use PASV first"@)),
        ),
{
    lemma_verbs_differ();
}

/// A listing opens where a listener waits, asked for in either way.
pub proof fn lemma_a_listing_opens(session: SessionView, argument: Seq<char>)
    ensures
        session.obey("LIST"@, argument) == session.obey("NLST"@, argument),
        session.passive ==> session.obey("NLST"@, argument) == (
            SessionView { phase: PhaseView::Opening(TransferView::List), ..session },
            ActionView::Write(reply_bytes(150, "here comes the listing"@)),
        ),
        !session.passive ==> session.obey("NLST"@, argument) == (
            SessionView { phase: PhaseView::Answering, ..session },
            ActionView::Write(reply_bytes(425, "use PASV first"@)),
        ),
{
    lemma_verbs_differ();
}

/// A delete takes the file away and reports it, or tells that it is not
/// there.
pub proof fn lemma_a_delete_takes_the_file(session: SessionView, name: Seq<char>)
    ensures
        session.files.contains_key(name) ==> session.obey("DELE"@, name) == (
            SessionView {
                files: session.files.remove(name),
                phase: PhaseView::Leaving(ActionView::Happened(EventView::Deleted(name))),
                ..session
            },
            ActionView::Write(reply_bytes(250, "deleted"@)),
        ),
        !session.files.contains_key(name) ==> session.obey("DELE"@, name) == (
            SessionView { phase: PhaseView::Answering, ..session },
            ActionView::Write(reply_bytes(550, "no such file"@)),
        ),
{
    lemma_verbs_differ();
}

/// What was answered is answered: another command is read, or what was to be
/// reported is. A session that begins reads a command.
pub proof fn lemma_after_an_answer(session: SessionView, report: ActionView)
    ensures
        session.step(OutcomeView::Begin) == (
            SessionView { phase: PhaseView::Command, ..session },
            ActionView::ReadLine,
        ),
        session.phase is Answering ==> session.step(OutcomeView::Done) == (
            SessionView { phase: PhaseView::Command, ..session },
            ActionView::ReadLine,
        ),
        session.phase == PhaseView::Leaving(report) ==> session.step(OutcomeView::Done) == (
            SessionView { phase: PhaseView::Idle, ..session },
            report,
        ),
{
}

/// An open transfer takes the connection from its listener, which is then
/// used up, and moves the data: what the client sends, what the file holds,
/// or one line for each name in the directory.
pub proof fn lemma_a_transfer_moves_its_data(session: SessionView, transfer: TransferView)
    ensures
        session.phase == PhaseView::Opening(transfer) && session.passive ==> session.step(
            OutcomeView::Done,
        ) == (
            SessionView { passive: false, phase: PhaseView::Accepting(transfer), ..session },
            ActionView::AcceptData,
        ),
        session.phase == PhaseView::Opening(transfer) && !session.passive ==> session.step(
            OutcomeView::Done,
        ) == (
            SessionView { phase: PhaseView::Idle, ..session },
            ActionView::Failed(ErrorView::Protocol("a transfer without PASV first"@)),
        ),
        session.phase == PhaseView::Accepting(transfer) ==> session.step(OutcomeView::Done) == (
            SessionView { phase: PhaseView::Moving(transfer), ..session },
            match transfer {
                TransferView::Store(_) => ActionView::ReceiveData,
                TransferView::Retrieve(_, bytes) => ActionView::SendData(bytes),
                TransferView::List => ActionView::SendNames(listing(names_in(session.files))),
            },
        ),
{
}

/// A listing is its names in their order, each whole and with a line end
/// behind it.
pub proof fn lemma_a_listing_is_its_names(names: Seq<Seq<char>>, name: Seq<char>)
    ensures
        listing(Seq::empty()) == Seq::<u8>::empty(),
        listing(names.push(name)) == listing(names) + encode_utf8(name + "\r\n"@),
{
    assert(names.push(name).drop_last() =~= names);
}

/// A transfer that was moved is answered as complete. A retrieve is reported
/// by its name, a listing is not. What was stored is in the directory, all of
/// it, and reported whole with the client it came from.
pub proof fn lemma_a_transfer_is_reported(
    session: SessionView,
    name: Seq<char>,
    bytes: Seq<u8>,
)
    ensures
        session.phase == PhaseView::Moving(TransferView::Retrieve(name, bytes)) ==> session.step(
            OutcomeView::Done,
        ) == (
            SessionView {
                phase: PhaseView::Leaving(ActionView::Happened(EventView::Retrieved(name))),
                ..session
            },
            ActionView::Write(reply_bytes(226, "transfer complete"@)),
        ),
        session.phase == PhaseView::Moving(TransferView::List) ==> session.step(OutcomeView::Done) == (
            SessionView { phase: PhaseView::Answering, ..session },
            ActionView::Write(reply_bytes(226, "transfer complete"@)),
        ),
        session.phase == PhaseView::Moving(TransferView::Store(name)) ==> session.step(
            OutcomeView::Data(bytes),
        ) == (
            SessionView {
                files: session.files.insert(name, bytes),
                phase: PhaseView::Leaving(
                    ActionView::Happened(
                        EventView::Stored(
                            ArrivedView {
                                origin_uri: "ftp://"@ + session.peer + "/"@ + name,
                                bytes,
                            },
                        ),
                    ),
                ),
                ..session
            },
            ActionView::Write(reply_bytes(226, "transfer complete"@)),
        ),
{
}

/// Waiting for a store, a session does what it would do, but passes over what
/// the client retrieves and deletes and reads its next command instead. It
/// tells that the client left exactly where the client left.
pub proof fn lemma_waiting_for_a_store_passes_over_the_rest(
    session: SessionView,
    outcome: OutcomeView,
)
    ensures
        ({
            let (next, action) = session.step(outcome);
            let step = session.step_to_store(outcome);
            &&& step.1 is Left <==> action is Left
            &&& (action matches ActionView::Happened(event) && !(event is Stored)) ==> step == (
                SessionView { phase: PhaseView::Command, ..next },
                ActionView::ReadLine,
            )
            &&& !(action matches ActionView::Happened(event) && !(event is Stored)) ==> step == (
                next,
                action,
            )
        }),
{
}

/// A session takes what can come of what it asked for, and nothing else; and
/// it can always start over.
pub proof fn lemma_what_a_session_takes(
    session: SessionView,
    raw: Seq<u8>,
    ip: Option<(u8, u8, u8, u8)>,
    port: u16,
)
    ensures
        session.awaits(OutcomeView::Begin),
        session.awaits(OutcomeView::Line(raw)) <==> session.phase is Command,
        session.awaits(OutcomeView::Bound(ip, port)) <==> session.phase is Binding,
        session.awaits(OutcomeView::Data(raw)) <==> match session.phase {
            PhaseView::Moving(TransferView::Store(_)) => true,
            _ => false,
        },
        session.awaits(OutcomeView::Done) <==> match session.phase {
            PhaseView::Answering => true,
            PhaseView::Leaving(_) => true,
            PhaseView::Opening(_) => true,
            PhaseView::Accepting(_) => true,
            PhaseView::Moving(TransferView::Retrieve(..)) => true,
            PhaseView::Moving(TransferView::List) => true,
            _ => false,
        },
        session.is_coherent() <==> match session.phase {
            PhaseView::Opening(_) => session.passive,
            PhaseView::Leaving(ActionView::Happened(_)) => true,
            PhaseView::Leaving(ActionView::Left) => true,
            PhaseView::Leaving(ActionView::Failed(_)) => true,
            PhaseView::Leaving(_) => false,
            _ => true,
        },
{
}

} // verus!
