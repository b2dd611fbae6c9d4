//! What holds of a client's conversations: what it writes, on which replies
//! it goes on, and on which it fails.

use vstd::prelude::*;
use vstd::utf8::{decode_utf8, encode_utf8, valid_utf8};

use crate::client::{
    command_bytes, listed, refusal, AnswerView, ClientView, LoginView, ProductView, RequestView,
    TransferView,
};
use crate::error::ErrorView;
use crate::laws::text::{lemma_first_line_is_read, lemma_one_line_end_is_taken};
use crate::reply::{in_parentheses, numbers, ReplyView};
use crate::text::decimal;

verus! {

/// A command is written whole, with a line end behind it.
pub proof fn lemma_a_command_is_written_whole(command: Seq<char>)
    ensures
        command_bytes(command) == encode_utf8(command + "\r\n"@),
{
}

/// A refusal says what was refused and with which code and text, and may be
/// tried again exactly where the code is from 400 to 499.
pub proof fn lemma_a_refusal_says_why(what: Seq<char>, reply: ReplyView)
    ensures
        ({
            let message = "the server answered "@ + what + " with "@ + decimal(reply.code as nat)
                + " "@ + reply.text;
            refusal(what, reply) == if 400 <= reply.code < 500 {
                ErrorView::Retryable(message)
            } else {
                ErrorView::Permanent(message)
            }
        }),
{
}

/// A greeting from 200 to 299 lets the client say who it is, and no other.
pub proof fn lemma_a_greeting_is_answered_with_the_user(login: LoginView, reply: ReplyView)
    ensures
        ({
            let step = ClientView::Greeting(login).step(AnswerView::Reply(reply));
            &&& 200 <= reply.code < 300 ==> step == (
                ClientView::User(login.password),
                RequestView::Command(encode_utf8("USER "@ + login.user + "\r\n"@)),
            )
            &&& !(200 <= reply.code < 300) ==> step == (
                ClientView::Idle,
                RequestView::Failed(refusal("the greeting"@, reply)),
            )
        }),
{
}

/// A user is let in from 200 to 299, asked for the password from 300 to 399,
/// and else refused.
pub proof fn lemma_a_user_may_need_a_password(password: Seq<char>, reply: ReplyView)
    ensures
        ({
            let step = ClientView::User(password).step(AnswerView::Reply(reply));
            &&& 200 <= reply.code < 300 ==> step == (
                ClientView::Binary,
                RequestView::Command(encode_utf8("TYPE I"@ + "\r\n"@)),
            )
            &&& 300 <= reply.code < 400 ==> step == (
                ClientView::Pass,
                RequestView::Command(encode_utf8("PASS "@ + password + "\r\n"@)),
            )
            &&& !(200 <= reply.code < 400) ==> step == (
                ClientView::Idle,
                RequestView::Failed(refusal("the user"@, reply)),
            )
        }),
{
}

/// A password lets the client in from 200 to 299, and the binary type then
/// finishes the login from 200 to 299; else they are refused.
pub proof fn lemma_a_login_ends_in_binary(reply: ReplyView)
    ensures
        ({
            let step = ClientView::Pass.step(AnswerView::Reply(reply));
            &&& 200 <= reply.code < 300 ==> step == (
                ClientView::Binary,
                RequestView::Command(encode_utf8("TYPE I"@ + "\r\n"@)),
            )
            &&& !(200 <= reply.code < 300) ==> step == (
                ClientView::Idle,
                RequestView::Failed(refusal("the login"@, reply)),
            )
        }),
        ({
            let step = ClientView::Binary.step(AnswerView::Reply(reply));
            &&& 200 <= reply.code < 300 ==> step == (
                ClientView::Idle,
                RequestView::Finished(ProductView::Connected),
            )
            &&& !(200 <= reply.code < 300) ==> step == (
                ClientView::Idle,
                RequestView::Failed(refusal("binary mode"@, reply)),
            )
        }),
{
}

/// A command is answered with whatever reply comes, and a goodbye is over
/// with any.
pub proof fn lemma_any_reply_answers(command: Seq<char>, reply: ReplyView)
    ensures
        ClientView::Asking.ask(command) == (
            ClientView::Asking,
            RequestView::Command(encode_utf8(command + "\r\n"@)),
        ),
        ClientView::Asking.step(AnswerView::Reply(reply)) == (
            ClientView::Idle,
            RequestView::Finished(ProductView::Answered(reply)),
        ),
        ClientView::Quitting.ask("QUIT"@) == (
            ClientView::Quitting,
            RequestView::Command(encode_utf8("QUIT"@ + "\r\n"@)),
        ),
        ClientView::Quitting.step(AnswerView::Reply(reply)) == (
            ClientView::Idle,
            RequestView::Finished(ProductView::Left),
        ),
{
}

/// A delete names the file, and is done exactly from 200 to 299.
pub proof fn lemma_a_delete_needs_a_completion(name: Seq<char>, reply: ReplyView)
    ensures
        ClientView::Deleting.ask("DELE "@ + name) == (
            ClientView::Deleting,
            RequestView::Command(encode_utf8("DELE "@ + name + "\r\n"@)),
        ),
        ({
            let step = ClientView::Deleting.step(AnswerView::Reply(reply));
            &&& 200 <= reply.code < 300 ==> step == (
                ClientView::Idle,
                RequestView::Finished(ProductView::Deleted),
            )
            &&& !(200 <= reply.code < 300) ==> step == (
                ClientView::Idle,
                RequestView::Failed(refusal("the delete"@, reply)),
            )
        }),
{
}

/// A transfer begins with `PASV`. The client dials the address of a 227 that
/// has one, the four numbers of the host and the port of the last two, and
/// fails on a 227 that has none and on every other code.
pub proof fn lemma_a_transfer_dials_what_it_was_told(transfer: TransferView, reply: ReplyView)
    ensures
        ClientView::begin(transfer) == (
            ClientView::Passive(transfer),
            RequestView::Command(encode_utf8("PASV"@ + "\r\n"@)),
        ),
        ({
            let step = ClientView::Passive(transfer).step(AnswerView::Reply(reply));
            let parts = numbers(in_parentheses(reply.text));
            &&& reply.code == 227 && parts.len() >= 6 ==> step == (
                ClientView::Dialing(transfer),
                RequestView::Dial(
                    decimal(parts[0] as nat) + "."@ + decimal(parts[1] as nat) + "."@ + decimal(
                        parts[2] as nat,
                    ) + "."@ + decimal(parts[3] as nat) + ":"@ + decimal(
                        (parts[4] * 256 + parts[5]) as nat,
                    ),
                ),
            )
            &&& reply.code == 227 && parts.len() < 6 ==> step == (
                ClientView::Idle,
                RequestView::Failed(
                    ErrorView::Protocol("a 227 without a passive address in it"@),
                ),
            )
            &&& reply.code != 227 ==> step == (
                ClientView::Idle,
                RequestView::Failed(refusal("passive mode"@, reply)),
            )
        }),
{
}

/// Over the data connection each transfer has its command, with the whole
/// name.
pub proof fn lemma_a_transfer_is_named(transfer: TransferView)
    ensures
        ClientView::Dialing(transfer).step(AnswerView::Done) == (
            ClientView::Opening(transfer),
            RequestView::Command(
                match transfer {
                    TransferView::Store(name, _) => encode_utf8("STOR "@ + name + "\r\n"@),
                    TransferView::Retrieve(name) => encode_utf8("RETR "@ + name + "\r\n"@),
                    TransferView::List => encode_utf8("NLST"@ + "\r\n"@),
                },
            ),
        ),
{
}

/// Every reply from 100 to 199 opens a transfer, and the data is moved: all
/// of it where it is sent. Every other reply refuses the transfer.
pub proof fn lemma_a_preliminary_reply_opens_a_transfer(transfer: TransferView, reply: ReplyView)
    ensures
        ({
            let step = ClientView::Opening(transfer).step(AnswerView::Reply(reply));
            &&& 100 <= reply.code < 200 ==> step == match transfer {
                TransferView::Store(_, bytes) => (
                    ClientView::Sending,
                    RequestView::SendData(bytes),
                ),
                TransferView::Retrieve(_) => (ClientView::Receiving, RequestView::ReceiveData),
                TransferView::List => (ClientView::Listing, RequestView::ReceiveNames),
            }
            &&& !(100 <= reply.code < 200) ==> step == (
                ClientView::Idle,
                RequestView::Failed(
                    match transfer {
                        TransferView::Store(..) => refusal("the store"@, reply),
                        TransferView::Retrieve(_) => refusal("the retrieve"@, reply),
                        TransferView::List => refusal("the listing"@, reply),
                    },
                ),
            )
        }),
{
}

/// What was moved is what the transfer comes to, all of it, once the server
/// has said so.
pub proof fn lemma_what_was_moved_is_the_product(bytes: Seq<u8>)
    ensures
        ClientView::Sending.step(AnswerView::Done) == (
            ClientView::Completing(ProductView::Stored),
            RequestView::ReadReply,
        ),
        ClientView::Receiving.step(AnswerView::Data(bytes)) == (
            ClientView::Completing(ProductView::Retrieved(bytes)),
            RequestView::ReadReply,
        ),
        ClientView::Listing.step(AnswerView::Names(bytes)) == (
            ClientView::Completing(ProductView::Names(listed(bytes))),
            RequestView::ReadReply,
        ),
{
}

/// A transfer finishes exactly on a reply from 200 to 299, with what was
/// moved, and fails on every other.
pub proof fn lemma_a_transfer_needs_a_completion(
    bytes: Seq<u8>,
    names: Seq<Seq<char>>,
    reply: ReplyView,
)
    ensures
        ({
            let step = ClientView::Completing(ProductView::Stored).step(AnswerView::Reply(reply));
            &&& 200 <= reply.code < 300 ==> step == (
                ClientView::Idle,
                RequestView::Finished(ProductView::Stored),
            )
            &&& !(200 <= reply.code < 300) ==> step == (
                ClientView::Idle,
                RequestView::Failed(refusal("the store"@, reply)),
            )
        }),
        ({
            let step = ClientView::Completing(ProductView::Retrieved(bytes)).step(
                AnswerView::Reply(reply),
            );
            &&& 200 <= reply.code < 300 ==> step == (
                ClientView::Idle,
                RequestView::Finished(ProductView::Retrieved(bytes)),
            )
            &&& !(200 <= reply.code < 300) ==> step == (
                ClientView::Idle,
                RequestView::Failed(refusal("the retrieve"@, reply)),
            )
        }),
        ({
            let step = ClientView::Completing(ProductView::Names(names)).step(
                AnswerView::Reply(reply),
            );
            &&& 200 <= reply.code < 300 ==> step == (
                ClientView::Idle,
                RequestView::Finished(ProductView::Names(names)),
            )
            &&& !(200 <= reply.code < 300) ==> step == (
                ClientView::Idle,
                RequestView::Failed(refusal("the listing"@, reply)),
            )
        }),
{
}

/// A client that asked for something takes what can come of it, and nothing
/// else: a reply where it waits for one, but no 227 whose last two numbers
/// make no port where it asked for one; that it was done, or the data; and
/// that a connection broke.
pub proof fn lemma_what_a_client_takes(
    client: ClientView,
    reply: ReplyView,
    bytes: Seq<u8>,
)
    ensures
        client.awaits(AnswerView::Reply(reply)) <==> match client {
            ClientView::Idle => false,
            ClientView::Dialing(_) => false,
            ClientView::Sending => false,
            ClientView::Receiving => false,
            ClientView::Listing => false,
            ClientView::Passive(_) => {
                let parts = numbers(in_parentheses(reply.text));
                reply.code != 227 || parts.len() < 6 || parts[4] * 256 + parts[5] <= 65535
            },
            _ => true,
        },
        client.awaits(AnswerView::Done) <==> client is Dialing || client is Sending,
        client.awaits(AnswerView::Data(bytes)) <==> client is Receiving,
        client.awaits(AnswerView::Names(bytes)) <==> client is Listing,
        client.awaits(AnswerView::Broken) <==> !(client is Idle),
        client.step(AnswerView::Broken) == (
            ClientView::Idle,
            RequestView::Failed(ErrorView::Broken),
        ),
{
}

/// The names of a listing are its lines, each without its line end, in their
/// order and but for empty ones, up to a line that is not text.
pub proof fn lemma_a_line_is_a_name(raw: Seq<u8>, rest: Seq<u8>, name: Seq<char>)
    requires
        raw.len() > 0,
        forall|i: int| 0 <= i < raw.len() - 1 ==> #[trigger] raw[i] != 10,
        raw.last() == 10 || rest.len() == 0,
        valid_utf8(raw) ==> {
            ||| decode_utf8(raw) == name.push('\r').push('\n')
            ||| decode_utf8(raw) == name.push('\n') && (name.len() == 0 || name.last() != '\r')
            ||| decode_utf8(raw) == name && (name.len() == 0 || name.last() != '\n')
        },
    ensures
        listed(Seq::empty()) == Seq::<Seq<char>>::empty(),
        !valid_utf8(raw) ==> listed(raw + rest) == Seq::<Seq<char>>::empty(),
        valid_utf8(raw) && name.len() > 0 ==> listed(raw + rest) == seq![name] + listed(rest),
        valid_utf8(raw) && name.len() == 0 ==> listed(raw + rest) == listed(rest),
{
    lemma_first_line_is_read(raw, rest);
    lemma_one_line_end_is_taken(name);
}

} // verus!
