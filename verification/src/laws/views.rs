//! What the values that go in and out are taken to be: their own characters
//! and bytes, all of them.

use vstd::prelude::*;

use crate::arrived::{arrival, Arrived};
use crate::client::{Answer, AnswerView, Login, Product, ProductView, Request, RequestView};
use crate::error::{ErrorView, TransportError};
use crate::exchange::{Turn, TurnView};
use crate::reply::Reply;
use crate::session::{Action, ActionView, Event, EventView, Outcome, OutcomeView};

verus! {

/// A file arrives whole, and where it came from says the server and the name.
pub proof fn lemma_a_file_arrives_whole(server: Seq<char>, name: Seq<char>, bytes: Seq<u8>)
    ensures
        arrival(server, name, bytes).bytes == bytes,
        arrival(server, name, bytes).origin_uri == "ftp://"@ + server + "/"@ + name,
{
}

/// Files, replies and logins are taken as they are.
pub proof fn lemma_plain_values(arrived: Arrived, reply: Reply, login: Login)
    ensures
        arrived@.bytes == arrived.bytes@,
        arrived@.origin_uri == arrived.origin_uri@,
        arrived.deep_view() == arrived@,
        reply@.code == reply.code,
        reply@.text == reply.text@,
        login@.user == login.user@,
        login@.password == login.password@,
{
}

/// Errors are taken as what they say.
pub proof fn lemma_errors(error: TransportError)
    ensures
        match error {
            TransportError::Protocol(message) => error@ == ErrorView::Protocol(message@),
            TransportError::Garbled(doing) => error@ == ErrorView::Garbled(doing@),
            TransportError::Retryable(message) => error@ == ErrorView::Retryable(message@),
            TransportError::Permanent(message) => error@ == ErrorView::Permanent(message@),
            TransportError::Broken => error@ == ErrorView::Broken,
        },
{
}

/// What a client asks for is taken as it is.
pub proof fn lemma_requests(request: Request, answer: Answer, product: Product)
    ensures
        match request {
            Request::ReadReply => request@ == RequestView::ReadReply,
            Request::Command(bytes) => request@ == RequestView::Command(bytes@),
            Request::Dial(address) => request@ == RequestView::Dial(address@),
            Request::SendData(bytes) => request@ == RequestView::SendData(bytes@),
            Request::ReceiveData => request@ == RequestView::ReceiveData,
            Request::ReceiveNames => request@ == RequestView::ReceiveNames,
            Request::Finished(product) => request@ == RequestView::Finished(product@),
            Request::Failed(error) => request@ == RequestView::Failed(error@),
        },
        match answer {
            Answer::Reply(reply) => answer@ == AnswerView::Reply(reply@),
            Answer::Done => answer@ == AnswerView::Done,
            Answer::Data(bytes) => answer@ == AnswerView::Data(bytes@),
            Answer::Names(bytes) => answer@ == AnswerView::Names(bytes@),
            Answer::Broken => answer@ == AnswerView::Broken,
        },
        match product {
            Product::Connected => product@ == ProductView::Connected,
            Product::Answered(reply) => product@ == ProductView::Answered(reply@),
            Product::Stored => product@ == ProductView::Stored,
            Product::Retrieved(bytes) => product@ == ProductView::Retrieved(bytes@),
            Product::Names(names) => product@ matches ProductView::Names(texts) && texts.len()
                == names@.len() && forall|i: int|
                0 <= i < names@.len() ==> #[trigger] texts[i] == names@[i]@,
            Product::Deleted => product@ == ProductView::Deleted,
            Product::Left => product@ == ProductView::Left,
        },
{
}

/// What an exchange comes to is taken as it is.
pub proof fn lemma_turns(turn: Turn)
    ensures
        match turn {
            Turn::Do(request) => turn@ == TurnView::Do(request@),
            Turn::Sent => turn@ == TurnView::Sent,
            Turn::Received(arrived) => turn@ matches TurnView::Received(files) && files.len()
                == arrived@.len() && forall|i: int|
                0 <= i < files.len() ==> (#[trigger] files[i]).bytes == arrived@[i].bytes@
                    && files[i].origin_uri == arrived@[i].origin_uri@,
            Turn::Failed(error, kept) => turn@ matches TurnView::Failed(why, files) && why
                == error@ && files.len() == kept@.len() && forall|i: int|
                0 <= i < files.len() ==> (#[trigger] files[i]).bytes == kept@[i].bytes@
                    && files[i].origin_uri == kept@[i].origin_uri@,
        },
{
}

/// What a session asks for and reports is taken as it is.
pub proof fn lemma_actions(action: Action, outcome: Outcome, event: Event)
    ensures
        match action {
            Action::ReadLine => action@ == ActionView::ReadLine,
            Action::Write(bytes) => action@ == ActionView::Write(bytes@),
            Action::Bind(address) => action@ == ActionView::Bind(address@),
            Action::AcceptData => action@ == ActionView::AcceptData,
            Action::ReceiveData => action@ == ActionView::ReceiveData,
            Action::SendData(bytes) => action@ == ActionView::SendData(bytes@),
            Action::SendNames(bytes) => action@ == ActionView::SendNames(bytes@),
            Action::Happened(event) => action@ == ActionView::Happened(event@),
            Action::Left => action@ == ActionView::Left,
            Action::Failed(error) => action@ == ActionView::Failed(error@),
        },
        match outcome {
            Outcome::Begin => outcome@ == OutcomeView::Begin,
            Outcome::Line(raw) => outcome@ == OutcomeView::Line(raw@),
            Outcome::Done => outcome@ == OutcomeView::Done,
            Outcome::Bound(ip, port) => outcome@ == OutcomeView::Bound(ip, port),
            Outcome::Data(bytes) => outcome@ == OutcomeView::Data(bytes@),
        },
        match event {
            Event::Stored(arrived) => event@ == EventView::Stored(arrived@),
            Event::Retrieved(name) => event@ == EventView::Retrieved(name@),
            Event::Deleted(name) => event@ == EventView::Deleted(name@),
        },
{
}

} // verus!
