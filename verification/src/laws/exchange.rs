//! What holds of an exchange: in which order a client is sent to work, and
//! what is handed over.

use vstd::prelude::*;
use vstd::utf8::encode_utf8;

use crate::arrived::ArrivedView;
use crate::client::{AnswerView, ClientView, ProductView, RequestView, TransferView};
use crate::exchange::{ExchangeView, HaulView, PlanView, TurnView};

verus! {

/// An exchange goes on as its client does, until the client has finished.
/// Where the client fails, the exchange is over, with the client's error and
/// what is kept.
pub proof fn lemma_an_exchange_follows_its_client(exchange: ExchangeView, answer: AnswerView)
    ensures
        match exchange.client.step(answer) {
            (_, RequestView::Finished(product)) => exchange.step(answer) == exchange.plan.after(
                product,
            ),
            (_, RequestView::Failed(error)) => exchange.step(answer) == (
                ExchangeView { client: ClientView::Idle, plan: PlanView::Over },
                TurnView::Failed(error, exchange.plan.kept(answer == AnswerView::Broken)),
            ),
            (client, request) => exchange.step(answer) == (
                ExchangeView { client, plan: exchange.plan },
                TurnView::Do(request),
            ),
        },
{
}

/// What an exchange is when it begins.
pub proof fn lemma_an_exchange_begins(plan: PlanView, client: ClientView, request: RequestView)
    ensures
        plan.begin((client, request)) == (ExchangeView { client, plan }, TurnView::Do(request)),
{
}

/// Sending is logging in, storing all the bytes under the name, and leaving;
/// the file is sent once the goodbye was answered.
pub proof fn lemma_sending_stores_and_leaves(
    name: Seq<char>,
    bytes: Seq<u8>,
    product: ProductView,
)
    ensures
        PlanView::ToStore(name, bytes).after(product) == (
            ExchangeView {
                client: ClientView::Passive(TransferView::Store(name, bytes)),
                plan: PlanView::Storing,
            },
            TurnView::Do(RequestView::Command(encode_utf8("PASV"@ + "\r\n"@))),
        ),
        PlanView::Storing.after(product) == (
            ExchangeView { client: ClientView::Quitting, plan: PlanView::StoreLeaving },
            TurnView::Do(RequestView::Command(encode_utf8("QUIT"@ + "\r\n"@))),
        ),
        PlanView::StoreLeaving.after(product) == (
            ExchangeView { client: ClientView::Idle, plan: PlanView::Over },
            TurnView::Sent,
        ),
{
}

/// The next file is the first of those listed that did not arrive: it is
/// retrieved, under its name. Where all arrived, the client leaves.
pub proof fn lemma_the_next_file_is_the_first_missing(haul: HaulView)
    ensures
        haul.arrived.len() < haul.names.len() ==> PlanView::next(haul) == (
            ExchangeView {
                client: ClientView::Passive(
                    TransferView::Retrieve(haul.names[haul.arrived.len() as int]),
                ),
                plan: PlanView::Retrieving(haul),
            },
            TurnView::Do(RequestView::Command(encode_utf8("PASV"@ + "\r\n"@))),
        ),
        haul.arrived.len() >= haul.names.len() ==> PlanView::next(haul) == (
            ExchangeView { client: ClientView::Quitting, plan: PlanView::TakeLeaving(haul) },
            TurnView::Do(RequestView::Command(encode_utf8("QUIT"@ + "\r\n"@))),
        ),
{
}

/// A file joins those that arrived behind them, with all its bytes and under
/// its name, and nothing else changes.
pub proof fn lemma_a_file_joins_whole(haul: HaulView, bytes: Seq<u8>)
    ensures
        haul.with(bytes) == (HaulView {
            arrived: haul.arrived.push(
                ArrivedView {
                    origin_uri: "ftp://"@ + haul.server + "/"@
                        + haul.names[haul.arrived.len() as int],
                    bytes,
                },
            ),
            ..haul
        }),
{
}

/// Receiving is logging in, listing, and taking one file after the other, in
/// the order of the listing. Each is retrieved, deleted where that was asked
/// for, and taken with all its bytes; when all were, the client leaves, and
/// all are handed over once its goodbye was answered.
pub proof fn lemma_receiving_takes_file_by_file(
    haul: HaulView,
    names: Seq<Seq<char>>,
    bytes: Seq<u8>,
    product: ProductView,
)
    ensures
        PlanView::ToTake(haul).after(product) == (
            ExchangeView {
                client: ClientView::Passive(TransferView::List),
                plan: PlanView::Listing(haul),
            },
            TurnView::Do(RequestView::Command(encode_utf8("PASV"@ + "\r\n"@))),
        ),
        PlanView::Listing(haul).after(ProductView::Names(names)) == PlanView::next(
            HaulView { names, ..haul },
        ),
        haul.delete ==> PlanView::Retrieving(haul).after(ProductView::Retrieved(bytes)) == (
            ExchangeView { client: ClientView::Deleting, plan: PlanView::Deleting(haul, bytes) },
            TurnView::Do(
                RequestView::Command(
                    encode_utf8("DELE "@ + haul.names[haul.arrived.len() as int] + "\r\n"@),
                ),
            ),
        ),
        !haul.delete ==> PlanView::Retrieving(haul).after(ProductView::Retrieved(bytes))
            == PlanView::next(haul.with(bytes)),
        PlanView::Deleting(haul, bytes).after(product) == PlanView::next(haul.with(bytes)),
        PlanView::TakeLeaving(haul).after(product) == (
            ExchangeView { client: ClientView::Idle, plan: PlanView::Over },
            TurnView::Received(haul.arrived),
        ),
{
}

/// What is kept of an exchange that fails: where files are deleted, all that
/// arrived, and the file whose delete was not answered as well; else nothing.
pub proof fn lemma_what_a_failure_keeps(
    haul: HaulView,
    name: Seq<char>,
    bytes: Seq<u8>,
    broken: bool,
)
    ensures
        haul.delete ==> {
            &&& PlanView::ToTake(haul).kept(broken) == haul.arrived
            &&& PlanView::Listing(haul).kept(broken) == haul.arrived
            &&& PlanView::Retrieving(haul).kept(broken) == haul.arrived
            &&& PlanView::TakeLeaving(haul).kept(broken) == haul.arrived
            &&& PlanView::Deleting(haul, bytes).kept(false) == haul.arrived
            &&& PlanView::Deleting(haul, bytes).kept(true) == haul.with(bytes).arrived
        },
        !haul.delete ==> {
            &&& PlanView::ToTake(haul).kept(broken).len() == 0
            &&& PlanView::Listing(haul).kept(broken).len() == 0
            &&& PlanView::Retrieving(haul).kept(broken).len() == 0
            &&& PlanView::TakeLeaving(haul).kept(broken).len() == 0
            &&& PlanView::Deleting(haul, bytes).kept(broken).len() == 0
        },
        PlanView::ToStore(name, bytes).kept(broken).len() == 0,
        PlanView::Storing.kept(broken).len() == 0,
        PlanView::StoreLeaving.kept(broken).len() == 0,
{
}

} // verus!
