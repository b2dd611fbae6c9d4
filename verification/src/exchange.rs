//! What a Location does with a server in one go: log in, store and leave, or
//! log in, take what is there and leave.

use vstd::prelude::*;

use crate::arrived::{arrival, Arrived, ArrivedView};
use crate::client::{
    command_bytes, Answer, AnswerView, Client, ClientView, Login, Product, ProductView, Request,
    RequestView, TransferView,
};
use crate::error::{ErrorView, TransportError};

verus! {

/// What an exchange wants done next.
pub enum Turn {
    /// This, and the [`Exchange`] to be told what came of it.
    Do(Request),
    /// Nothing: the file was stored.
    Sent,
    /// Nothing: these files arrived.
    Received(Vec<Arrived>),
    /// Nothing: it failed. These are the files that were retrieved before
    /// that and are no longer at the server, or perhaps are not.
    Failed(TransportError, Vec<Arrived>),
}

/// A [`Turn`] by its characters and bytes.
pub enum TurnView {
    Do(RequestView),
    Sent,
    Received(Seq<ArrivedView>),
    Failed(ErrorView, Seq<ArrivedView>),
}

impl View for Turn {
    type V = TurnView;

    open spec fn view(&self) -> TurnView {
        match self {
            Turn::Do(request) => TurnView::Do(request@),
            Turn::Sent => TurnView::Sent,
            Turn::Received(arrived) => TurnView::Received(arrived.deep_view()),
            Turn::Failed(error, kept) => TurnView::Failed(error@, kept.deep_view()),
        }
    }
}

/// The files of a server, as they are taken one after the other.
struct Haul {
    server: String,
    delete: bool,
    names: Vec<String>,
    arrived: Vec<Arrived>,
}

/// A haul by its characters and bytes.
pub struct HaulView {
    /// The server they come from.
    pub server: Seq<char>,
    /// Whether each is deleted once retrieved.
    pub delete: bool,
    /// All their names.
    pub names: Seq<Seq<char>>,
    /// Those that arrived, in the order of the names.
    pub arrived: Seq<ArrivedView>,
}

impl Haul {
    spec fn shape(self) -> HaulView {
        HaulView {
            server: self.server@,
            delete: self.delete,
            names: self.names.deep_view(),
            arrived: self.arrived.deep_view(),
        }
    }
}

impl HaulView {
    /// The name of the file whose turn it is.
    pub open spec fn current(self) -> Seq<char> {
        self.names[self.arrived.len() as int]
    }

    /// With the file whose turn it was.
    pub open spec fn with(self, bytes: Seq<u8>) -> HaulView {
        HaulView {
            arrived: self.arrived.push(arrival(self.server, self.current(), bytes)),
            ..self
        }
    }

    /// The files that arrived and are no longer at the server.
    pub open spec fn gone(self) -> Seq<ArrivedView> {
        if self.delete {
            self.arrived
        } else {
            Seq::empty()
        }
    }
}

/// How far an exchange is.
enum Plan {
    /// Logging in, to store this.
    ToStore(String, Vec<u8>),
    /// Storing.
    Storing,
    /// Saying goodbye after a store.
    StoreLeaving,
    /// Logging in, to take the files.
    ToTake(Haul),
    /// Listing the files.
    Listing(Haul),
    /// Retrieving the file whose turn it is.
    Retrieving(Haul),
    /// Deleting the file whose turn it is, having these bytes of it.
    Deleting(Haul, Vec<u8>),
    /// Saying goodbye with all the files.
    TakeLeaving(Haul),
    /// Over.
    Over,
}

/// How far an exchange is, by its characters and bytes.
pub enum PlanView {
    ToStore(Seq<char>, Seq<u8>),
    Storing,
    StoreLeaving,
    ToTake(HaulView),
    Listing(HaulView),
    Retrieving(HaulView),
    Deleting(HaulView, Seq<u8>),
    TakeLeaving(HaulView),
    Over,
}

impl Plan {
    spec fn shape(self) -> PlanView {
        match self {
            Plan::ToStore(name, bytes) => PlanView::ToStore(name@, bytes@),
            Plan::Storing => PlanView::Storing,
            Plan::StoreLeaving => PlanView::StoreLeaving,
            Plan::ToTake(haul) => PlanView::ToTake(haul.shape()),
            Plan::Listing(haul) => PlanView::Listing(haul.shape()),
            Plan::Retrieving(haul) => PlanView::Retrieving(haul.shape()),
            Plan::Deleting(haul, bytes) => PlanView::Deleting(haul.shape(), bytes@),
            Plan::TakeLeaving(haul) => PlanView::TakeLeaving(haul.shape()),
            Plan::Over => PlanView::Over,
        }
    }
}

/// One conversation with a server, from the login to the goodbye.
pub struct Exchange {
    client: Client,
    plan: Plan,
}

/// An [`Exchange`] by where it and its client are.
pub struct ExchangeView {
    pub client: ClientView,
    pub plan: PlanView,
}

impl View for Exchange {
    type V = ExchangeView;

    closed spec fn view(&self) -> ExchangeView {
        ExchangeView { client: self.client@, plan: self.plan.shape() }
    }
}

impl PlanView {
    /// Go on with this, the client having begun it.
    pub open spec fn begin(self, begun: (ClientView, RequestView)) -> (ExchangeView, TurnView) {
        (ExchangeView { client: begun.0, plan: self }, TurnView::Do(begun.1))
    }

    /// End with this.
    pub open spec fn end(turn: TurnView) -> (ExchangeView, TurnView) {
        (ExchangeView { client: ClientView::Idle, plan: PlanView::Over }, turn)
    }

    /// Retrieve the next file, or say goodbye where there is none.
    pub open spec fn next(haul: HaulView) -> (ExchangeView, TurnView) {
        if haul.arrived.len() < haul.names.len() {
            PlanView::Retrieving(haul).begin(
                ClientView::begin(TransferView::Retrieve(haul.current())),
            )
        } else {
            PlanView::TakeLeaving(haul).begin(ClientView::Quitting.ask("QUIT"@))
        }
    }

    /// What follows, the client having finished with this.
    pub open spec fn after(self, product: ProductView) -> (ExchangeView, TurnView) {
        match self {
            PlanView::ToStore(name, bytes) => PlanView::Storing.begin(
                ClientView::begin(TransferView::Store(name, bytes)),
            ),
            PlanView::Storing => PlanView::StoreLeaving.begin(ClientView::Quitting.ask("QUIT"@)),
            PlanView::StoreLeaving => PlanView::end(TurnView::Sent),
            PlanView::ToTake(haul) => PlanView::Listing(haul).begin(
                ClientView::begin(TransferView::List),
            ),
            PlanView::Listing(haul) => PlanView::next(HaulView { names: product->Names_0, ..haul }),
            PlanView::Retrieving(haul) => if haul.delete {
                PlanView::Deleting(haul, product->Retrieved_0).begin(
                    ClientView::Deleting.ask("DELE "@ + haul.current()),
                )
            } else {
                PlanView::next(haul.with(product->Retrieved_0))
            },
            PlanView::Deleting(haul, bytes) => PlanView::next(haul.with(bytes)),
            PlanView::TakeLeaving(haul) => PlanView::end(TurnView::Received(haul.arrived)),
            PlanView::Over => PlanView::end(TurnView::Sent),
        }
    }

    /// Whether the client, doing this, is somewhere on the way to what the
    /// plan wants of it.
    pub open spec fn suits(self, client: ClientView) -> bool {
        match self {
            PlanView::Listing(haul) => {
                &&& haul.arrived.len() == 0
                &&& fetches(client, TransferView::List)
                &&& client matches ClientView::Completing(product) ==> product is Names
            },
            PlanView::Retrieving(haul) => {
                &&& haul.arrived.len() < haul.names.len()
                &&& fetches(client, TransferView::Retrieve(haul.current()))
                &&& client matches ClientView::Completing(product) ==> product is Retrieved
            },
            PlanView::ToTake(haul) => haul.arrived.len() == 0,
            PlanView::Deleting(haul, _) => {
                &&& haul.arrived.len() < haul.names.len()
                &&& haul.delete
                &&& client is Deleting
            },
            PlanView::Over => client is Idle,
            _ => true,
        }
    }

    /// The files that are being taken.
    pub open spec fn haul(self) -> Option<HaulView> {
        match self {
            PlanView::ToTake(haul) => Some(haul),
            PlanView::Listing(haul) => Some(haul),
            PlanView::Retrieving(haul) => Some(haul),
            PlanView::Deleting(haul, _) => Some(haul),
            PlanView::TakeLeaving(haul) => Some(haul),
            _ => None,
        }
    }

    /// What is handed over where the exchange fails here: the files that are
    /// no longer at the server. A delete whose answer did not come may have
    /// been carried out, so then the file that it names is among them.
    pub open spec fn kept(self, broken: bool) -> Seq<ArrivedView> {
        match self {
            PlanView::Deleting(haul, bytes) => if broken {
                haul.with(bytes).gone()
            } else {
                haul.gone()
            },
            _ => match self.haul() {
                Some(haul) => haul.gone(),
                None => Seq::empty(),
            },
        }
    }
}

/// Whether a client is at this transfer.
pub open spec fn fetches(client: ClientView, transfer: TransferView) -> bool {
    match client {
        ClientView::Passive(t) => t == transfer,
        ClientView::Dialing(t) => t == transfer,
        ClientView::Opening(t) => t == transfer,
        ClientView::Receiving => transfer is Retrieve,
        ClientView::Listing => transfer is List,
        ClientView::Completing(_) => true,
        _ => false,
    }
}

impl ExchangeView {
    /// What an exchange does next, given what came of what it did.
    pub open spec fn step(self, answer: AnswerView) -> (ExchangeView, TurnView) {
        let (client, request) = self.client.step(answer);
        match request {
            RequestView::Finished(product) => self.plan.after(product),
            RequestView::Failed(error) => PlanView::end(
                TurnView::Failed(error, self.plan.kept(answer is Broken)),
            ),
            _ => self.plan.begin((client, request)),
        }
    }
}

impl HaulView {
    /// Whether what arrived are the first of the files, each under its name.
    pub open spec fn is_in_order(self) -> bool {
        &&& self.arrived.len() <= self.names.len()
        &&& forall|i: int|
            0 <= i < self.arrived.len() ==> #[trigger] self.arrived[i] == arrival(
                self.server,
                self.names[i],
                self.arrived[i].bytes,
            )
    }
}

impl PlanView {
    /// Whether the files that were taken so far are in order, and all are
    /// there when it is time to leave.
    pub open spec fn is_in_order(self) -> bool {
        match self {
            PlanView::ToTake(haul) => haul.is_in_order(),
            PlanView::Listing(haul) => haul.is_in_order(),
            PlanView::Retrieving(haul) => haul.is_in_order(),
            PlanView::Deleting(haul, _) => haul.is_in_order(),
            PlanView::TakeLeaving(haul) => haul.is_in_order() && haul.arrived.len()
                == haul.names.len(),
            _ => true,
        }
    }
}

/// A file is deleted only where that was asked for, and only once it was
/// retrieved and the server said that it was all there.
pub proof fn lemma_deletes_what_was_retrieved(exchange: ExchangeView, answer: AnswerView)
    requires
        exchange.plan.suits(exchange.client),
        exchange.client.awaits(answer),
        exchange.step(answer).0.client is Deleting,
    ensures
        exchange.plan matches PlanView::Retrieving(haul) && haul.delete && (exchange.client
            matches ClientView::Completing(ProductView::Retrieved(bytes)) && exchange.step(answer)
            == (
            ExchangeView { client: ClientView::Deleting, plan: PlanView::Deleting(haul, bytes) },
            TurnView::Do(RequestView::Command(command_bytes("DELE "@ + haul.current()))),
        )),
        answer matches AnswerView::Reply(reply) && reply.is_completion(),
{
}

/// No file is both deleted and lost. Where files are deleted, what arrived is
/// kept from one step to the next, and handed over when the exchange ends,
/// however it ends; a file joins it when its delete is answered or breaks.
pub proof fn lemma_nothing_deleted_is_lost(exchange: ExchangeView, answer: AnswerView)
    requires
        exchange.plan.suits(exchange.client),
        exchange.client.awaits(answer),
        exchange.plan.haul() matches Some(haul) && haul.delete,
    ensures
        ({
            let haul = exchange.plan.haul()->0;
            let (next, turn) = exchange.step(answer);
            match turn {
                TurnView::Do(_) => next.plan.haul() matches Some(more) && more.delete
                    && haul.arrived.is_prefix_of(more.arrived),
                TurnView::Sent => false,
                TurnView::Received(arrived) => arrived == haul.arrived,
                TurnView::Failed(_, kept) => haul.arrived.is_prefix_of(kept) && (kept.len() == 0
                    ==> haul.arrived.len() == 0),
            }
        }),
        exchange.plan matches PlanView::Deleting(haul, bytes) ==> ({
            let one = ArrivedView {
                origin_uri: "ftp://"@ + haul.server + "/"@ + haul.names[haul.arrived.len() as int],
                bytes,
            };
            let (next, turn) = exchange.step(answer);
            &&& (answer matches AnswerView::Reply(reply) && reply.is_completion()) ==> (
            next.plan.haul() matches Some(more) && more.arrived == haul.arrived.push(one))
            &&& answer is Broken ==> turn == TurnView::Failed(
                ErrorView::Broken,
                haul.arrived.push(one),
            )
        }),
{
}

/// Where files are left in place, none is handed over by an exchange that
/// fails: all are still at the server.
pub proof fn lemma_a_failure_hands_over_nothing_that_was_left(
    exchange: ExchangeView,
    answer: AnswerView,
)
    requires
        exchange.plan.suits(exchange.client),
        exchange.plan.haul() matches Some(haul) ==> !haul.delete,
    ensures
        exchange.step(answer).1 matches TurnView::Failed(_, kept) ==> kept.len() == 0,
{
}

/// Whatever the server, the files that are received are those that it
/// listed, all of them, in its order and each under its name.
pub proof fn lemma_received_files_are_those_listed(exchange: ExchangeView, answer: AnswerView)
    requires
        exchange.plan.suits(exchange.client),
        exchange.plan.is_in_order(),
        exchange.client.awaits(answer),
    ensures
        exchange.step(answer).0.plan.is_in_order(),
        exchange.step(answer).0.plan.suits(exchange.step(answer).0.client),
        exchange.step(answer).1 matches TurnView::Received(arrived) ==> (exchange.plan
            matches PlanView::TakeLeaving(haul) && arrived == haul.arrived && arrived.len()
            == haul.names.len() && haul.is_in_order() && forall|i: int|
            0 <= i < arrived.len() ==> (#[trigger] arrived[i]).origin_uri == "ftp://"@ + haul.server
                + "/"@ + haul.names[i]),
{
}

impl Exchange {
    #[verifier::type_invariant]
    spec fn on_the_way(self) -> bool {
        self.plan.shape().suits(self.client@)
    }

    /// Log in, store `bytes` as `name`, and leave.
    pub fn store(login: &Login, name: &str, bytes: Vec<u8>) -> (begun: (Self, Request))
        ensures
            (begun.0@, TurnView::Do(begun.1@)) == PlanView::ToStore(name@, bytes@).begin(
                (ClientView::Greeting(login@), RequestView::ReadReply),
            ),
    {
        let (client, request) = Client::connect(login);
        (Exchange { client, plan: Plan::ToStore(name.to_owned(), bytes) }, request)
    }

    /// Log in, retrieve every file, each deleted once retrieved if `delete`,
    /// and leave.
    pub fn take(login: &Login, server: &str, delete: bool) -> (begun: (Self, Request))
        ensures
            (begun.0@, TurnView::Do(begun.1@)) == PlanView::ToTake(
                HaulView {
                    server: server@,
                    delete,
                    names: Seq::empty(),
                    arrived: Seq::empty(),
                },
            ).begin((ClientView::Greeting(login@), RequestView::ReadReply)),
            begun.0@.plan.suits(begun.0@.client),
            begun.0@.plan.is_in_order(),
    {
        let (client, request) = Client::connect(login);
        let haul: Haul = Haul {
            server: server.to_owned(),
            delete,
            names: Vec::new(),
            arrived: Vec::new(),
        };
        proof {
            assert(haul.names.deep_view() =~= Seq::<Seq<char>>::empty());
            assert(haul.arrived.deep_view() =~= Seq::<ArrivedView>::empty());
        }
        (Exchange { client, plan: Plan::ToTake(haul) }, request)
    }

    /// Whether this can come of what was asked for last, as
    /// [`Client::accepts`] tells.
    pub fn accepts(&self, answer: &Answer) -> (yes: bool)
        ensures
            yes == self@.client.awaits(answer@),
    {
        self.client.accepts(answer)
    }

    /// What to do next, given what came of what was done last. Where that
    /// ends the exchange, the files that are no longer at the server are
    /// handed over, also where it failed.
    pub fn advance(&mut self, answer: Answer) -> (turn: Turn)
        requires
            old(self)@.client.awaits(answer@),
        ensures
            (final(self)@, turn@) == old(self)@.step(answer@),
            final(self)@.plan.suits(final(self)@.client),
            turn matches Turn::Do(request) ==> !(request is Finished || request is Failed),
    {
        proof {
            use_type_invariant(&*self);
        }
        let mut whole: Exchange = Exchange { client: Client::idle(), plan: Plan::Over };
        std::mem::swap(&mut whole, self);
        let Exchange { client, plan } = whole;
        let mut client: Client = client;
        let broken: bool = matches!(answer, Answer::Broken);
        let (next, turn) = match client.advance(answer) {
            Request::Finished(product) => after(client, plan, product),
            Request::Failed(error) => (
                Exchange { client: Client::idle(), plan: Plan::Over },
                Turn::Failed(error, kept(plan, broken)),
            ),
            request => (Exchange { client, plan }, Turn::Do(request)),
        };
        *self = next;
        turn
    }
}

fn after(client: Client, plan: Plan, product: Product) -> (followed: (Exchange, Turn))
    requires
        plan.shape() matches PlanView::Listing(haul) ==> product is Names && haul.arrived.len()
            == 0,
        plan.shape() matches PlanView::Retrieving(haul) ==> product is Retrieved
            && haul.arrived.len() < haul.names.len(),
        plan.shape() matches PlanView::Deleting(haul, _) ==> haul.arrived.len()
            < haul.names.len(),
        plan.shape() matches PlanView::ToTake(haul) ==> haul.arrived.len() == 0,
    ensures
        (followed.0@, followed.1@) == plan.shape().after(product@),
        followed.1 matches Turn::Do(request) ==> !(request is Finished || request is Failed),
{
    let mut client: Client = client;
    match (plan, product) {
        (Plan::ToStore(name, bytes), _) => {
            let request: Request = client.store(name.as_str(), bytes.as_slice());
            (Exchange { client, plan: Plan::Storing }, Turn::Do(request))
        },
        (Plan::Storing, _) => {
            let request: Request = client.quit();
            (Exchange { client, plan: Plan::StoreLeaving }, Turn::Do(request))
        },
        (Plan::ToTake(haul), _) => {
            let request: Request = client.names();
            (Exchange { client, plan: Plan::Listing(haul) }, Turn::Do(request))
        },
        (Plan::Listing(haul), Product::Names(names)) => {
            let mut haul: Haul = haul;
            haul.names = names;
            next(client, haul)
        },
        (Plan::Retrieving(haul), Product::Retrieved(bytes)) => {
            if haul.delete {
                let request: Request = client.delete(haul.names[haul.arrived.len()].as_str());
                (Exchange { client, plan: Plan::Deleting(haul, bytes) }, Turn::Do(request))
            } else {
                next(client, take_in(haul, bytes))
            }
        },
        (Plan::Deleting(haul, bytes), _) => next(client, take_in(haul, bytes)),
        (Plan::TakeLeaving(haul), _) => (
            Exchange { client: Client::idle(), plan: Plan::Over },
            Turn::Received(haul.arrived),
        ),
        (_, _) => (Exchange { client: Client::idle(), plan: Plan::Over }, Turn::Sent),
    }
}

fn kept(plan: Plan, broken: bool) -> (files: Vec<Arrived>)
    requires
        plan.shape() matches PlanView::Deleting(haul, _) ==> haul.arrived.len()
            < haul.names.len(),
    ensures
        files.deep_view() == plan.shape().kept(broken),
{
    let haul: Option<Haul> = match plan {
        Plan::ToTake(haul) => Some(haul),
        Plan::Listing(haul) => Some(haul),
        Plan::Retrieving(haul) => Some(haul),
        Plan::Deleting(haul, bytes) => Some(
            if broken {
                take_in(haul, bytes)
            } else {
                haul
            },
        ),
        Plan::TakeLeaving(haul) => Some(haul),
        _ => None,
    };
    match haul {
        Some(haul) if haul.delete => haul.arrived,
        _ => {
            let none: Vec<Arrived> = Vec::new();
            proof {
                assert(none.deep_view() =~= Seq::<ArrivedView>::empty());
            }
            none
        },
    }
}

fn take_in(haul: Haul, bytes: Vec<u8>) -> (with: Haul)
    requires
        haul.shape().arrived.len() < haul.shape().names.len(),
    ensures
        with.shape() == haul.shape().with(bytes@),
{
    let mut with: Haul = haul;
    let at: usize = with.arrived.len();
    let one: Arrived = Arrived::from_server(with.server.as_str(), with.names[at].as_str(), bytes);
    with.arrived.push(one);
    proof {
        assert(with.arrived.deep_view() =~= haul.arrived.deep_view().push(one@));
    }
    with
}

fn next(client: Client, haul: Haul) -> (followed: (Exchange, Turn))
    ensures
        (followed.0@, followed.1@) == PlanView::next(haul.shape()),
        followed.1 matches Turn::Do(request) ==> !(request is Finished || request is Failed),
{
    let mut client: Client = client;
    if haul.arrived.len() < haul.names.len() {
        let request: Request = client.retrieve(haul.names[haul.arrived.len()].as_str());
        (Exchange { client, plan: Plan::Retrieving(haul) }, Turn::Do(request))
    } else {
        let request: Request = client.quit();
        (Exchange { client, plan: Plan::TakeLeaving(haul) }, Turn::Do(request))
    }
}

} // verus!
