//! The client's side: a control connection, and a passive data connection
//! per transfer.
//!
//! A [`Client`] holds no socket. Each of its methods begins a conversation
//! and says what to do first, a [`Request`]; [`Client::advance`] is told what
//! came of it, an [`Answer`], and says what to do next, until the
//! conversation is finished or has failed.

use vstd::prelude::*;
use vstd::slice::{slice_subrange, slice_to_vec};
use vstd::utf8::{decode_utf8, encode_utf8, valid_utf8};

use crate::error::{ErrorView, TransportError};
use crate::reply::{passive_address, port_fits, Reply, ReplyView};
use crate::text::{
    bytes_of, chomp, chomped, decimal, first_line, lemma_line_len, line_len, text_of, to_decimal,
};

verus! {

/// What a Location presents when it logs in.
#[derive(Clone, Debug)]
pub struct Login {
    pub user: String,
    pub password: String,
}

/// A [`Login`] by its characters.
pub struct LoginView {
    pub user: Seq<char>,
    pub password: Seq<char>,
}

impl View for Login {
    type V = LoginView;

    open spec fn view(&self) -> LoginView {
        LoginView { user: self.user@, password: self.password@ }
    }
}

impl Default for Login {
    fn default() -> (login: Self)
        ensures
            login@ == (LoginView { user: "anonymous"@, password: "xmip@"@ }),
    {
        Login { user: "anonymous".to_owned(), password: "xmip@".to_owned() }
    }
}

/// What a conversation came to.
pub enum Product {
    /// Logged in, in binary.
    Connected,
    /// A command was answered with this.
    Answered(Reply),
    /// A file was stored.
    Stored,
    /// A file was retrieved; here are its bytes.
    Retrieved(Vec<u8>),
    /// These are the names in the directory.
    Names(Vec<String>),
    /// A file was deleted.
    Deleted,
    /// The server heard the goodbye.
    Left,
}

/// A [`Product`] by its characters and bytes.
pub enum ProductView {
    Connected,
    Answered(ReplyView),
    Stored,
    Retrieved(Seq<u8>),
    Names(Seq<Seq<char>>),
    Deleted,
    Left,
}

impl View for Product {
    type V = ProductView;

    open spec fn view(&self) -> ProductView {
        match self {
            Product::Connected => ProductView::Connected,
            Product::Answered(reply) => ProductView::Answered(reply@),
            Product::Stored => ProductView::Stored,
            Product::Retrieved(bytes) => ProductView::Retrieved(bytes@),
            Product::Names(names) => ProductView::Names(names.deep_view()),
            Product::Deleted => ProductView::Deleted,
            Product::Left => ProductView::Left,
        }
    }
}

/// What a client wants done next.
pub enum Request {
    /// Read a reply.
    ReadReply,
    /// Write this to the control connection and flush it, then read a reply.
    Command(Vec<u8>),
    /// Open a data connection to this address.
    Dial(String),
    /// Write this to the data connection, and close it.
    SendData(Vec<u8>),
    /// Read the data connection to its end, and close it.
    ReceiveData,
    /// Read the data connection to its end, and close it: these are names.
    ReceiveNames,
    /// The conversation is over, with this.
    Finished(Product),
    /// The conversation is over, without its product.
    Failed(TransportError),
}

/// A [`Request`] by its characters and bytes.
pub enum RequestView {
    ReadReply,
    Command(Seq<u8>),
    Dial(Seq<char>),
    SendData(Seq<u8>),
    ReceiveData,
    ReceiveNames,
    Finished(ProductView),
    Failed(ErrorView),
}

impl View for Request {
    type V = RequestView;

    open spec fn view(&self) -> RequestView {
        match self {
            Request::ReadReply => RequestView::ReadReply,
            Request::Command(bytes) => RequestView::Command(bytes@),
            Request::Dial(address) => RequestView::Dial(address@),
            Request::SendData(bytes) => RequestView::SendData(bytes@),
            Request::ReceiveData => RequestView::ReceiveData,
            Request::ReceiveNames => RequestView::ReceiveNames,
            Request::Finished(product) => RequestView::Finished(product@),
            Request::Failed(error) => RequestView::Failed(error@),
        }
    }
}

/// What came of a [`Request`].
pub enum Answer {
    /// This reply was read.
    Reply(Reply),
    /// It was done.
    Done,
    /// This was read.
    Data(Vec<u8>),
    /// This was read where names were asked for.
    Names(Vec<u8>),
    /// It could not be done: a connection broke, or what was read of a reply
    /// is none.
    Broken,
}

/// An [`Answer`] by its characters and bytes.
pub enum AnswerView {
    Reply(ReplyView),
    Done,
    Data(Seq<u8>),
    Names(Seq<u8>),
    Broken,
}

impl View for Answer {
    type V = AnswerView;

    open spec fn view(&self) -> AnswerView {
        match self {
            Answer::Reply(reply) => AnswerView::Reply(reply@),
            Answer::Done => AnswerView::Done,
            Answer::Data(bytes) => AnswerView::Data(bytes@),
            Answer::Names(bytes) => AnswerView::Names(bytes@),
            Answer::Broken => AnswerView::Broken,
        }
    }
}

/// What goes over a data connection.
enum Transfer {
    /// These bytes, to be stored under this name.
    Store(String, Vec<u8>),
    /// What this name holds.
    Retrieve(String),
    /// The names in the directory.
    List,
}

/// A transfer by its characters and bytes.
pub enum TransferView {
    Store(Seq<char>, Seq<u8>),
    Retrieve(Seq<char>),
    List,
}

impl Transfer {
    spec fn shape(self) -> TransferView {
        match self {
            Transfer::Store(name, bytes) => TransferView::Store(name@, bytes@),
            Transfer::Retrieve(name) => TransferView::Retrieve(name@),
            Transfer::List => TransferView::List,
        }
    }
}

impl TransferView {
    /// The command that starts it.
    pub open spec fn command(self) -> Seq<char> {
        match self {
            TransferView::Store(name, _) => "STOR "@ + name,
            TransferView::Retrieve(name) => "RETR "@ + name,
            TransferView::List => "NLST"@,
        }
    }

    /// What a message calls it.
    pub open spec fn title(self) -> Seq<char> {
        match self {
            TransferView::Store(..) => "the store"@,
            TransferView::Retrieve(_) => "the retrieve"@,
            TransferView::List => "the listing"@,
        }
    }
}

/// What the client waits for.
enum Phase {
    /// A conversation to begin.
    Idle,
    /// The greeting.
    Greeting(Login),
    /// The reply to the user, the password to follow.
    User(String),
    /// The reply to the password.
    Pass,
    /// The reply to the type.
    Binary,
    /// The reply to a command.
    Asking,
    /// The reply to `PASV`.
    Passive(Transfer),
    /// The data connection.
    Dialing(Transfer),
    /// The reply that opens a transfer.
    Opening(Transfer),
    /// The data to be written.
    Sending,
    /// The data of a file.
    Receiving,
    /// The data of a listing.
    Listing,
    /// The reply that closes a transfer, which came to this.
    Completing(Product),
    /// The reply to a delete.
    Deleting,
    /// The reply to the goodbye.
    Quitting,
}

/// A [`Client`] by what it waits for.
pub enum ClientView {
    Idle,
    Greeting(LoginView),
    User(Seq<char>),
    Pass,
    Binary,
    Asking,
    Passive(TransferView),
    Dialing(TransferView),
    Opening(TransferView),
    Sending,
    Receiving,
    Listing,
    Completing(ProductView),
    Deleting,
    Quitting,
}

/// One control connection, as the client sees it.
pub struct Client {
    phase: Phase,
}

impl View for Client {
    type V = ClientView;

    closed spec fn view(&self) -> ClientView {
        match self.phase {
            Phase::Idle => ClientView::Idle,
            Phase::Greeting(login) => ClientView::Greeting(login@),
            Phase::User(password) => ClientView::User(password@),
            Phase::Pass => ClientView::Pass,
            Phase::Binary => ClientView::Binary,
            Phase::Asking => ClientView::Asking,
            Phase::Passive(transfer) => ClientView::Passive(transfer.shape()),
            Phase::Dialing(transfer) => ClientView::Dialing(transfer.shape()),
            Phase::Opening(transfer) => ClientView::Opening(transfer.shape()),
            Phase::Sending => ClientView::Sending,
            Phase::Receiving => ClientView::Receiving,
            Phase::Listing => ClientView::Listing,
            Phase::Completing(product) => ClientView::Completing(product@),
            Phase::Deleting => ClientView::Deleting,
            Phase::Quitting => ClientView::Quitting,
        }
    }
}

/// A command as the client writes it.
pub open spec fn command_bytes(command: Seq<char>) -> Seq<u8> {
    encode_utf8(command + "\r\n"@)
}

/// How a server's refusal of `what` is reported: worth another try exactly
/// where the reply is a transient one.
pub open spec fn refusal(what: Seq<char>, reply: ReplyView) -> ErrorView {
    let message = "the server answered "@ + what + " with "@ + decimal(reply.code as nat) + " "@
        + reply.text;
    if reply.is_transient() {
        ErrorView::Retryable(message)
    } else {
        ErrorView::Permanent(message)
    }
}

/// The names in a listing: its lines that are not empty, up to the first that
/// is not text.
pub open spec fn listed(bytes: Seq<u8>) -> Seq<Seq<char>>
    decreases bytes.len(),
{
    let n = line_len(bytes) as int;
    let raw = bytes.take(n);
    if bytes.len() == 0 || !valid_utf8(raw) {
        Seq::empty()
    } else {
        proof {
            lemma_line_len(bytes);
        }
        let name = chomped(decode_utf8(raw));
        if name.len() == 0 {
            listed(bytes.skip(n))
        } else {
            seq![name] + listed(bytes.skip(n))
        }
    }
}

/// What a message calls the conversation that gives this.
pub open spec fn title(product: ProductView) -> Seq<char> {
    match product {
        ProductView::Stored => "the store"@,
        ProductView::Retrieved(_) => "the retrieve"@,
        _ => "the listing"@,
    }
}

impl ClientView {
    /// Whether this can come of what the client asked for. A `227` whose last
    /// two numbers make no port is not for it.
    pub open spec fn awaits(self, answer: AnswerView) -> bool {
        match answer {
            AnswerView::Reply(reply) => match self {
                ClientView::Idle => false,
                ClientView::Dialing(_) => false,
                ClientView::Sending => false,
                ClientView::Receiving => false,
                ClientView::Listing => false,
                ClientView::Passive(_) => reply.code == 227 ==> port_fits(reply.text),
                _ => true,
            },
            AnswerView::Done => self is Dialing || self is Sending,
            AnswerView::Data(_) => self is Receiving,
            AnswerView::Names(_) => self is Listing,
            AnswerView::Broken => !(self is Idle),
        }
    }

    /// Send a command, and wait for this.
    pub open spec fn ask(self, command: Seq<char>) -> (ClientView, RequestView) {
        (self, RequestView::Command(command_bytes(command)))
    }

    /// Go on with a transfer over a data connection that is not open yet.
    pub open spec fn begin(transfer: TransferView) -> (ClientView, RequestView) {
        ClientView::Passive(transfer).ask("PASV"@)
    }

    /// Finish with this.
    pub open spec fn finish(product: ProductView) -> (ClientView, RequestView) {
        (ClientView::Idle, RequestView::Finished(product))
    }

    /// End without a product.
    pub open spec fn fail(error: ErrorView) -> (ClientView, RequestView) {
        (ClientView::Idle, RequestView::Failed(error))
    }

    /// What a reply comes to.
    pub open spec fn hear(self, reply: ReplyView) -> (ClientView, RequestView) {
        match self {
            ClientView::Greeting(login) => if !reply.is_completion() {
                ClientView::fail(refusal("the greeting"@, reply))
            } else {
                ClientView::User(login.password).ask("USER "@ + login.user)
            },
            ClientView::User(password) => if reply.is_intermediate() {
                ClientView::Pass.ask("PASS "@ + password)
            } else if !reply.is_completion() {
                ClientView::fail(refusal("the user"@, reply))
            } else {
                ClientView::Binary.ask("TYPE I"@)
            },
            ClientView::Pass => if !reply.is_completion() {
                ClientView::fail(refusal("the login"@, reply))
            } else {
                ClientView::Binary.ask("TYPE I"@)
            },
            ClientView::Binary => if !reply.is_completion() {
                ClientView::fail(refusal("binary mode"@, reply))
            } else {
                ClientView::finish(ProductView::Connected)
            },
            ClientView::Asking => ClientView::finish(ProductView::Answered(reply)),
            ClientView::Passive(transfer) => if reply.code != 227 {
                ClientView::fail(refusal("passive mode"@, reply))
            } else {
                match passive_address(reply.text) {
                    Ok(address) => (ClientView::Dialing(transfer), RequestView::Dial(address)),
                    Err(error) => ClientView::fail(error),
                }
            },
            ClientView::Opening(transfer) => if !reply.is_preliminary() {
                ClientView::fail(refusal(transfer.title(), reply))
            } else {
                match transfer {
                    TransferView::Store(_, bytes) => (
                        ClientView::Sending,
                        RequestView::SendData(bytes),
                    ),
                    TransferView::Retrieve(_) => (ClientView::Receiving, RequestView::ReceiveData),
                    TransferView::List => (ClientView::Listing, RequestView::ReceiveNames),
                }
            },
            ClientView::Completing(product) => if reply.is_completion() {
                ClientView::finish(product)
            } else {
                ClientView::fail(refusal(title(product), reply))
            },
            ClientView::Deleting => if reply.is_completion() {
                ClientView::finish(ProductView::Deleted)
            } else {
                ClientView::fail(refusal("the delete"@, reply))
            },
            _ => ClientView::finish(ProductView::Left),
        }
    }

    /// What a client does next, given what came of what it did.
    pub open spec fn step(self, answer: AnswerView) -> (ClientView, RequestView) {
        match (answer, self) {
            (AnswerView::Reply(reply), _) => self.hear(reply),
            (AnswerView::Done, ClientView::Dialing(transfer)) => ClientView::Opening(transfer).ask(
                transfer.command(),
            ),
            (AnswerView::Data(bytes), _) => (
                ClientView::Completing(ProductView::Retrieved(bytes)),
                RequestView::ReadReply,
            ),
            (AnswerView::Names(bytes), _) => (
                ClientView::Completing(ProductView::Names(listed(bytes))),
                RequestView::ReadReply,
            ),
            (AnswerView::Broken, _) => ClientView::fail(ErrorView::Broken),
            _ => (ClientView::Completing(ProductView::Stored), RequestView::ReadReply),
        }
    }
}

/// A conversation whose connection broke has failed, whatever was read before
/// that, and nothing finishes it any more.
pub proof fn lemma_a_broken_conversation_fails(client: ClientView, later: AnswerView)
    requires
        client.awaits(AnswerView::Broken),
    ensures
        client.step(AnswerView::Broken).1 == RequestView::Failed(ErrorView::Broken),
        !client.step(AnswerView::Broken).0.awaits(later),
{
}

impl Client {
    /// Log in over a connection to a server, and switch to binary.
    ///
    /// # Errors
    /// The conversation fails where the server did not greet or refused the
    /// login.
    pub fn connect(login: &Login) -> (begun: (Self, Request))
        ensures
            (begun.0@, begun.1@) == (ClientView::Greeting(login@), RequestView::ReadReply),
    {
        let login: Login = Login { user: login.user.clone(), password: login.password.clone() };
        (Client { phase: Phase::Greeting(login) }, Request::ReadReply)
    }

    /// A client with no conversation begun.
    pub(crate) fn idle() -> (client: Self)
        ensures
            client@ is Idle,
    {
        Client { phase: Phase::Idle }
    }

    /// Send one command and have its reply.
    ///
    /// # Errors
    /// The conversation fails where the control connection broke.
    pub fn command(&mut self, command: &str) -> (request: Request)
        ensures
            (final(self)@, request@) == ClientView::Asking.ask(command@),
    {
        self.ask(Phase::Asking, command)
    }

    /// Store `bytes` as `name` in the current directory.
    ///
    /// # Errors
    /// The conversation fails where the server refused the store or the data
    /// connection broke.
    pub fn store(&mut self, name: &str, bytes: &[u8]) -> (request: Request)
        ensures
            (final(self)@, request@) == ClientView::begin(TransferView::Store(name@, bytes@)),
    {
        self.passive(Transfer::Store(name.to_owned(), slice_to_vec(bytes)))
    }

    /// Retrieve `name` from the current directory.
    ///
    /// # Errors
    /// The conversation fails where the file is not there, or the data
    /// connection broke.
    pub fn retrieve(&mut self, name: &str) -> (request: Request)
        ensures
            (final(self)@, request@) == ClientView::begin(TransferView::Retrieve(name@)),
    {
        self.passive(Transfer::Retrieve(name.to_owned()))
    }

    /// The names in the current directory, one per line of `NLST`.
    ///
    /// # Errors
    /// The conversation fails where the listing was refused or the data
    /// connection broke.
    pub fn names(&mut self) -> (request: Request)
        ensures
            (final(self)@, request@) == ClientView::begin(TransferView::List),
    {
        self.passive(Transfer::List)
    }

    /// Delete `name`.
    ///
    /// # Errors
    /// The conversation fails where the server refused.
    pub fn delete(&mut self, name: &str) -> (request: Request)
        ensures
            (final(self)@, request@) == ClientView::Deleting.ask("DELE "@ + name@),
    {
        let mut command: String = "DELE ".to_owned();
        command.append(name);
        self.ask(Phase::Deleting, command.as_str())
    }

    /// Say goodbye.
    ///
    /// # Errors
    /// The conversation fails where the control connection was already gone.
    pub fn quit(&mut self) -> (request: Request)
        ensures
            (final(self)@, request@) == ClientView::Quitting.ask("QUIT"@),
    {
        self.ask(Phase::Quitting, "QUIT")
    }

    /// Whether this can come of what was asked for last. A `227` whose last
    /// two numbers make no port is not for a client that asked for one.
    pub fn accepts(&self, answer: &Answer) -> (yes: bool)
        ensures
            yes == self@.awaits(answer@),
    {
        match (answer, &self.phase) {
            (Answer::Reply(_), Phase::Idle) => false,
            (Answer::Reply(_), Phase::Dialing(_)) => false,
            (Answer::Reply(_), Phase::Sending) => false,
            (Answer::Reply(_), Phase::Receiving) => false,
            (Answer::Reply(_), Phase::Listing) => false,
            (Answer::Reply(reply), Phase::Passive(_)) => reply.code != 227 || reply.has_port(),
            (Answer::Reply(_), _) => true,
            (Answer::Done, Phase::Dialing(_)) => true,
            (Answer::Done, Phase::Sending) => true,
            (Answer::Data(_), Phase::Receiving) => true,
            (Answer::Names(_), Phase::Listing) => true,
            (Answer::Broken, Phase::Idle) => false,
            (Answer::Broken, _) => true,
            _ => false,
        }
    }

    /// What to do next, given what came of what was done last.
    pub fn advance(&mut self, answer: Answer) -> (request: Request)
        requires
            old(self)@.awaits(answer@),
        ensures
            (final(self)@, request@) == old(self)@.step(answer@),
    {
        let mut phase: Phase = Phase::Idle;
        std::mem::swap(&mut phase, &mut self.phase);
        match answer {
            Answer::Reply(reply) => self.hear(phase, reply),
            Answer::Done => match phase {
                Phase::Dialing(transfer) => {
                    let command: String = transfer_command(&transfer);
                    self.ask(Phase::Opening(transfer), command.as_str())
                },
                _ => self.complete(Product::Stored),
            },
            Answer::Data(bytes) => self.complete(Product::Retrieved(bytes)),
            Answer::Names(bytes) => self.complete(Product::Names(names_from(bytes.as_slice()))),
            Answer::Broken => Request::Failed(TransportError::Broken),
        }
    }

    fn hear(&mut self, phase: Phase, reply: Reply) -> (request: Request)
        requires
            old(self)@ is Idle,
            (Client { phase })@.awaits(AnswerView::Reply(reply@)),
        ensures
            (final(self)@, request@) == (Client { phase })@.hear(reply@),
    {
        match phase {
            Phase::Greeting(login) => {
                if !reply.is_completion() {
                    return Request::Failed(refused("the greeting", &reply));
                }
                let mut command: String = "USER ".to_owned();
                command.append(login.user.as_str());
                self.ask(Phase::User(login.password), command.as_str())
            },
            Phase::User(password) => {
                if reply.is_intermediate() {
                    let mut command: String = "PASS ".to_owned();
                    command.append(password.as_str());
                    self.ask(Phase::Pass, command.as_str())
                } else if !reply.is_completion() {
                    Request::Failed(refused("the user", &reply))
                } else {
                    self.ask(Phase::Binary, "TYPE I")
                }
            },
            Phase::Pass => {
                if !reply.is_completion() {
                    return Request::Failed(refused("the login", &reply));
                }
                self.ask(Phase::Binary, "TYPE I")
            },
            Phase::Binary => {
                if !reply.is_completion() {
                    return Request::Failed(refused("binary mode", &reply));
                }
                Request::Finished(Product::Connected)
            },
            Phase::Asking => Request::Finished(Product::Answered(reply)),
            Phase::Passive(transfer) => {
                if reply.code != 227 {
                    return Request::Failed(refused("passive mode", &reply));
                }
                match reply.passive_address() {
                    Ok(address) => {
                        self.phase = Phase::Dialing(transfer);
                        Request::Dial(address)
                    },
                    Err(error) => Request::Failed(error),
                }
            },
            Phase::Opening(transfer) => {
                if !reply.is_preliminary() {
                    return Request::Failed(refused(transfer_title(&transfer), &reply));
                }
                match transfer {
                    Transfer::Store(_, bytes) => {
                        self.phase = Phase::Sending;
                        Request::SendData(bytes)
                    },
                    Transfer::Retrieve(_) => {
                        self.phase = Phase::Receiving;
                        Request::ReceiveData
                    },
                    Transfer::List => {
                        self.phase = Phase::Listing;
                        Request::ReceiveNames
                    },
                }
            },
            Phase::Completing(product) => {
                if reply.is_completion() {
                    Request::Finished(product)
                } else {
                    Request::Failed(refused(product_title(&product), &reply))
                }
            },
            Phase::Deleting => {
                if reply.is_completion() {
                    Request::Finished(Product::Deleted)
                } else {
                    Request::Failed(refused("the delete", &reply))
                }
            },
            _ => Request::Finished(Product::Left),
        }
    }

    fn passive(&mut self, transfer: Transfer) -> (request: Request)
        ensures
            (final(self)@, request@) == ClientView::begin(transfer.shape()),
    {
        self.ask(Phase::Passive(transfer), "PASV")
    }

    fn complete(&mut self, product: Product) -> (request: Request)
        ensures
            (final(self)@, request@) == (
                ClientView::Completing(product@),
                RequestView::ReadReply,
            ),
    {
        self.phase = Phase::Completing(product);
        Request::ReadReply
    }

    fn ask(&mut self, phase: Phase, command: &str) -> (request: Request)
        ensures
            (final(self)@, request@) == (Client { phase })@.ask(command@),
    {
        self.phase = phase;
        let mut line: String = command.to_owned();
        line.append("\r\n");
        Request::Command(bytes_of(line.as_str()))
    }
}

fn transfer_command(transfer: &Transfer) -> (command: String)
    ensures
        command@ == transfer.shape().command(),
{
    match transfer {
        Transfer::Store(name, _) => {
            let mut command: String = "STOR ".to_owned();
            command.append(name.as_str());
            command
        },
        Transfer::Retrieve(name) => {
            let mut command: String = "RETR ".to_owned();
            command.append(name.as_str());
            command
        },
        Transfer::List => "NLST".to_owned(),
    }
}

fn transfer_title(transfer: &Transfer) -> (what: &'static str)
    ensures
        what@ == transfer.shape().title(),
{
    match transfer {
        Transfer::Store(..) => "the store",
        Transfer::Retrieve(_) => "the retrieve",
        Transfer::List => "the listing",
    }
}

fn product_title(product: &Product) -> (what: &'static str)
    ensures
        what@ == title(product@),
{
    match product {
        Product::Stored => "the store",
        Product::Retrieved(_) => "the retrieve",
        _ => "the listing",
    }
}

/// How a server's refusal of `what` is reported.
pub fn refused(what: &str, reply: &Reply) -> (error: TransportError)
    ensures
        error@ == refusal(what@, reply@),
        error is Retryable <==> 400 <= reply.code < 500,
        error is Permanent <==> !(400 <= reply.code < 500),
{
    let mut message: String = "the server answered ".to_owned();
    message.append(what);
    message.append(" with ");
    message.append(to_decimal(reply.code).as_str());
    message.append(" ");
    message.append(reply.text.as_str());
    if reply.is_transient() {
        TransportError::Retryable(message)
    } else {
        TransportError::Permanent(message)
    }
}

/// The names in a listing.
pub fn names_from(bytes: &[u8]) -> (names: Vec<String>)
    ensures
        names.deep_view() == listed(bytes@),
{
    let mut names: Vec<String> = Vec::new();
    let mut rest: &[u8] = bytes;
    while rest.len() > 0
        invariant_except_break
            names.deep_view() + listed(rest@) =~= listed(bytes@),
        ensures
            names.deep_view() =~= listed(bytes@),
        decreases rest@.len(),
    {
        let n: usize = first_line(rest);
        let raw: &[u8] = slice_subrange(rest, 0, n);
        proof {
            lemma_line_len(rest@);
            assert(raw@ =~= rest@.take(n as int));
        }
        let name: String = match text_of(raw) {
            Some(text) => chomp(text),
            None => {
                break;
            },
        };
        let ghost before = names.deep_view();
        let ghost here = rest@;
        if !name.as_str().is_empty() {
            names.push(name);
            proof {
                assert(names.deep_view() =~= before.push(name@));
            }
        }
        rest = slice_subrange(rest, n, rest.len());
        proof {
            assert(rest@ =~= here.skip(n as int));
        }
    }
    names
}

} // verus!
