//! Streams that arrive as files over FTP. One file is one Stream, its name
//! kept beside it.
//!
//! FTP is the partner drop box that predates every other one: a control
//! connection on port 21, a data connection per transfer, files in
//! directories. A Receive Location logs in, lists a directory and retrieves
//! what is there, deleting each file once it is safely a Stream; a Send
//! Location logs in and stores. Either may instead accept clients directly
//! through [`Session`], one client's worth of server over one directory.
//!
//! What is here is RFC 959 in passive mode and binary type, the shape a
//! firewall lets through: what each side says and does next, as state that
//! is told what happened. The sockets are the caller's.
//!
//! The origin URI carries what the server knew: `ftp://server/orders/1.edi`.

pub mod arrived;
pub mod client;
pub mod error;
pub mod exchange;
pub mod far_end;
pub mod files;
pub mod laws;
pub mod loopback;
pub mod reply;
pub mod round;
pub mod session;
pub mod text;
pub mod wire;

use std::time::Duration;

use vstd::prelude::*;

pub use arrived::Arrived;
pub use client::{Client, Login};
pub use error::TransportError;
pub use exchange::Exchange;
pub use far_end::Listening;
pub use files::Files;
pub use reply::Reply;
pub use session::{Event, Session};

use client::{ClientView, LoginView, Request, RequestView};
use exchange::{HaulView, PlanView, TurnView};

verus! {

/// How a Location reaches a server.
#[derive(Clone)]
pub struct FtpTransport {
    server: String,
    login: Login,
    delete_after_retrieve: bool,
    timeout: Option<Duration>,
}

/// An [`FtpTransport`] by its characters.
pub struct FtpTransportView {
    pub server: Seq<char>,
    pub login: LoginView,
    pub delete_after_retrieve: bool,
    pub timeout: Option<Duration>,
}

impl View for FtpTransport {
    type V = FtpTransportView;

    closed spec fn view(&self) -> FtpTransportView {
        FtpTransportView {
            server: self.server@,
            login: self.login@,
            delete_after_retrieve: self.delete_after_retrieve,
            timeout: self.timeout,
        }
    }
}

impl FtpTransport {
    /// Speak to the server at `server`, anonymous unless [`Self::logging_in`].
    #[must_use]
    pub fn new(server: &str) -> (transport: Self)
        ensures
            transport@ == (FtpTransportView {
                server: server@,
                login: LoginView { user: "anonymous"@, password: "xmip@"@ },
                delete_after_retrieve: true,
                timeout: None,
            }),
    {
        FtpTransport {
            server: server.to_owned(),
            login: Login::default(),
            delete_after_retrieve: true,
            timeout: None,
        }
    }

    /// Log in as this.
    #[must_use]
    pub fn logging_in(self, login: Login) -> (transport: Self)
        ensures
            transport@ == (FtpTransportView { login: login@, ..self@ }),
    {
        let mut transport: FtpTransport = self;
        transport.login = login;
        transport
    }

    /// Leave retrieved files in place rather than deleting them.
    #[must_use]
    pub fn leaving_files(self) -> (transport: Self)
        ensures
            transport@ == (FtpTransportView { delete_after_retrieve: false, ..self@ }),
    {
        let mut transport: FtpTransport = self;
        transport.delete_after_retrieve = false;
        transport
    }

    /// Give up on a peer that stops mid-transfer.
    #[must_use]
    pub fn timing_out_after(self, timeout: Duration) -> (transport: Self)
        ensures
            transport@ == (FtpTransportView { timeout: Some(timeout), ..self@ }),
    {
        let mut transport: FtpTransport = self;
        transport.timeout = Some(timeout);
        transport
    }

    /// Both ends on this machine: an ephemeral local port, an anonymous
    /// login, this timeout on every read.
    #[must_use]
    pub fn loopback(timeout: Duration) -> (transport: Self)
        ensures
            transport@ == (FtpTransportView {
                server: "127.0.0.1:0"@,
                login: LoginView { user: "anonymous"@, password: "xmip@"@ },
                delete_after_retrieve: true,
                timeout: Some(timeout),
            }),
    {
        FtpTransport::new("127.0.0.1:0").timing_out_after(timeout)
    }

    /// The server this speaks to.
    pub fn server(&self) -> (server: &str)
        ensures
            server@ == self@.server,
    {
        self.server.as_str()
    }

    /// How long to wait for a peer.
    pub fn timeout(&self) -> (timeout: Option<Duration>)
        ensures
            timeout == self@.timeout,
    {
        self.timeout
    }

    /// What this transport is called.
    pub fn name(&self) -> (name: &'static str)
        ensures
            name@ == "ftp"@,
    {
        "ftp"
    }

    /// Log in over a connection to the server.
    pub fn connect(&self) -> (begun: (Client, Request))
        ensures
            (begun.0@, begun.1@) == (ClientView::Greeting(self@.login), RequestView::ReadReply),
    {
        Client::connect(&self.login)
    }

    /// Where a target names the server and file itself, `ftp://host/name`,
    /// those are `named`; else it is a name alone on this transport's server.
    pub fn resolve<'a>(&'a self, named: Option<(&'a str, &'a str)>, target: &'a str) -> (resolved: (
        &'a str,
        &'a str,
    ))
        ensures
            match named {
                Some(named) => resolved == named,
                None => resolved.0@ == self@.server && resolved.1 == target,
            },
    {
        named.unwrap_or((self.server.as_str(), target))
    }

    /// Retrieve every file in the directory, each deleted once retrieved
    /// unless the transport was told to leave them, over a connection to the
    /// server. A file that was deleted is handed over, also where the rest
    /// could not be had.
    pub fn receive(&self) -> (begun: (Exchange, Request))
        ensures
            (begun.0@, TurnView::Do(begun.1@)) == PlanView::ToTake(
                HaulView {
                    server: self@.server,
                    delete: self@.delete_after_retrieve,
                    names: Seq::empty(),
                    arrived: Seq::empty(),
                },
            ).begin((ClientView::Greeting(self@.login), RequestView::ReadReply)),
    {
        Exchange::take(&self.login, self.server.as_str(), self.delete_after_retrieve)
    }

    /// Store `bytes` as the file that [`Self::resolve`] gives, over a
    /// connection to the server that it gives.
    pub fn send<'a>(
        &'a self,
        named: Option<(&'a str, &'a str)>,
        target: &'a str,
        bytes: Vec<u8>,
    ) -> (begun: (&'a str, Exchange, Request))
        ensures
            ({
                let (server, name) = match named {
                    Some((server, name)) => (server@, name@),
                    None => (self@.server, target@),
                };
                &&& begun.0@ == server
                &&& (begun.1@, TurnView::Do(begun.2@)) == PlanView::ToStore(name, bytes@).begin(
                    (ClientView::Greeting(self@.login), RequestView::ReadReply),
                )
            }),
    {
        let (server, name) = self.resolve(named, target);
        let (exchange, request) = Exchange::store(&self.login, name, bytes);
        (server, exchange, request)
    }
}

} // verus!
