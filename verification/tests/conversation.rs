//! Both ends in one process: an exchange and a session, with vectors where
//! the sockets would be.

use std::time::Duration;

use ftp::client::{Answer, Product, Request};
use ftp::exchange::Turn;
use ftp::session::{Action, Outcome};
use ftp::{
    Arrived, Client, Event, Exchange, Files, FtpTransport, Listening, Login, Session,
    TransportError,
};

const PORT: u16 = 50_000;

/// What is on its way, and what the server's side came to.
struct Wire {
    commands: Vec<u8>,
    replies: Vec<u8>,
    data: Option<Vec<u8>>,
    listening: bool,
    reached: bool,
    action: Action,
    events: Vec<Event>,
    left: bool,
    failure: Option<TransportError>,
}

impl Wire {
    fn new(greeting: &[u8]) -> Wire {
        Wire {
            commands: Vec::new(),
            replies: greeting.to_vec(),
            data: None,
            listening: false,
            reached: false,
            action: Action::ReadLine,
            events: Vec::new(),
            left: false,
            failure: None,
        }
    }

    /// Does what the client wants, where it can be done.
    fn near(&mut self, request: Request) -> Result<Answer, Request> {
        match request {
            Request::ReadReply => {
                if self.replies.is_empty() {
                    return Err(Request::ReadReply);
                }
                let mut unread: &[u8] = &self.replies;
                let reply = ftp::reply::read(&mut unread).expect("a reply");
                self.replies = unread.to_vec();
                Ok(Answer::Reply(reply))
            }
            Request::Command(bytes) => {
                self.commands.extend_from_slice(&bytes);
                Err(Request::ReadReply)
            }
            Request::Dial(address) => {
                assert_eq!(address, format!("127.0.0.1:{PORT}"));
                assert!(self.listening);
                self.reached = true;
                Ok(Answer::Done)
            }
            Request::SendData(bytes) => {
                self.data = Some(bytes);
                Ok(Answer::Done)
            }
            Request::ReceiveData => match self.data.take() {
                Some(bytes) => Ok(Answer::Data(bytes)),
                None => Err(Request::ReceiveData),
            },
            Request::ReceiveNames => match self.data.take() {
                Some(bytes) => Ok(Answer::Names(bytes)),
                None => Err(Request::ReceiveNames),
            },
            Request::Finished(_) | Request::Failed(_) => panic!("over already"),
        }
    }

    /// Does what the session wants, where it can be done.
    fn far(&mut self, serve: &mut dyn FnMut(Outcome) -> Action) -> bool {
        if self.left || self.failure.is_some() {
            return false;
        }
        let action = std::mem::replace(&mut self.action, Action::ReadLine);
        let outcome = match action {
            Action::ReadLine => match self.commands.iter().position(|byte| *byte == b'\n') {
                Some(at) => Outcome::Line(self.commands.drain(..=at).collect()),
                None => return false,
            },
            Action::Write(bytes) => {
                self.replies.extend_from_slice(&bytes);
                Outcome::Done
            }
            Action::Bind(address) => {
                assert_eq!(address, "127.0.0.1:0");
                self.listening = true;
                self.reached = false;
                Outcome::Bound(Some((127, 0, 0, 1)), PORT)
            }
            Action::AcceptData => {
                assert!(self.listening && self.reached);
                self.listening = false;
                self.reached = false;
                Outcome::Done
            }
            Action::ReceiveData => match self.data.take() {
                Some(bytes) => Outcome::Data(bytes),
                None => {
                    self.action = Action::ReceiveData;
                    return false;
                }
            },
            Action::SendData(bytes) | Action::SendNames(bytes) => {
                self.data = Some(bytes);
                Outcome::Done
            }
            Action::Happened(event) => {
                self.events.push(event);
                Outcome::Begin
            }
            Action::Left => {
                self.left = true;
                return false;
            }
            Action::Failed(error) => {
                self.failure = Some(error);
                return false;
            }
        };
        self.action = serve(outcome);
        true
    }
}

/// An exchange to its end, the server's side served by `serve`.
fn converse(
    wire: &mut Wire,
    begun: (Exchange, Request),
    serve: &mut dyn FnMut(Outcome) -> Action,
) -> Turn {
    let (mut exchange, mut request) = begun;
    let turn = loop {
        match wire.near(request) {
            Ok(answer) => match exchange.advance(answer) {
                Turn::Do(next) => request = next,
                turn => break turn,
            },
            Err(waiting) => {
                assert!(wire.far(serve), "both sides wait");
                request = waiting;
            }
        }
    };
    while wire.far(serve) {}
    turn
}

/// A client's conversation to its end.
fn ask(
    wire: &mut Wire,
    client: &mut Client,
    first: Request,
    session: &mut Session,
) -> Result<Product, TransportError> {
    let mut request = first;
    let mut serve = |outcome: Outcome| session.next_event(outcome);
    let result = loop {
        match request {
            Request::Finished(product) => break Ok(product),
            Request::Failed(error) => break Err(error),
            _ => {}
        }
        match wire.near(request) {
            Ok(answer) => request = client.advance(answer),
            Err(waiting) => {
                assert!(wire.far(&mut serve), "both sides wait");
                request = waiting;
            }
        }
    };
    while wire.far(&mut serve) {}
    result
}

/// Logs in to a session that holds these files.
fn logged_in(files: Files) -> (Wire, Client, Session) {
    let (session, greeting) = Session::accept("127.0.0.1:40000".to_string());
    let mut session = session.with_files(files);
    let mut wire = Wire::new(&greeting);
    wire.action = session.next_event(Outcome::Begin);
    let (mut client, first) = FtpTransport::new("127.0.0.1:21").connect();
    let product = ask(&mut wire, &mut client, first, &mut session);
    assert!(matches!(product, Ok(Product::Connected)));
    (wire, client, session)
}

fn directory(entries: &[(&str, &[u8])]) -> Files {
    let mut files = Files::new();
    for (name, bytes) in entries {
        files.insert(name.to_string(), bytes.to_vec());
    }
    files
}

/// What the far end of a loopback takes of what the near end sends.
fn round(transport: &FtpTransport, payload: &[u8]) -> Result<Arrived, TransportError> {
    assert_eq!(transport.server(), "127.0.0.1:0");
    let (session, greeting) = Session::accept("127.0.0.1:40000".to_string());
    let mut far_end = Listening::new(session);
    let mut wire = Wire::new(&greeting);
    wire.action = far_end.take_one(Outcome::Begin);
    let near = FtpTransport::new("127.0.0.1:2121").timing_out_after(secs(5));
    let (server, exchange, request) = near.send(None, "probe.bin", payload.to_vec());
    assert_eq!(server, "127.0.0.1:2121");
    let mut taken = None;
    let turn = converse(&mut wire, (exchange, request), &mut |outcome| {
        match far_end.take_one(outcome) {
            Action::Happened(Event::Stored(arrived)) => {
                taken = Some(arrived);
                Action::Left
            }
            action => action,
        }
    });
    assert!(matches!(turn, Turn::Sent));
    match wire.failure {
        Some(error) => Err(error),
        None => Ok(taken.expect("a file")),
    }
}

fn secs(n: u64) -> Duration {
    Duration::from_secs(n)
}

fn edges() -> Vec<(&'static str, Vec<u8>)> {
    vec![
        ("empty", Vec::new()),
        ("one byte", vec![0x2a]),
        ("every byte", (0..=255).collect()),
        ("nul run", vec![0; 512]),
        ("high bytes", vec![0xff; 512]),
        ("crlf storm", b"\r\n".repeat(400)),
    ]
}

#[test]
fn the_loopback_stores_one_file_and_takes_it() {
    let arrived = round(&FtpTransport::loopback(secs(5)), b"UNA:+.? '").expect("round");
    assert_eq!(arrived.bytes, b"UNA:+.? '");
    assert!(arrived.origin_uri.starts_with("ftp://127.0.0.1:"));
    assert!(arrived.origin_uri.ends_with("/probe.bin"));
    let long = vec![0x2a; 100_000];
    assert_eq!(
        round(&FtpTransport::loopback(secs(5)), &long)
            .expect("long")
            .bytes,
        long
    );
}

#[test]
fn the_loopback_returns_the_edge_payloads_whole() {
    let transport = FtpTransport::loopback(secs(5));
    for (name, bytes) in edges() {
        let arrived =
            round(&transport, &bytes).unwrap_or_else(|error| panic!("{name}: {error:?}"));
        assert_eq!(arrived.bytes, bytes, "{name}");
    }
}

#[test]
fn a_client_stores_into_a_session_and_the_session_serves_it_back() {
    let far_end = FtpTransport::new("127.0.0.1:0").timing_out_after(secs(2));
    assert_eq!(far_end.timeout(), Some(secs(2)));
    let address = "127.0.0.1:2121".to_string();
    let near = FtpTransport::new(&address).timing_out_after(secs(2));

    let (mut session, greeting) = Session::accept("127.0.0.1:40001".to_string());
    let mut wire = Wire::new(&greeting);
    wire.action = session.next_store(Outcome::Begin);
    let (server, exchange, request) = near.send(None, "orders/1.edi", b"UNA:+.? '".to_vec());
    assert_eq!(server, address);
    let turn = converse(&mut wire, (exchange, request), &mut |outcome| {
        session.next_store(outcome)
    });
    assert!(matches!(turn, Turn::Sent));
    assert_eq!(wire.events.len(), 1);
    let Event::Stored(first) = &wire.events[0] else {
        panic!("not a store");
    };
    assert_eq!(first.bytes, b"UNA:+.? '");
    assert!(first.origin_uri.ends_with("/orders/1.edi"));
    assert!(wire.left, "quit");

    let (mut session, greeting) = Session::accept("127.0.0.1:40002".to_string());
    let mut wire = Wire::new(&greeting);
    wire.action = session.next_store(Outcome::Begin);
    let target = format!("ftp://{address}/2.edi");
    let named = Some((address.as_str(), "2.edi"));
    let (server, exchange, request) = near.send(named, &target, b"".to_vec());
    assert_eq!(server, address);
    let turn = converse(&mut wire, (exchange, request), &mut |outcome| {
        session.next_store(outcome)
    });
    assert!(matches!(turn, Turn::Sent));
    assert_eq!(wire.events.len(), 1);
    let Event::Stored(second) = &wire.events[0] else {
        panic!("not a store");
    };
    assert!(second.bytes.is_empty());
    assert!(wire.left, "quit");

    let files = session.files().clone();
    let (session, greeting) = Session::accept("127.0.0.1:40003".to_string());
    let mut session = session.with_files(files);
    let mut wire = Wire::new(&greeting);
    wire.action = session.next_event(Outcome::Begin);
    let turn = converse(&mut wire, near.receive(), &mut |outcome| {
        session.next_event(outcome)
    });
    let events = &wire.events;
    assert_eq!(events.len(), 2, "one retrieve and one delete: {events:?}");
    assert!(wire.left, "quit");
    let Turn::Received(mut arrived) = turn else {
        panic!("round trip");
    };
    arrived.sort_by(|a, b| a.origin_uri.cmp(&b.origin_uri));
    assert_eq!(arrived.len(), 1);
    assert_eq!(arrived[0].bytes, b"");
    assert!(arrived[0].origin_uri.ends_with("/2.edi"));
    assert!(session.files().is_empty(), "deleted after retrieve");
}

#[test]
fn a_round_reports_the_peer_and_the_name() {
    let arrived = round(&FtpTransport::loopback(secs(1)), b"x").expect("round");
    assert_eq!(arrived.origin_uri, "ftp://127.0.0.1:40000/probe.bin");
}

#[test]
fn what_was_stored_is_retrieved() {
    let (mut wire, mut client, mut session) = logged_in(Files::new());
    let bytes = b"\x00\xffUNB\r\n".to_vec();
    let first = client.store("ö 1.edi", &bytes);
    let stored = ask(&mut wire, &mut client, first, &mut session);
    assert!(matches!(stored, Ok(Product::Stored)));
    assert_eq!(
        wire.events,
        vec![Event::Stored(Arrived {
            origin_uri: "ftp://127.0.0.1:40000/ö 1.edi".to_string(),
            bytes: bytes.clone(),
        })]
    );
    assert_eq!(session.files().get("ö 1.edi"), Some(&bytes));
    let first = client.retrieve("ö 1.edi");
    let Ok(Product::Retrieved(back)) = ask(&mut wire, &mut client, first, &mut session) else {
        panic!("not retrieved");
    };
    assert_eq!(back, bytes);
    assert_eq!(wire.events[1], Event::Retrieved("ö 1.edi".to_string()));
}

#[test]
fn what_was_deleted_is_gone() {
    let (mut wire, mut client, mut session) = logged_in(directory(&[("a", b"1"), ("b", b"2")]));
    let first = client.delete("a");
    let deleted = ask(&mut wire, &mut client, first, &mut session);
    assert!(matches!(deleted, Ok(Product::Deleted)));
    assert_eq!(wire.events, vec![Event::Deleted("a".to_string())]);
    let first = client.retrieve("a");
    let Err(error) = ask(&mut wire, &mut client, first, &mut session) else {
        panic!("retrieved");
    };
    assert_eq!(
        error,
        TransportError::Permanent(
            "the server answered the retrieve with 550 no such file".to_string()
        )
    );
    let first = client.delete("a");
    let Err(error) = ask(&mut wire, &mut client, first, &mut session) else {
        panic!("deleted again");
    };
    assert_eq!(
        error,
        TransportError::Permanent(
            "the server answered the delete with 550 no such file".to_string()
        )
    );
    assert_eq!(session.files().names(), vec!["b".to_string()]);
}

#[test]
fn names_come_over_in_order() {
    let files = directory(&[("b.edi", b""), ("a", b""), ("Z", b""), ("a.edi", b"")]);
    let (mut wire, mut client, mut session) = logged_in(files);
    let first = client.names();
    let Ok(Product::Names(names)) = ask(&mut wire, &mut client, first, &mut session) else {
        panic!("no names");
    };
    assert_eq!(names, vec!["Z", "a", "a.edi", "b.edi"]);
    assert!(wire.events.is_empty());
}

#[test]
fn a_command_has_its_reply() {
    let (mut wire, mut client, mut session) = logged_in(Files::new());
    let first = client.command("PWD");
    let Ok(Product::Answered(reply)) = ask(&mut wire, &mut client, first, &mut session) else {
        panic!("no answer");
    };
    assert_eq!(reply.code, 257);
    assert_eq!(reply.text, "\"/\"");
    let first = client.quit();
    let left = ask(&mut wire, &mut client, first, &mut session);
    assert!(matches!(left, Ok(Product::Left)));
    assert!(wire.left);
}

#[test]
fn files_are_left_where_that_was_asked_for() {
    let (session, greeting) = Session::accept("127.0.0.1:40000".to_string());
    let mut session = session.with_files(directory(&[("2", b"two"), ("1", b"one")]));
    let mut wire = Wire::new(&greeting);
    wire.action = session.next_event(Outcome::Begin);
    let login = Login {
        user: "partner".to_string(),
        password: "any".to_string(),
    };
    let near = FtpTransport::new("host:21").logging_in(login).leaving_files();
    let turn = converse(&mut wire, near.receive(), &mut |outcome| {
        session.next_event(outcome)
    });
    let Turn::Received(arrived) = turn else {
        panic!("nothing received");
    };
    assert_eq!(
        arrived,
        vec![
            Arrived {
                origin_uri: "ftp://host:21/1".to_string(),
                bytes: b"one".to_vec(),
            },
            Arrived {
                origin_uri: "ftp://host:21/2".to_string(),
                bytes: b"two".to_vec(),
            },
        ]
    );
    assert_eq!(
        wire.events,
        vec![
            Event::Retrieved("1".to_string()),
            Event::Retrieved("2".to_string()),
        ]
    );
    assert_eq!(session.files().names(), vec!["1", "2"]);
    assert!(wire.left);
}

#[test]
fn receiving_takes_every_file_in_order_and_deletes_it() {
    let (session, greeting) = Session::accept("127.0.0.1:40000".to_string());
    let mut session = session.with_files(directory(&[("2", b"two"), ("1", b"one")]));
    let mut wire = Wire::new(&greeting);
    wire.action = session.next_event(Outcome::Begin);
    let turn = converse(
        &mut wire,
        FtpTransport::new("host").receive(),
        &mut |outcome| session.next_event(outcome),
    );
    let Turn::Received(arrived) = turn else {
        panic!("nothing received");
    };
    let uris: Vec<&str> = arrived.iter().map(|one| one.origin_uri.as_str()).collect();
    assert_eq!(uris, vec!["ftp://host/1", "ftp://host/2"]);
    assert_eq!(
        wire.events,
        vec![
            Event::Retrieved("1".to_string()),
            Event::Deleted("1".to_string()),
            Event::Retrieved("2".to_string()),
            Event::Deleted("2".to_string()),
        ]
    );
    assert!(session.files().is_empty());
}

#[test]
fn an_empty_directory_gives_nothing() {
    let (mut session, greeting) = Session::accept("127.0.0.1:40000".to_string());
    let mut wire = Wire::new(&greeting);
    wire.action = session.next_event(Outcome::Begin);
    let turn = converse(
        &mut wire,
        FtpTransport::new("host").receive(),
        &mut |outcome| session.next_event(outcome),
    );
    assert!(matches!(turn, Turn::Received(arrived) if arrived.is_empty()));
    assert!(wire.left);
}

#[test]
fn a_far_end_without_a_store_fails() {
    let (session, greeting) = Session::accept("127.0.0.1:40000".to_string());
    let mut far_end = Listening::new(session);
    let mut wire = Wire::new(&greeting);
    wire.action = far_end.take_one(Outcome::Begin);
    let near = FtpTransport::new("127.0.0.1:2121");
    let turn = converse(&mut wire, near.receive(), &mut |outcome| {
        far_end.take_one(outcome)
    });
    assert!(matches!(turn, Turn::Received(_)));
    assert_eq!(
        wire.failure,
        Some(TransportError::Protocol(
            "the client quit without storing".to_string()
        ))
    );
}

#[test]
fn a_far_end_reports_the_first_of_two_stores() {
    let (session, _) = Session::accept("p".to_string());
    let mut far_end = Listening::new(session);
    let store = |far_end: &mut Listening, name: &str, byte: u8| {
        assert!(matches!(
            far_end.take_one(Outcome::Line(b"PASV\r\n".to_vec())),
            Action::Bind(_)
        ));
        far_end.take_one(Outcome::Bound(Some((127, 0, 0, 1)), 1));
        assert!(matches!(far_end.take_one(Outcome::Done), Action::ReadLine));
        far_end.take_one(Outcome::Line(format!("STOR {name}\r\n").into_bytes()));
        assert!(matches!(far_end.take_one(Outcome::Done), Action::AcceptData));
        assert!(matches!(far_end.take_one(Outcome::Done), Action::ReceiveData));
        far_end.take_one(Outcome::Data(vec![byte]));
        far_end.take_one(Outcome::Done)
    };
    assert!(matches!(far_end.take_one(Outcome::Begin), Action::ReadLine));
    assert!(matches!(store(&mut far_end, "a", 1), Action::ReadLine));
    let Action::Happened(Event::Stored(arrived)) = store(&mut far_end, "b", 2) else {
        panic!("not reported");
    };
    assert_eq!(arrived.origin_uri, "ftp://p/a");
    assert_eq!(arrived.bytes, vec![1]);
}
