//! The server's side, the client's commands given.

use ftp::session::{Action, Outcome};
use ftp::{Arrived, Event, Files, Session, TransportError};

fn session() -> Session {
    let (mut session, greeting) = Session::accept("10.1.1.1:999".to_string());
    assert_eq!(greeting, b"220 xmip ready\r\n");
    assert!(matches!(
        session.next_event(Outcome::Begin),
        Action::ReadLine
    ));
    session
}

fn holding(entries: &[(&str, &[u8])]) -> Session {
    let mut files = Files::new();
    for (name, bytes) in entries {
        files.insert(name.to_string(), bytes.to_vec());
    }
    session().with_files(files)
}

/// What a line is answered, and what the session does then.
fn told(session: &mut Session, line: &str) -> (String, Action) {
    match session.next_event(Outcome::Line(line.as_bytes().to_vec())) {
        Action::Write(bytes) => {
            let text = String::from_utf8(bytes).expect("text");
            (text, session.next_event(Outcome::Done))
        }
        _ => panic!("no answer to {line}"),
    }
}

fn passive(session: &mut Session) {
    let bind = session.next_event(Outcome::Line(b"PASV\r\n".to_vec()));
    assert!(matches!(bind, Action::Bind(address) if address == "127.0.0.1:0"));
    let Action::Write(bytes) = session.next_event(Outcome::Bound(Some((127, 0, 0, 1)), 50_000))
    else {
        panic!("no answer");
    };
    assert_eq!(bytes, b"227 Entering Passive Mode (127,0,0,1,195,80)\r\n");
    assert!(matches!(
        session.next_event(Outcome::Done),
        Action::ReadLine
    ));
}

#[test]
fn commands_are_answered_on_the_way() {
    let mut session = session();
    let answers = [
        ("USER a\r\n", "331 password please\r\n"),
        ("PASS b\r\n", "230 logged in\r\n"),
        ("TYPE I\r\n", "200 ok\r\n"),
        ("NOOP\r\n", "200 ok\r\n"),
        ("CWD /orders\r\n", "250 directory changed\r\n"),
        ("PWD\r\n", "257 \"/\"\r\n"),
        ("SYST\r\n", "502 not implemented\r\n"),
        ("\r\n", "502 not implemented\r\n"),
        (" USER\r\n", "502 not implemented\r\n"),
        ("NLST\r\n", "425 use PASV first\r\n"),
        ("LIST\r\n", "425 use PASV first\r\n"),
        ("RETR x\r\n", "550 no such file\r\n"),
        ("DELE x\r\n", "550 no such file\r\n"),
    ];
    for (line, answer) in answers {
        let (text, action) = told(&mut session, line);
        assert_eq!(text, answer, "{line}");
        assert!(matches!(action, Action::ReadLine), "{line}");
    }
}

#[test]
fn the_case_of_a_verb_does_not_matter() {
    let mut session = session();
    for line in ["noop\r\n", "NoOp\n", "nOOP", "noop ignored\r\r\n"] {
        assert_eq!(told(&mut session, line).0, "200 ok\r\n", "{line}");
    }
    assert_eq!(
        told(&mut session, "noöp\r\n").0,
        "502 not implemented\r\n"
    );
}

#[test]
fn a_client_leaves_with_a_goodbye_or_without() {
    let mut session = session();
    let (text, action) = told(&mut session, "QUIT\r\n");
    assert_eq!(text, "221 goodbye\r\n");
    assert!(matches!(action, Action::Left));
    assert!(matches!(
        session.next_event(Outcome::Begin),
        Action::ReadLine
    ));
    assert!(matches!(
        session.next_event(Outcome::Line(Vec::new())),
        Action::Left
    ));
}

#[test]
fn a_command_that_is_not_text_is_garbled() {
    let mut session = session();
    let Action::Failed(error) = session.next_event(Outcome::Line(b"USER \xff\r\n".to_vec()))
    else {
        panic!("went on");
    };
    assert_eq!(
        error,
        TransportError::Garbled("reading a command".to_string())
    );
}

#[test]
fn a_store_without_a_listener_fails_and_the_session_goes_on() {
    let mut session = session();
    let (text, action) = told(&mut session, "STOR x\r\n");
    assert_eq!(text, "425 use PASV first\r\n");
    let Action::Failed(error) = action else {
        panic!("went on");
    };
    assert_eq!(
        error,
        TransportError::Protocol("a STOR without PASV".to_string())
    );
    assert!(session.files().is_empty());
    assert!(matches!(
        session.next_event(Outcome::Begin),
        Action::ReadLine
    ));
    assert_eq!(told(&mut session, "NOOP\r\n").0, "200 ok\r\n");
}

#[test]
fn passive_mode_needs_an_ipv4_address() {
    let mut session = session();
    session.next_event(Outcome::Line(b"PASV\r\n".to_vec()));
    let Action::Failed(error) = session.next_event(Outcome::Bound(None, 50_000)) else {
        panic!("went on");
    };
    assert_eq!(
        error,
        TransportError::Protocol("passive mode needs IPv4".to_string())
    );
    session.next_event(Outcome::Begin);
    assert_eq!(told(&mut session, "NLST\r\n").0, "425 use PASV first\r\n");
}

#[test]
fn the_address_of_a_listener_reads_back() {
    let mut session = session();
    session.next_event(Outcome::Line(b"PASV\r\n".to_vec()));
    let Action::Write(bytes) = session.next_event(Outcome::Bound(Some((10, 0, 200, 7)), 65_535))
    else {
        panic!("no answer");
    };
    assert_eq!(bytes, b"227 Entering Passive Mode (10,0,200,7,255,255)\r\n");
    let reply = ftp::reply::read(&mut &bytes[..]).expect("reply");
    assert!(reply.has_port());
    assert_eq!(reply.passive_address(), Ok("10.0.200.7:65535".to_string()));
}

#[test]
fn a_listener_serves_one_transfer() {
    let mut session = holding(&[("b", b"2"), ("a", b"1")]);
    assert_eq!(told(&mut session, "RETR a\r\n").0, "425 use PASV first\r\n");
    passive(&mut session);
    let (text, action) = told(&mut session, "RETR a\r\n");
    assert_eq!(text, "150 opening data connection\r\n");
    assert!(matches!(action, Action::AcceptData));
    let Action::SendData(bytes) = session.next_event(Outcome::Done) else {
        panic!("no data");
    };
    assert_eq!(bytes, b"1");
    let Action::Write(bytes) = session.next_event(Outcome::Done) else {
        panic!("no answer");
    };
    assert_eq!(bytes, b"226 transfer complete\r\n");
    let Action::Happened(event) = session.next_event(Outcome::Done) else {
        panic!("no event");
    };
    assert_eq!(event, Event::Retrieved("a".to_string()));
    session.next_event(Outcome::Begin);
    assert_eq!(told(&mut session, "RETR a\r\n").0, "425 use PASV first\r\n");
}

#[test]
fn a_listing_has_one_name_to_a_line() {
    let mut session = holding(&[("b", b"2"), ("é", b""), ("a", b"1")]);
    passive(&mut session);
    let (text, action) = told(&mut session, "LIST\r\n");
    assert_eq!(text, "150 here comes the listing\r\n");
    assert!(matches!(action, Action::AcceptData));
    let Action::SendNames(bytes) = session.next_event(Outcome::Done) else {
        panic!("no data");
    };
    assert_eq!(bytes, "a\r\nb\r\né\r\n".as_bytes());
    let Action::Write(bytes) = session.next_event(Outcome::Done) else {
        panic!("no answer");
    };
    assert_eq!(bytes, b"226 transfer complete\r\n");
    assert!(matches!(
        session.next_event(Outcome::Done),
        Action::ReadLine
    ));
}

#[test]
fn a_missing_file_is_told_of_before_the_listener() {
    let mut session = session();
    passive(&mut session);
    assert_eq!(told(&mut session, "RETR x\r\n").0, "550 no such file\r\n");
    let (text, action) = told(&mut session, "STOR x\r\n");
    assert_eq!(text, "150 ok to send data\r\n");
    assert!(matches!(action, Action::AcceptData));
}

#[test]
fn waiting_for_a_store_passes_over_the_rest() {
    let mut session = holding(&[("a", b"1")]);
    let Action::Write(bytes) = session.next_store(Outcome::Line(b"DELE a\r\n".to_vec())) else {
        panic!("no answer");
    };
    assert_eq!(bytes, b"250 deleted\r\n");
    assert!(matches!(
        session.next_store(Outcome::Done),
        Action::ReadLine
    ));
    assert!(session.files().is_empty());
    passive(&mut session);
    session.next_store(Outcome::Line(b"STOR x y\r\n".to_vec()));
    session.next_store(Outcome::Done);
    assert!(matches!(
        session.next_store(Outcome::Done),
        Action::ReceiveData
    ));
    session.next_store(Outcome::Data(b"new".to_vec()));
    let Action::Happened(event) = session.next_store(Outcome::Done) else {
        panic!("no event");
    };
    assert_eq!(
        event,
        Event::Stored(Arrived {
            origin_uri: "ftp://10.1.1.1:999/x y".to_string(),
            bytes: b"new".to_vec(),
        })
    );
    assert_eq!(session.files().get("x y"), Some(&b"new".to_vec()));
}

#[test]
fn a_directory_keeps_its_names_in_order() {
    let mut files = Files::new();
    assert!(files.is_empty());
    for (name, byte) in [("b", 1u8), ("", 2), ("é", 3), ("ab", 4), ("a", 5), ("b", 6)] {
        files.insert(name.to_string(), vec![byte]);
    }
    assert_eq!(files.names(), vec!["", "a", "ab", "b", "é"]);
    assert_eq!(files.get("b"), Some(&vec![6]));
    assert_eq!(files.get("c"), None);
    let copy = files.clone();
    assert!(files.remove("ab"));
    assert!(!files.remove("ab"));
    assert_eq!(files.names(), vec!["", "a", "b", "é"]);
    assert_eq!(copy.names(), vec!["", "a", "ab", "b", "é"]);
}

#[test]
fn a_session_accepts_only_what_it_asked_for() {
    let mut session = session();
    assert!(session.accepts(&Outcome::Begin));
    assert!(session.accepts(&Outcome::Line(Vec::new())));
    assert!(!session.accepts(&Outcome::Done));
    session.next_event(Outcome::Line(b"PASV\r\n".to_vec()));
    assert!(session.accepts(&Outcome::Bound(None, 0)));
    assert!(!session.accepts(&Outcome::Data(Vec::new())));
    session.next_event(Outcome::Bound(Some((127, 0, 0, 1)), 1));
    assert!(session.accepts(&Outcome::Done));
}
