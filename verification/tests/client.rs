//! The client's side, the server's answers given.

use std::time::Duration;

use ftp::client::{names_from, refused, Answer, Product, Request};
use ftp::exchange::Turn;
use ftp::{Arrived, Client, Exchange, FtpTransport, Login, Reply, TransportError};

fn secs(n: u64) -> Duration {
    Duration::from_secs(n)
}

fn reply(code: u16, text: &str) -> Answer {
    Answer::Reply(Reply {
        code,
        text: text.to_string(),
    })
}

fn read(bytes: &[u8]) -> Answer {
    let mut unread = bytes;
    Answer::Reply(ftp::reply::read(&mut unread).expect("reply"))
}

fn command(request: Request) -> String {
    match request {
        Request::Command(bytes) => String::from_utf8(bytes).expect("text"),
        _ => panic!("not a command"),
    }
}

fn failure(request: Request) -> TransportError {
    match request {
        Request::Failed(error) => error,
        _ => panic!("not failed"),
    }
}

/// A client that is logged in.
fn connected() -> Client {
    let (mut client, _) = Client::connect(&Login::default());
    client.advance(reply(220, "hi"));
    client.advance(reply(230, "in"));
    let done = client.advance(reply(200, "ok"));
    assert!(matches!(done, Request::Finished(Product::Connected)));
    client
}

#[test]
fn a_refusal_is_permanent_and_a_transient_one_is_retryable() {
    let (mut client, first) = FtpTransport::new("127.0.0.1:2121")
        .timing_out_after(secs(2))
        .connect();
    assert!(matches!(first, Request::ReadReply));
    let Request::Failed(error) = client.advance(read(b"421 too busy\r\n")) else {
        panic!("connected");
    };
    assert!(matches!(error, TransportError::Retryable(_)), "{error:?}");
    let (mut client, first) = FtpTransport::new("127.0.0.1:2121")
        .timing_out_after(secs(2))
        .connect();
    assert!(matches!(first, Request::ReadReply));
    assert_eq!(
        command(client.advance(read(b"220 hi\r\n"))),
        "USER anonymous\r\n"
    );
    let Request::Failed(error) = client.advance(read(b"530 not welcome\r\n")) else {
        panic!("connected");
    };
    assert!(!matches!(error, TransportError::Retryable(_)), "{error:?}");
}

#[test]
fn a_refusal_says_what_was_refused() {
    let busy = Reply {
        code: 421,
        text: "too busy".to_string(),
    };
    assert_eq!(
        refused("the greeting", &busy),
        TransportError::Retryable(
            "the server answered the greeting with 421 too busy".to_string()
        )
    );
    let odd = Reply {
        code: 500,
        text: String::new(),
    };
    assert_eq!(
        refused("x", &odd),
        TransportError::Permanent("the server answered x with 500 ".to_string())
    );
}

#[test]
fn logging_in_says_who_and_asks_for_binary() {
    let login = Login {
        user: "partner".to_string(),
        password: "any word".to_string(),
    };
    let (mut client, _) = FtpTransport::new("host").logging_in(login).connect();
    assert_eq!(command(client.advance(reply(220, "hi"))), "USER partner\r\n");
    assert_eq!(
        command(client.advance(reply(331, "password please"))),
        "PASS any word\r\n"
    );
    assert_eq!(command(client.advance(reply(230, "in"))), "TYPE I\r\n");
    assert!(matches!(
        client.advance(reply(200, "ok")),
        Request::Finished(Product::Connected)
    ));
}

#[test]
fn a_user_without_a_password_goes_on_to_binary() {
    let (mut client, _) = Client::connect(&Login::default());
    client.advance(reply(220, "hi"));
    assert_eq!(command(client.advance(reply(230, "in"))), "TYPE I\r\n");
    assert_eq!(
        failure(client.advance(reply(504, "no"))),
        TransportError::Permanent("the server answered binary mode with 504 no".to_string())
    );
}

#[test]
fn every_step_of_a_login_can_be_refused() {
    let (mut client, _) = Client::connect(&Login::default());
    assert_eq!(
        failure(client.advance(reply(120, "wait"))),
        TransportError::Permanent("the server answered the greeting with 120 wait".to_string())
    );
    let (mut client, _) = Client::connect(&Login::default());
    client.advance(reply(220, "hi"));
    assert_eq!(
        failure(client.advance(reply(421, "later"))),
        TransportError::Retryable("the server answered the user with 421 later".to_string())
    );
    let (mut client, _) = Client::connect(&Login::default());
    client.advance(reply(220, "hi"));
    assert_eq!(
        command(client.advance(reply(331, "more"))),
        "PASS xmip@\r\n"
    );
    assert_eq!(
        failure(client.advance(reply(530, "no"))),
        TransportError::Permanent("the server answered the login with 530 no".to_string())
    );
}

#[test]
fn a_store_dials_opens_sends_and_completes() {
    let mut client = connected();
    assert_eq!(command(client.store("n", b"xyz")), "PASV\r\n");
    let Request::Dial(address) = client.advance(reply(227, "(10,0,0,9,0,21)")) else {
        panic!("no dial");
    };
    assert_eq!(address, "10.0.0.9:21");
    assert_eq!(command(client.advance(Answer::Done)), "STOR n\r\n");
    let Request::SendData(bytes) = client.advance(reply(125, "go")) else {
        panic!("no data");
    };
    assert_eq!(bytes, b"xyz");
    assert!(matches!(client.advance(Answer::Done), Request::ReadReply));
    assert!(matches!(
        client.advance(reply(226, "done")),
        Request::Finished(Product::Stored)
    ));
}

#[test]
fn a_transfer_can_be_refused_at_every_reply() {
    let mut client = connected();
    client.store("n", b"");
    assert_eq!(
        failure(client.advance(reply(425, "no"))),
        TransportError::Retryable("the server answered passive mode with 425 no".to_string())
    );
    client.store("n", b"");
    assert_eq!(
        failure(client.advance(reply(227, "nowhere"))),
        TransportError::Protocol("a 227 without a passive address in it".to_string())
    );
    client.store("n", b"");
    client.advance(reply(227, "(1,2,3,4,5,6)"));
    client.advance(Answer::Done);
    assert_eq!(
        failure(client.advance(reply(553, "no"))),
        TransportError::Permanent("the server answered the store with 553 no".to_string())
    );
    client.store("n", b"");
    client.advance(reply(227, "(1,2,3,4,5,6)"));
    client.advance(Answer::Done);
    client.advance(reply(150, "go"));
    client.advance(Answer::Done);
    assert_eq!(
        failure(client.advance(reply(426, "aborted"))),
        TransportError::Retryable("the server answered the store with 426 aborted".to_string())
    );
    client.retrieve("n");
    client.advance(reply(227, "(1,2,3,4,5,6)"));
    assert_eq!(command(client.advance(Answer::Done)), "RETR n\r\n");
    assert!(matches!(
        client.advance(reply(150, "go")),
        Request::ReceiveData
    ));
    client.advance(Answer::Data(b"half".to_vec()));
    assert_eq!(
        failure(client.advance(reply(426, "aborted"))),
        TransportError::Retryable(
            "the server answered the retrieve with 426 aborted".to_string()
        )
    );
    client.names();
    client.advance(reply(227, "(1,2,3,4,5,6)"));
    assert_eq!(command(client.advance(Answer::Done)), "NLST\r\n");
    assert_eq!(
        failure(client.advance(reply(550, "no"))),
        TransportError::Permanent("the server answered the listing with 550 no".to_string())
    );
    client.names();
    client.advance(reply(227, "(1,2,3,4,5,6)"));
    client.advance(Answer::Done);
    assert!(matches!(
        client.advance(reply(150, "go")),
        Request::ReceiveNames
    ));
    client.advance(Answer::Names(b"a\r\n".to_vec()));
    assert_eq!(
        failure(client.advance(reply(451, "no"))),
        TransportError::Retryable("the server answered the listing with 451 no".to_string())
    );
}

#[test]
fn any_answer_to_a_goodbye_will_do() {
    let mut client = connected();
    assert_eq!(command(client.quit()), "QUIT\r\n");
    assert!(matches!(
        client.advance(reply(500, "what")),
        Request::Finished(Product::Left)
    ));
}

#[test]
fn names_are_the_lines_that_are_not_empty() {
    assert_eq!(names_from(b"a\r\n\r\nb c\n\nlast"), vec!["a", "b c", "last"]);
    assert_eq!(names_from(b"a\r\r\n"), vec!["a\r"]);
    assert_eq!(names_from(b"a\r"), vec!["a\r"]);
    assert_eq!(names_from(b""), Vec::<String>::new());
    assert_eq!(names_from("é\r\n".as_bytes()), vec!["é"]);
}

#[test]
fn a_listing_ends_where_it_is_not_text() {
    assert_eq!(names_from(b"a\r\n\xff\r\nb\r\n"), vec!["a"]);
}

#[test]
fn a_listing_that_breaks_off_is_none() {
    let mut client = connected();
    client.names();
    client.advance(reply(227, "(1,2,3,4,5,6)"));
    client.advance(Answer::Done);
    assert!(matches!(
        client.advance(reply(150, "go")),
        Request::ReceiveNames
    ));
    assert_eq!(failure(client.advance(Answer::Broken)), TransportError::Broken);
    assert!(!client.accepts(&reply(226, "done")));
}

#[test]
fn a_broken_connection_fails_whatever_was_asked_for() {
    let (mut client, _) = Client::connect(&Login::default());
    assert_eq!(failure(client.advance(Answer::Broken)), TransportError::Broken);
    client.retrieve("n");
    assert_eq!(failure(client.advance(Answer::Broken)), TransportError::Broken);
    assert!(!client.accepts(&Answer::Broken));
    client.store("n", b"x");
    client.advance(reply(227, "(1,2,3,4,5,6)"));
    assert_eq!(failure(client.advance(Answer::Broken)), TransportError::Broken);
    client.command("NOOP");
    assert_eq!(failure(client.advance(Answer::Broken)), TransportError::Broken);
}

#[test]
fn a_target_is_a_name_unless_it_names_its_server() {
    let transport = FtpTransport::new("host:21");
    assert_eq!(transport.name(), "ftp");
    assert_eq!(transport.resolve(None, "a/b"), ("host:21", "a/b"));
    assert_eq!(
        transport.resolve(Some(("other", "b")), "ftp://other/b"),
        ("other", "b")
    );
}

/// An exchange that was given the names `a` and `b`, and retrieves `a`.
fn taking(transport: &FtpTransport) -> Exchange {
    let (mut exchange, _) = transport.receive();
    exchange.advance(reply(220, "hi"));
    exchange.advance(reply(230, "in"));
    exchange.advance(reply(200, "ok"));
    exchange.advance(reply(227, "(1,2,3,4,5,6)"));
    exchange.advance(Answer::Done);
    exchange.advance(reply(150, "go"));
    exchange.advance(Answer::Names(b"a\r\nb\r\n".to_vec()));
    exchange.advance(reply(226, "done"));
    exchange
}

/// Retrieves the file whose turn it is, and gives what follows.
fn retrieved(exchange: &mut Exchange, name: &str, bytes: &[u8]) -> Turn {
    exchange.advance(reply(227, "(1,2,3,4,5,6)"));
    let Turn::Do(retrieve) = exchange.advance(Answer::Done) else {
        panic!("over");
    };
    assert_eq!(command(retrieve), format!("RETR {name}\r\n"));
    exchange.advance(reply(150, "go"));
    exchange.advance(Answer::Data(bytes.to_vec()));
    exchange.advance(reply(226, "done"))
}

fn wants(turn: Turn) -> String {
    match turn {
        Turn::Do(request) => command(request),
        _ => panic!("over"),
    }
}

fn arrived(name: &str, bytes: &[u8]) -> Arrived {
    Arrived {
        origin_uri: format!("ftp://host/{name}"),
        bytes: bytes.to_vec(),
    }
}

fn ended(turn: Turn) -> (TransportError, Vec<Arrived>) {
    match turn {
        Turn::Failed(error, kept) => (error, kept),
        _ => panic!("not failed"),
    }
}

#[test]
fn a_refused_delete_ends_the_exchange() {
    let mut exchange = taking(&FtpTransport::new("host"));
    assert_eq!(wants(retrieved(&mut exchange, "a", b"1")), "DELE a\r\n");
    assert_eq!(
        ended(exchange.advance(reply(450, "busy"))),
        (
            TransportError::Retryable("the server answered the delete with 450 busy".to_string()),
            Vec::new()
        )
    );
}

#[test]
fn a_file_that_was_deleted_is_handed_over_where_the_next_is_refused() {
    let mut exchange = taking(&FtpTransport::new("host"));
    assert_eq!(wants(retrieved(&mut exchange, "a", b"1")), "DELE a\r\n");
    assert_eq!(wants(exchange.advance(reply(250, "deleted"))), "PASV\r\n");
    exchange.advance(reply(227, "(1,2,3,4,5,6)"));
    assert_eq!(wants(exchange.advance(Answer::Done)), "RETR b\r\n");
    assert_eq!(
        ended(exchange.advance(reply(550, "gone"))),
        (
            TransportError::Permanent(
                "the server answered the retrieve with 550 gone".to_string()
            ),
            vec![arrived("a", b"1")]
        )
    );
}

#[test]
fn a_file_that_was_deleted_is_handed_over_where_the_next_delete_is_refused() {
    let mut exchange = taking(&FtpTransport::new("host"));
    retrieved(&mut exchange, "a", b"1");
    exchange.advance(reply(250, "deleted"));
    assert_eq!(wants(retrieved(&mut exchange, "b", b"2")), "DELE b\r\n");
    let (error, kept) = ended(exchange.advance(reply(550, "no")));
    assert!(matches!(error, TransportError::Permanent(_)));
    assert_eq!(kept, vec![arrived("a", b"1")]);
}

#[test]
fn a_delete_that_is_not_answered_hands_its_file_over() {
    let mut exchange = taking(&FtpTransport::new("host"));
    retrieved(&mut exchange, "a", b"1");
    exchange.advance(reply(250, "deleted"));
    retrieved(&mut exchange, "b", b"2");
    assert_eq!(
        ended(exchange.advance(Answer::Broken)),
        (
            TransportError::Broken,
            vec![arrived("a", b"1"), arrived("b", b"2")]
        )
    );
}

#[test]
fn a_goodbye_that_is_not_answered_hands_all_files_over() {
    let mut exchange = taking(&FtpTransport::new("host"));
    retrieved(&mut exchange, "a", b"1");
    exchange.advance(reply(250, "deleted"));
    retrieved(&mut exchange, "b", b"2");
    assert_eq!(wants(exchange.advance(reply(250, "deleted"))), "QUIT\r\n");
    let (_, kept) = ended(exchange.advance(Answer::Broken));
    assert_eq!(kept, vec![arrived("a", b"1"), arrived("b", b"2")]);
}

#[test]
fn files_that_were_left_are_not_handed_over_by_a_failure() {
    let mut exchange = taking(&FtpTransport::new("host").leaving_files());
    assert_eq!(wants(retrieved(&mut exchange, "a", b"1")), "PASV\r\n");
    assert_eq!(
        ended(exchange.advance(Answer::Broken)),
        (TransportError::Broken, Vec::new())
    );
}

#[test]
fn a_client_accepts_only_what_it_asked_for() {
    let mut client = connected();
    assert!(!client.accepts(&reply(200, "ok")));
    client.names();
    assert!(!client.accepts(&Answer::Done));
    assert!(!client.accepts(&reply(227, "(1,2,3,4,256,0)")));
    assert!(client.accepts(&reply(425, "(1,2,3,4,256,0)")));
    assert!(client.accepts(&reply(227, "(1,2,3,4,255,255)")));
    assert!(client.accepts(&reply(227, "nowhere")));
    client.advance(reply(227, "(1,2,3,4,5,6)"));
    assert!(client.accepts(&Answer::Done));
    client.advance(Answer::Done);
    client.advance(reply(150, "go"));
    assert!(client.accepts(&Answer::Names(Vec::new())));
    assert!(!client.accepts(&Answer::Data(Vec::new())));
    client.command("PASV");
    assert!(client.accepts(&reply(227, "(1,2,3,4,256,0)")));
}
