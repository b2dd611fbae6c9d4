//! Replies as they are read and written.

use ftp::reply::{can_open, code_in, code_of, read, Reading};
use ftp::{Reply, TransportError};

fn protocol(message: &str) -> TransportError {
    TransportError::Protocol(message.to_string())
}

#[test]
fn replies_read_single_and_multi_line() {
    let reply = read(&mut &b"220 Service ready\r\n"[..]).expect("reply");
    assert_eq!(reply.code, 220);
    assert_eq!(reply.text, "Service ready");
    assert!(reply.is_completion());
    let multi =
        read(&mut &b"211-Features:\r\n UTF8\r\n211 End\r\n215 next\r\n"[..]).expect("multi");
    assert_eq!(multi.code, 211);
    assert_eq!(multi.text, "Features:\n UTF8\nEnd");
    assert!(read(&mut &b"hello\r\n"[..]).is_err());
    assert!(read(&mut &b""[..]).is_err());
    assert!(read(&mut &b"999 no\r\n"[..]).is_err());
}

#[test]
fn a_227_carries_the_passive_address() {
    let reply = Reply {
        code: 227,
        text: "Entering Passive Mode (127,0,0,1,195,80).".into(),
    };
    assert_eq!(reply.passive_address().expect("address"), "127.0.0.1:50000");
    let bare = Reply {
        code: 227,
        text: "=127,0,0,1,4,1".into(),
    };
    assert_eq!(bare.passive_address().expect("address"), "127.0.0.1:1025");
    let none = Reply {
        code: 227,
        text: "Entering Passive Mode".into(),
    };
    assert!(none.passive_address().is_err());
    assert!(
        Reply {
            code: 421,
            text: String::new()
        }
        .is_transient()
    );
    assert!(
        Reply {
            code: 331,
            text: String::new()
        }
        .is_intermediate()
    );
    assert!(
        Reply {
            code: 150,
            text: String::new()
        }
        .is_preliminary()
    );
}

fn passive(text: &str) -> Reply {
    Reply {
        code: 227,
        text: text.to_string(),
    }
}

#[test]
fn a_227_without_six_numbers_is_refused() {
    assert_eq!(
        passive("(127,0,0,1,4)").passive_address(),
        Err(protocol("a 227 without a passive address in it"))
    );
    assert_eq!(
        passive("").passive_address(),
        Err(protocol("a 227 without a passive address in it"))
    );
}

#[test]
fn a_number_that_is_too_large_is_no_number_of_an_address() {
    assert_eq!(
        passive("(65536,10,0,0,1,4,1)").passive_address(),
        Ok("10.0.0.1:1025".to_string())
    );
    assert_eq!(
        passive("(127,0,0,1,99999,4)").passive_address(),
        Err(protocol("a 227 without a passive address in it"))
    );
}

#[test]
fn numbers_before_the_parenthesis_and_behind_the_sixth_do_not_count() {
    assert_eq!(
        passive("1 2 3 ( 300,001,0,65535,0,0,9,9)").passive_address(),
        Ok("300.1.0.65535:0".to_string())
    );
}

#[test]
fn a_port_is_told_from_what_is_none() {
    assert!(passive("(127,0,0,1,255,255)").has_port());
    assert_eq!(
        passive("(127,0,0,1,255,255)").passive_address(),
        Ok("127.0.0.1:65535".to_string())
    );
    assert!(!passive("(127,0,0,1,256,0)").has_port());
    assert!(!passive("(127,0,0,1,255,256)").has_port());
    assert!(passive("no numbers").has_port());
}

#[test]
fn a_reply_is_written_as_it_reads() {
    assert_eq!(ftp::reply::format(220, "xmip ready"), b"220 xmip ready\r\n");
    assert_eq!(ftp::reply::format(7, ""), b"7 \r\n");
    assert_eq!(ftp::reply::format(65535, "é"), "65535 é\r\n".as_bytes());
    let bytes = [ftp::reply::format(550, "é \r x"), b"221 goodbye\r\n".to_vec()].concat();
    let mut unread: &[u8] = &bytes;
    let reply = read(&mut unread).expect("reply");
    assert_eq!(reply.code, 550);
    assert_eq!(reply.text, "é \r x");
    assert_eq!(unread, b"221 goodbye\r\n");
}

#[test]
fn several_lines_are_joined_up_to_the_code_and_a_space() {
    let mut unread = &b"123-a\r\n123-b\n124 c\r\n\r\n123\r\n123 d\r\n220 e\r\n"[..];
    let reply = read(&mut unread).expect("reply");
    assert_eq!(reply.code, 123);
    assert_eq!(reply.text, "a\n123-b\n124 c\n\n123\nd");
    assert_eq!(unread, b"220 e\r\n");
}

#[test]
fn a_connection_that_closes_is_no_reply() {
    let closed = Err(protocol("the peer closed the control connection"));
    assert_eq!(read(&mut &b""[..]), closed);
    assert_eq!(read(&mut &b"211-Features:\r\n"[..]), closed);
    assert_eq!(ftp::reply::line(b""), Err(protocol("the peer closed the control connection")));
}

#[test]
fn a_line_without_a_code_is_quoted() {
    assert_eq!(
        read(&mut &b"he\"llo\r\n"[..]),
        Err(protocol("\"he\\\"llo\" does not open with a reply code"))
    );
    assert_eq!(
        code_of(""),
        Err(protocol("\"\" does not open with a reply code"))
    );
    assert_eq!(
        code_of("12é x"),
        Err(protocol("\"12é x\" does not open with a reply code"))
    );
    assert_eq!(
        code_of("-12 x"),
        Err(protocol("\"-12 x\" does not open with a reply code"))
    );
}

#[test]
fn a_code_that_no_reply_has_is_quoted() {
    assert_eq!(code_of("999 no"), Err(protocol("\"999 no\" is not a reply")));
    assert_eq!(code_of("099 no"), Err(protocol("\"099 no\" is not a reply")));
    assert_eq!(code_of("600 no"), Err(protocol("\"600 no\" is not a reply")));
    assert_eq!(code_of("220"), Err(protocol("\"220\" is not a reply")));
    assert_eq!(code_of("+12 x"), Err(protocol("\"+12 x\" is not a reply")));
    assert_eq!(code_of("100 "), Ok(100));
    assert_eq!(code_of("599x"), Ok(599));
}

#[test]
fn a_line_is_shown_as_it_was_quoted() {
    assert_eq!(code_in("hello", "<h>"), Err(protocol("<h> does not open with a reply code")));
    assert_eq!(code_in("999 no", "<n>"), Err(protocol("<n> is not a reply")));
    assert_eq!(code_in("220 hi", "<y>"), Ok(220));
}

#[test]
fn what_is_not_text_is_garbled() {
    let mut unread = &b"220 \xff\r\n221 x\r\n"[..];
    assert_eq!(
        read(&mut unread),
        Err(TransportError::Garbled("reading a reply".to_string()))
    );
    assert_eq!(unread, b"221 x\r\n");
    assert_eq!(ftp::reply::line("é\r\n".as_bytes()), Ok("é".to_string()));
    assert_eq!(ftp::reply::line(b"a\r\r\n"), Ok("a".to_string()));
    assert_eq!(ftp::reply::line(b"a\r b"), Ok("a\r b".to_string()));
}

#[test]
fn a_wide_character_behind_the_code_can_not_be_cut() {
    assert!(!can_open("220é\r\n".as_bytes()));
    assert!(can_open("220 é\r\n".as_bytes()));
    assert!(can_open(b"hello\r\n"));
    assert!(can_open(b""));
    assert!(can_open(b"\xff"));
}

#[test]
fn a_reply_is_read_line_by_line() {
    let mut reading = Reading::new();
    assert_eq!(reading.take(b"211-one\r\n"), Ok(None));
    assert_eq!(reading.take(b"two\r\n"), Ok(None));
    assert_eq!(
        reading.take(b"211 three\r\n"),
        Ok(Some(Reply {
            code: 211,
            text: "one\ntwo\nthree".to_string()
        }))
    );
    assert_eq!(reading.take(b"200-"), Ok(None));
    assert_eq!(
        reading.take(b""),
        Err(protocol("the peer closed the control connection"))
    );
    assert_eq!(
        reading.take(b"200 ok\r\n"),
        Ok(Some(Reply {
            code: 200,
            text: "ok".to_string()
        }))
    );
}

#[test]
fn the_first_digit_tells_what_a_reply_is() {
    let reply = |code: u16| Reply {
        code,
        text: String::new(),
    };
    assert!(reply(100).is_preliminary() && reply(199).is_preliminary());
    assert!(!reply(99).is_preliminary() && !reply(200).is_preliminary());
    assert!(reply(200).is_completion() && reply(299).is_completion());
    assert!(!reply(199).is_completion() && !reply(300).is_completion());
    assert!(reply(300).is_intermediate() && reply(399).is_intermediate());
    assert!(!reply(299).is_intermediate() && !reply(400).is_intermediate());
    assert!(reply(400).is_transient() && reply(499).is_transient());
    assert!(!reply(399).is_transient() && !reply(500).is_transient());
}
