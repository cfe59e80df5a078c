use burngate::reader::{read_data, Cursor};
use burngate::relay::{build_payload, response_code, RelayAction, RelayClient, RelayError, RelayPhase};

fn client(recipients: &[&str], message: &[u8]) -> RelayClient {
    RelayClient::new(
        "burngate".to_string(),
        "bob@x.com".to_string(),
        recipients.iter().map(|r| r.to_string()).collect(),
        message.to_vec(),
    )
}

fn send(text: &str) -> RelayAction {
    RelayAction::Send(text.to_string())
}

fn protocol(detail: &str) -> RelayAction {
    RelayAction::Fail(RelayError::Protocol(detail.to_string()))
}

#[test]
fn relay_happy_path() {
    let mut relay = client(&["a@tempy.email", "b@tempy.email"], b"hi\r\n");
    assert_eq!(relay.phase(), RelayPhase::Greeting);
    assert!(relay.is_active());
    assert_eq!(relay.on_response("220 backend ESMTP\r\n"), send("EHLO burngate\r\n"));
    assert_eq!(relay.on_response("250-backend\r\n"), RelayAction::Receive);
    assert_eq!(relay.on_response("250-SIZE 1000\r\n"), RelayAction::Receive);
    assert_eq!(relay.on_response("250 OK\r\n"), send("MAIL FROM:<bob@x.com>\r\n"));
    assert_eq!(relay.on_response("250 OK\r\n"), send("RCPT TO:<a@tempy.email>\r\n"));
    assert_eq!(relay.phase(), RelayPhase::Rcpt(0));
    assert_eq!(relay.on_response("250 OK\r\n"), send("RCPT TO:<b@tempy.email>\r\n"));
    assert_eq!(relay.on_response("250 OK\r\n"), send("DATA\r\n"));
    assert_eq!(
        relay.on_response("354 go ahead\r\n"),
        RelayAction::SendBody(b"hi\r\n.\r\n".to_vec())
    );
    assert_eq!(relay.on_response("250 queued\r\n"), RelayAction::Finish("QUIT\r\n".to_string()));
    assert_eq!(relay.phase(), RelayPhase::Done);
    assert!(!relay.is_active());
}

#[test]
fn relay_ignores_what_the_backend_says_to_a_recipient() {
    let mut relay = client(&["a@tempy.email", "b@tempy.email"], b"x");
    relay.on_response("220 ok\r\n");
    relay.on_response("250 ok\r\n");
    relay.on_response("250 ok\r\n");
    assert_eq!(relay.on_response("550 no such user\r\n"), send("RCPT TO:<b@tempy.email>\r\n"));
    assert_eq!(relay.on_response(""), send("DATA\r\n"));
    assert_eq!(relay.phase(), RelayPhase::Data);
}

#[test]
fn relay_without_recipients_goes_straight_to_data() {
    let mut relay = client(&[], b"x");
    relay.on_response("220 ok\r\n");
    relay.on_response("250 ok\r\n");
    assert_eq!(relay.on_response("250 ok\r\n"), send("DATA\r\n"));
}

#[test]
fn relay_refused_mail_from() {
    let mut relay = client(&["a@tempy.email"], b"x");
    relay.on_response("220 ok\r\n");
    relay.on_response("250 ok\r\n");
    assert_eq!(
        relay.on_response("550 5.7.1 sender refused\r\n"),
        protocol("MAIL FROM rejected: 550 5.7.1 sender refused")
    );
    assert_eq!(relay.phase(), RelayPhase::Failed);
    assert!(!relay.is_active());
}

#[test]
fn relay_unexpected_banner() {
    let mut relay = client(&["a@tempy.email"], b"x");
    assert_eq!(
        relay.on_response("554 go away\r\n"),
        protocol("unexpected banner: 554 go away")
    );
    let mut relay = client(&["a@tempy.email"], b"x");
    assert_eq!(relay.on_response(""), protocol("unexpected banner: "));
}

#[test]
fn relay_short_hello_response() {
    let mut relay = client(&["a@tempy.email"], b"x");
    relay.on_response("220 ok\r\n");
    assert_eq!(relay.on_response("25\n"), protocol("short EHLO response: 25"));
    assert_eq!(relay.phase(), RelayPhase::Failed);
}

#[test]
fn relay_hello_response_of_four_characters() {
    let mut relay = client(&["a@tempy.email"], b"x");
    relay.on_response("220 ok\r\n");
    assert_eq!(relay.on_response("250\r\n"), RelayAction::Receive);
    assert_eq!(relay.on_response("xyz hello\r\n"), send("MAIL FROM:<bob@x.com>\r\n"));
}

#[test]
fn relay_data_not_accepted() {
    let mut relay = client(&[], b"x");
    relay.on_response("220 ok\r\n");
    relay.on_response("250 ok\r\n");
    relay.on_response("250 ok\r\n");
    assert_eq!(relay.on_response("250 ok\r\n"), protocol("DATA not accepted: 250 ok"));
}

#[test]
fn relay_message_not_accepted() {
    let mut relay = client(&[], b"x");
    relay.on_response("220 ok\r\n");
    relay.on_response("250 ok\r\n");
    relay.on_response("250 ok\r\n");
    relay.on_response("354 ok\r\n");
    assert_eq!(
        relay.on_response("  452 too much mail \r\n"),
        protocol("message not accepted: 452 too much mail")
    );
}

#[test]
fn relay_names_itself_as_configured() {
    let mut relay = RelayClient::new("mx.tempy.email".to_string(), String::new(), vec![], vec![]);
    assert_eq!(relay.on_response("220 ok\r\n"), send("EHLO mx.tempy.email\r\n"));
    relay.on_response("250 ok\r\n");
    // no sender
    let mut relay = RelayClient::new("gw".to_string(), String::new(), vec![], vec![]);
    relay.on_response("220 ok\r\n");
    assert_eq!(relay.on_response("250 ok\r\n"), send("MAIL FROM:<>\r\n"));
}

#[test]
fn relay_that_is_over_only_waits() {
    let mut relay = client(&[], b"x");
    relay.on_response("500 no\r\n");
    assert_eq!(relay.on_response("220 ok\r\n"), RelayAction::Receive);
    assert_eq!(relay.phase(), RelayPhase::Failed);
}

#[test]
fn response_codes() {
    assert_eq!(response_code("220 ready"), 220);
    assert_eq!(response_code("250-continued"), 250);
    assert_eq!(response_code("354"), 354);
    assert_eq!(response_code("007"), 7);
    assert_eq!(response_code("999x"), 999);
    assert_eq!(response_code("+25 ok"), 25);
    assert_eq!(response_code("-25 ok"), 0);
    assert_eq!(response_code("25"), 0);
    assert_eq!(response_code(""), 0);
    assert_eq!(response_code(" 250 ok"), 0);
    assert_eq!(response_code("2x0 ok"), 0);
    assert_eq!(response_code("\u{fc}50 ok"), 0);
    assert_eq!(response_code("\u{663}\u{662}\u{661}"), 0);
}

#[test]
fn payload_adds_what_is_missing() {
    assert_eq!(build_payload(&b"hi\r\n".to_vec()), b"hi\r\n.\r\n".to_vec());
    assert_eq!(build_payload(&b"hi".to_vec()), b"hi\r\n.\r\n".to_vec());
    assert_eq!(build_payload(&b"hi\n".to_vec()), b"hi\n\r\n.\r\n".to_vec());
    assert_eq!(build_payload(&b"".to_vec()), b"\r\n.\r\n".to_vec());
    assert_eq!(build_payload(&b"\r\n".to_vec()), b"\r\n.\r\n".to_vec());
    assert_eq!(build_payload(&b"..leading\r\n".to_vec()), b"..leading\r\n.\r\n".to_vec());
}

#[test]
fn body_round_trip() {
    let body = b"Subject: x\r\n\r\n..dots\r\nbare\nlast\r\n".to_vec();
    let mut wire = body.clone();
    wire.extend_from_slice(b".\r\n");
    let mut reader = Cursor::new(wire.clone());
    let read = read_data(&mut reader, body.len()).unwrap();
    assert_eq!(read, body);
    assert_eq!(build_payload(&read), wire);
}

#[test]
fn error_messages() {
    assert_eq!(RelayError::Connect("refused".to_string()).message(), "connection failed: refused");
    assert_eq!(RelayError::Io("broken pipe".to_string()).message(), "I/O error: broken pipe");
    assert_eq!(RelayError::Protocol("bad".to_string()).message(), "protocol error: bad");
}
