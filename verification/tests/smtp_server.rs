use rs_mailserver::email::Email;
use rs_mailserver::protocol::{
    SmtpError, EMAIL_TERM, MAX_SOCKET_READ_BYTES, RESP_AUTH_OK, RESP_BUSY_ERROR, RESP_BYE,
    RESP_END_DATA_WITH, RESP_MAILSERVER_GREET, RESP_OK, RESP_SERVICE_UNAVAILABLE,
    RESP_SYNTAX_ERROR, RESP_UNKNOWN_COMMAND,
};
use rs_mailserver::reading::{ReadOutcome, SessionError};
use rs_mailserver::session::{start, Outcome, SendOutcome, Step};

/// A client whose bytes reach the server in pieces of the size that a socket is read in.
struct Client {
    step: Option<Step>,
    delivered: Vec<Email>,
    outcome: SendOutcome,
}

impl Client {
    fn connect(timeout_ms: u64) -> Client {
        let mut client = Client {
            step: Some(start("testserver".to_string(), timeout_ms)),
            delivered: Vec::new(),
            outcome: SendOutcome::Sent,
        };
        assert_eq!(client.receive(), RESP_MAILSERVER_GREET.as_bytes());
        client
    }

    /// Runs the server until it waits for bytes or is done, and gives what it has sent.
    fn receive(&mut self) -> Vec<u8> {
        let mut received = Vec::new();
        loop {
            let step = self.step.take().unwrap();
            self.step = Some(match step {
                Step::Write(writing) => {
                    received.extend_from_slice(&writing.bytes);
                    writing.resume(true)
                }
                Step::Deliver(delivering) => {
                    if self.outcome == SendOutcome::Sent {
                        self.delivered.push(delivering.email.clone());
                    }
                    delivering.resume(self.outcome)
                }
                Step::Run(command) => {
                    assert!(command.is_text());
                    command.run()
                }
                waiting => {
                    self.step = Some(waiting);
                    return received;
                }
            });
        }
    }

    fn wait(&mut self, outcome: ReadOutcome) {
        self.step = Some(match self.step.take().unwrap() {
            Step::Read(reading) => reading.resume(outcome),
            other => panic!("the server does not wait for bytes: {:?}", other),
        });
    }

    fn timeout_ms(&self) -> u64 {
        match &self.step {
            Some(Step::Read(reading)) => reading.timeout_ms(),
            other => panic!("the server does not wait for bytes: {:?}", other),
        }
    }

    fn send(&mut self, bytes: &[u8]) {
        for piece in bytes.chunks(4096) {
            if !matches!(self.step, Some(Step::Read(_))) {
                return;
            }
            self.wait(ReadOutcome::Bytes(piece.to_vec()));
        }
    }

    fn send_and_recv(&mut self, command: &[u8], expect: &str) {
        self.send(command);
        self.wait(ReadOutcome::TimedOut);
        let received = self.receive();
        assert_eq!(std::str::from_utf8(&received).unwrap(), expect);
    }

    fn expect_end(&self) -> &Outcome {
        match &self.step {
            Some(Step::End(outcome)) => outcome,
            other => panic!("the conversation goes on: {:?}", other),
        }
    }

    fn expect_error(&self, error: &str) {
        match self.expect_end() {
            Outcome::Closed(Err(SessionError::Smtp(e))) => assert_eq!(e.message(), error),
            other => panic!("unexpected outcome: {:?}", other),
        }
    }

    fn announce(&mut self) {
        self.send_and_recv(b"HELO rs-mailserver-tester\r\n", RESP_OK);
        self.send_and_recv(b"MAIL FROM:<bob@example.org>\r\n", RESP_OK);
        self.send_and_recv(b"RCPT TO:<alice@example.com>\r\n", RESP_OK);
        self.send_and_recv(b"DATA\r\n", RESP_END_DATA_WITH);
    }
}

#[test]
fn it_connects_to_smtp_server_and_completes_mail_exchange() {
    let mut client = Client::connect(15 * 1000);
    client.send_and_recv(b"HELO rs-mailserver-tester\r\n", RESP_OK);
    client.send_and_recv(b"MAIL FROM:<bob@example.org>\r\n", RESP_OK);
    client.send_and_recv(b"RCPT TO:<alice@example.com>\r\n", RESP_OK);
    client.send_and_recv(b"RCPT TO:<theboss@example.com>\r\n", RESP_OK);
    client.send_and_recv(b"DATA\r\n", RESP_END_DATA_WITH);

    let mail_data = b"From: \"Bob Example\" <bob@example.org>
To: \"Alice Example\" <alice@example.com>
Cc: theboss@example.com
Date: Tue, 15 Jan 2008 16:02:43 -0500
Subject: Test message

Hello Alice.
This is a test message with 5 header fields and 4 lines in the message body.
Your friend,
Bob\r\n.\r\n";
    client.send_and_recv(mail_data, RESP_OK);
    client.send_and_recv(b"QUIT\r\n", RESP_BYE);
    assert!(matches!(client.expect_end(), Outcome::Closed(Ok(()))));

    assert_eq!(client.delivered.len(), 1);
    let received_email = &client.delivered[0];
    assert_eq!(received_email.is_valid(), true, "Expected receiver to receive a valid email");
    assert_eq!(
        received_email.mail_from, "bob@example.org",
        "Expected receiver to have correct mail_from"
    );
    assert_eq!(
        received_email.mail_to, "alice@example.com",
        "Expected receiver to have correct mail_to"
    );
    assert_eq!(
        received_email.mail_content.as_bytes(),
        &mail_data[..mail_data.len() - EMAIL_TERM.len()]
    );
}

#[test]
fn it_connects_to_smtp_server_and_uses_esmtp() {
    let mut client = Client::connect(15 * 1000);
    let ehlo_resp = "250-testserver Hello rs-mailserver-tester\r\n250 AUTH PLAIN LOGIN\r\n";
    client.send_and_recv(b"EHLO rs-mailserver-tester\r\n", ehlo_resp);
    client.send_and_recv(b"AUTH\r\n", RESP_AUTH_OK);
    client.send_and_recv(b"RSET\r\n", RESP_OK);
    client.send_and_recv(b"MAIL FROM:<bob@example.org>\r\n", RESP_UNKNOWN_COMMAND);
    client.send_and_recv(b"EHLO rs-mailserver-tester\r\n", ehlo_resp);
    client.send_and_recv(b"MAIL FROM:<bob@example.org>\r\n", RESP_OK);
    let commands = ["NOOP\r\n", "HELP\r\n", "INFO\r\n", "VRFY\r\n", "EXPN\r\n"];
    for cmd in commands {
        client.send_and_recv(cmd.as_bytes(), RESP_OK);
    }
}

#[test]
fn it_responds_correctly_to_unknown_command() {
    let mut client = Client::connect(15 * 1000);
    client.send_and_recv(b"FOO 123\r\n", RESP_UNKNOWN_COMMAND);
}

#[test]
fn it_responds_correctly_to_empty_command() {
    let mut client = Client::connect(15 * 1000);
    client.send(b"\r\n");
    client.send_and_recv(b"\r\n", RESP_SYNTAX_ERROR);
    assert!(matches!(
        client.expect_end(),
        Outcome::Closed(Err(SessionError::EmptyCommand))
    ));
}

#[test]
fn it_responds_correctly_to_missing_command_args() {
    let mut client = Client::connect(15 * 1000);
    client.send_and_recv(b"HELO\r\n", RESP_SYNTAX_ERROR);
    client.send_and_recv(b"HELO rs-mailserver-tester\r\n", RESP_OK);
    client.send_and_recv(b"MAIL\r\n", RESP_SYNTAX_ERROR);
    client.send_and_recv(b"MAIL FROM:\r\n", RESP_SYNTAX_ERROR);
    client.send_and_recv(b"MAIL FROM:<bob@example.org>\r\n", RESP_OK);
    client.send_and_recv(b"RCPT\r\n", RESP_SYNTAX_ERROR);
    client.send_and_recv(b"RCPT TO:\r\n", RESP_SYNTAX_ERROR);
    client.send_and_recv(b"RCPT TO:<alice@example.com>\r\n", RESP_OK);
}

#[test]
fn it_responds_correctly_to_out_of_order_commands() {
    let mut client = Client::connect(15 * 1000);
    client.send_and_recv(b"MAIL FROM:<bob@example.org>\r\n", RESP_UNKNOWN_COMMAND);
    client.send_and_recv(b"HELO rs-mailserver-tester\r\n", RESP_OK);
    client.send_and_recv(b"MAIL FROM:<bob@example.org>\r\n", RESP_OK);
    client.send_and_recv(b"DATA\r\n", RESP_UNKNOWN_COMMAND);
}

#[test]
fn it_timeouts_idle_connection() {
    let mut client = Client::connect(100);
    client.send_and_recv(b"HELO rs-mailserver-tester\r\n", RESP_OK);
    assert_eq!(client.timeout_ms(), 100);
    client.wait(ReadOutcome::TimedOut);
    client.expect_error("no content received before timeout");

    let mut client = Client::connect(100);
    assert_eq!(client.timeout_ms(), 100);
    client.wait(ReadOutcome::TimedOut);
    client.expect_error("no content received before timeout");
}

#[test]
fn it_aborts_connection_on_too_large_payload() {
    let mut garbage_buffer = vec![b'A'; MAX_SOCKET_READ_BYTES + 1];
    let helo = b"HELO ";
    for (index, byte) in helo.iter().enumerate() {
        garbage_buffer[index] = *byte;
    }
    let gb_len = garbage_buffer.len();
    garbage_buffer[gb_len - 2] = b'\r';
    garbage_buffer[gb_len - 1] = b'\n';

    let mut client = Client::connect(15 * 1000);
    client.send(garbage_buffer.as_slice());
    client.expect_error("socket payload too large");

    let mut client = Client::connect(15 * 1000);
    client.send_and_recv(b"HELO rs-mailserver-tester\r\n", RESP_OK);
    client.send_and_recv(b"MAIL FROM:<bob@example.org>\r\n", RESP_OK);
    client.send_and_recv(b"RCPT TO:<alice@example.com>\r\n", RESP_OK);
    client.send_and_recv(b"DATA\r\n", RESP_END_DATA_WITH);
    client.send(garbage_buffer.as_slice());
    client.expect_error("socket payload too large");
}

#[test]
fn it_closes_server_with_cancellation_token() {
    let mut client = Client::connect(15 * 1000);
    client.wait(ReadOutcome::Cancelled);
    client.expect_error("server shutting down");
}

#[test]
fn the_limit_counts_the_bytes_of_one_read_twice() {
    let mut client = Client::connect(100);
    client.wait(ReadOutcome::Bytes(vec![b'A'; MAX_SOCKET_READ_BYTES - 1]));
    assert_eq!(client.timeout_ms(), 10);

    let mut client = Client::connect(100);
    client.wait(ReadOutcome::Bytes(vec![b'A'; MAX_SOCKET_READ_BYTES]));
    client.expect_error("socket payload too large");

    let mut client = Client::connect(100);
    client.wait(ReadOutcome::Bytes(vec![b'A'; 200_000]));
    client.wait(ReadOutcome::Bytes(vec![b'A'; 111_999]));
    assert_eq!(client.timeout_ms(), 10);

    let mut client = Client::connect(100);
    client.wait(ReadOutcome::Bytes(vec![b'A'; 200_000]));
    client.wait(ReadOutcome::Bytes(vec![b'A'; 112_000]));
    client.expect_error("socket payload too large");
}

#[test]
fn commands_may_come_in_pieces_and_with_pauses() {
    let mut client = Client::connect(300);
    client.send(b"HE");
    client.send(b"LO a");
    client.wait(ReadOutcome::TimedOut);
    assert_eq!(client.timeout_ms(), 300);
    client.send(b"bc\r");
    client.wait(ReadOutcome::TimedOut);
    client.send_and_recv(b"\n", RESP_OK);

    // A client that stops sending has said all it had to say.
    client.send(b"NOOP");
    client.wait(ReadOutcome::Bytes(Vec::new()));
    client.wait(ReadOutcome::Bytes(Vec::new()));
    assert_eq!(client.receive(), RESP_OK.as_bytes());
}

#[test]
fn contents_may_come_with_pauses() {
    let mut client = Client::connect(300);
    client.announce();
    assert_eq!(client.timeout_ms(), 5000);
    client.send(b"first\r\n");
    assert_eq!(client.timeout_ms(), 10);
    client.wait(ReadOutcome::TimedOut);
    assert_eq!(client.timeout_ms(), 5000);
    client.send(b"second\r\n.");
    client.wait(ReadOutcome::TimedOut);
    client.send_and_recv(b"\r\n", RESP_OK);
    assert_eq!(client.delivered[0].mail_content, "first\r\nsecond");
}

#[test]
fn refused_addresses_leave_the_command_in_the_buffer() {
    let mut client = Client::connect(300);
    client.send_and_recv(b"HELO tester\r\n", RESP_OK);
    client.send_and_recv(b"MAIL FROM:<bob>\r\n", RESP_SYNTAX_ERROR);
    // Six bytes have come, and the first six in the buffer are "MAIL F".
    client.send_and_recv(b"NOOP\r\n", RESP_SYNTAX_ERROR);
    client.send_and_recv(b"NOOP\r\n", RESP_OK);
    client.send_and_recv(b"MAIL FROM:<bob@example.org>\r\n", RESP_OK);
    client.send_and_recv(b"RCPT TO:<@example.org>\r\n", RESP_SYNTAX_ERROR);
    client.send_and_recv(b"QUIT\r\n", RESP_SYNTAX_ERROR);
    client.send_and_recv(b"RCPT TO:alice@example.com\r\n", RESP_OK);
    client.send_and_recv(b"QUIT\r\n", RESP_BYE);
    assert_eq!(client.delivered.len(), 0);
}

#[test]
fn verbs_are_told_apart_by_case() {
    let mut client = Client::connect(300);
    client.send_and_recv(b"helo tester\r\n", RESP_UNKNOWN_COMMAND);
    client.send_and_recv(b"  HELO \t tester more\r\n", RESP_OK);
    client.send_and_recv(b"HELO tester\r\n", RESP_UNKNOWN_COMMAND);
    client.send_and_recv(b"MAIL from:<bob@example.org>\r\n", RESP_SYNTAX_ERROR);
    client.send_and_recv(b"MAIL FROM: <bob@example.org>\r\n", RESP_SYNTAX_ERROR);
    client.send_and_recv(b"MAIL FROM:<<bob@example.org>>\r\n", RESP_OK);
}

#[test]
fn an_empty_content_is_answered_but_not_delivered() {
    let mut client = Client::connect(300);
    client.announce();
    client.send_and_recv(b"\r\n.\r\n", RESP_OK);
    assert_eq!(client.delivered.len(), 0);
    client.send_and_recv(b"DATA\r\n", RESP_UNKNOWN_COMMAND);
}

#[test]
fn a_content_that_is_no_text_is_passed_over_in_silence() {
    let mut client = Client::connect(300);
    client.announce();
    client.send_and_recv(b"\xff\xfe\r\n.\r\n", "");
    assert_eq!(client.delivered.len(), 0);
    assert_eq!(client.timeout_ms(), 300);
    client.send_and_recv(b"HELO again\r\n", RESP_OK);
}

#[test]
fn a_missing_content_is_a_syntax_error() {
    let mut client = Client::connect(300);
    client.announce();
    client.send_and_recv(b"", RESP_SYNTAX_ERROR);
    client.send_and_recv(b"HELO again\r\n", RESP_OK);
}

#[test]
fn a_mail_without_room_is_refused_for_now() {
    let mut client = Client::connect(300);
    client.outcome = SendOutcome::TimedOut;
    client.announce();
    client.send_and_recv(b"hello\r\n.\r\n", RESP_BUSY_ERROR);
    client.outcome = SendOutcome::Sent;
    client.announce();
    client.send_and_recv(b"hello\r\n.\r\n", RESP_OK);
    assert_eq!(client.delivered.len(), 1);
}

#[test]
fn a_mail_that_nobody_takes_ends_the_conversation() {
    for outcome in [SendOutcome::Closed, SendOutcome::Cancelled] {
        let mut client = Client::connect(300);
        client.outcome = outcome;
        client.announce();
        client.send_and_recv(b"hello\r\n.\r\n", RESP_SERVICE_UNAVAILABLE);
        client.expect_error("server shutting down");
    }
}

#[test]
fn a_broken_socket_ends_the_conversation() {
    let mut client = Client::connect(300);
    client.wait(ReadOutcome::Failed);
    assert!(matches!(
        client.expect_end(),
        Outcome::Closed(Err(SessionError::ReadFailed))
    ));

    let mut client = Client::connect(300);
    client.send(b"NOOP\r\n");
    client.wait(ReadOutcome::TimedOut);
    let step = match client.step.take() {
        Some(Step::Run(command)) => command.run(),
        other => panic!("no command: {:?}", other),
    };
    match step {
        Step::Write(writing) => assert!(matches!(
            writing.resume(false),
            Step::End(Outcome::Closed(Err(SessionError::WriteFailed)))
        )),
        other => panic!("no reply: {:?}", other),
    }
}

#[test]
fn a_client_that_cannot_be_greeted_is_abandoned() {
    match start("testserver".to_string(), 300) {
        Step::Write(writing) => assert!(matches!(
            writing.resume(false),
            Step::End(Outcome::Abandoned)
        )),
        other => panic!("no greeting: {:?}", other),
    }
}

#[test]
fn commands_that_are_no_text_are_told_apart() {
    let mut client = Client::connect(300);
    client.send(b"NOOP \xff\r\n");
    client.wait(ReadOutcome::TimedOut);
    match &client.step {
        Some(Step::Run(command)) => assert!(!command.is_text()),
        other => panic!("no command: {:?}", other),
    }
    // The buffer is text, but the command ends in the middle of a character.
    let mut client = Client::connect(300);
    client.send_and_recv(b"HELO tester\r\n", RESP_OK);
    client.send_and_recv("MAIL FROM:<\u{e9}>\r\n".as_bytes(), RESP_SYNTAX_ERROR);
    client.send(b"NOOP 12345\r\n");
    client.wait(ReadOutcome::TimedOut);
    match &client.step {
        Some(Step::Run(command)) => assert!(!command.is_text()),
        other => panic!("no command: {:?}", other),
    }
}

#[test]
fn rset_forgets_the_mail() {
    let mut client = Client::connect(300);
    client.send_and_recv(b"HELO tester\r\n", RESP_OK);
    client.send_and_recv(b"MAIL FROM:<bob@example.org>\r\n", RESP_OK);
    client.send_and_recv(b"RCPT TO:<alice@example.com>\r\n", RESP_OK);
    client.send_and_recv(b"RSET\r\n", RESP_OK);
    client.send_and_recv(b"DATA\r\n", RESP_UNKNOWN_COMMAND);
    client.send_and_recv(b"HELO tester\r\n", RESP_OK);
    client.send_and_recv(b"MAIL FROM:<carol@example.org>\r\n", RESP_OK);
    client.send_and_recv(b"RCPT TO:<dave@example.com>\r\n", RESP_OK);
    client.send_and_recv(b"DATA\r\n", RESP_END_DATA_WITH);
    client.send_and_recv(b"hello\r\n.\r\n", RESP_OK);
    assert_eq!(client.delivered[0].mail_from, "carol@example.org");
    assert_eq!(client.delivered[0].mail_to, "dave@example.com");
}

#[test]
fn errors_have_their_words() {
    assert_eq!(
        SmtpError::CommandParsingError("MAIL FROM".to_string()).message(),
        "invalid syntax for command \"MAIL FROM\""
    );
    assert_eq!(SmtpError::NoContentError.message(), "no content received before timeout");
    assert_eq!(SmtpError::PayloadTooLargeError.message(), "socket payload too large");
    assert_eq!(SmtpError::RateLimitError.message(), "rate limited, channel is too busy");
    assert_eq!(SmtpError::ServerShutdown.message(), "server shutting down");
}

#[test]
fn pieces_do_not_matter() {
    let content = "l\u{f6}ng\r\n.\r\nand more\r\n.\r\n".as_bytes();
    for size in 1..content.len() {
        let mut client = Client::connect(300);
        client.announce();
        for piece in content.chunks(size) {
            client.wait(ReadOutcome::Bytes(piece.to_vec()));
        }
        client.send_and_recv(b"", RESP_OK);
        assert_eq!(client.delivered[0].mail_content, "l\u{f6}ng\r\n.\r\nand more");
    }
}

#[test]
fn a_pause_behind_an_end_marker_ends_the_content() {
    let mut client = Client::connect(300);
    client.announce();
    client.send_and_recv(b"first\r\n.\r\n", RESP_OK);
    client.send_and_recv(b"second\r\n.\r\n", RESP_UNKNOWN_COMMAND);
    assert_eq!(client.delivered.len(), 1);
    assert_eq!(client.delivered[0].mail_content, "first");
}
