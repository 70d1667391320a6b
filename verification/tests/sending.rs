use rs_mailserver::cli::{parse_args, Invocation};
use rs_mailserver::email::Email;
use rs_mailserver::protocol::{RESP_BUSY_ERROR, RESP_OK};
use rs_mailserver::reading::ReadOutcome;
use rs_mailserver::sender::{check_response, SendStep, Sender, Stage};
use rs_mailserver::server::{
    server_step, started_message, worker_step, ServerEvent, ServerStep, WorkerEvent, WorkerStep,
};
use rs_mailserver::session::{start, Outcome, SendOutcome, Step};

fn sender() -> Sender {
    Sender::new(
        "from@yourdomain.com".to_string(),
        "to@yourdomain.com".to_string(),
        "email contents to send".to_string(),
    )
}

#[test]
fn a_sent_mail_arrives() {
    let mut server = match start("yourdomain.com".to_string(), 15_000) {
        Step::Write(writing) => writing.resume(true),
        other => panic!("no greeting: {:?}", other),
    };
    let mut client = sender();
    let mut delivered: Vec<Email> = Vec::new();
    loop {
        for piece in client.command().chunks(7) {
            server = match server {
                Step::Read(reading) => reading.resume(ReadOutcome::Bytes(piece.to_vec())),
                other => panic!("not waiting: {:?}", other),
            };
        }
        server = match server {
            Step::Read(reading) => reading.resume(ReadOutcome::TimedOut),
            other => panic!("not waiting: {:?}", other),
        };
        if let Step::Run(command) = server {
            assert!(command.is_text());
            server = command.run();
        }
        if let Step::Deliver(delivering) = server {
            delivered.push(delivering.email.clone());
            server = delivering.resume(SendOutcome::Sent);
        }
        let answer = match server {
            Step::Write(writing) => {
                let bytes = writing.bytes.clone();
                server = writing.resume(true);
                bytes
            }
            other => panic!("no answer: {:?}", other),
        };
        match client.resume(&answer) {
            SendStep::Exchange(next) => client = next,
            SendStep::Sent => break,
            SendStep::Refused(message) => panic!("{}", message),
        }
    }
    assert!(matches!(server, Step::End(Outcome::Closed(Ok(())))));
    assert_eq!(delivered.len(), 1);
    assert_eq!(delivered[0].mail_from, "from@yourdomain.com");
    assert_eq!(delivered[0].mail_to, "to@yourdomain.com");
    assert_eq!(delivered[0].mail_content, "email contents to send");
}

#[test]
fn the_client_says_its_lines() {
    let lines = [
        ("HELO rs-mailserver-sender\r\n", "250 Ok\r\n"),
        ("MAIL FROM:<from@yourdomain.com>\r\n", "250 Ok\r\n"),
        ("RCPT TO:<to@yourdomain.com>\r\n", "250 Ok\r\n"),
        ("DATA\r\n", "354 End data with <CR><LF>.<CR><LF>\r\n"),
        ("email contents to send\r\n.\r\n", "250 Ok\r\n"),
        ("QUIT\r\n", "221 Bye\r\n"),
    ];
    let mut client = sender();
    assert_eq!(client.stage, Stage::Helo);
    for (index, (command, expected)) in lines.iter().enumerate() {
        assert_eq!(client.command(), command.as_bytes());
        assert_eq!(client.expected(), *expected);
        match client.resume(expected.as_bytes()) {
            SendStep::Exchange(next) => client = next,
            SendStep::Sent => {
                assert_eq!(index, 5);
                return;
            }
            SendStep::Refused(message) => panic!("{}", message),
        }
    }
    panic!("the client never finishes");
}

#[test]
fn the_client_gives_up_on_other_answers() {
    match sender().resume(RESP_BUSY_ERROR.as_bytes()) {
        SendStep::Refused(message) => assert_eq!(
            message,
            "Unexpected response from server: 450 mailbox unavailable\r\n"
        ),
        other => panic!("unexpected: {:?}", other),
    }
    assert_eq!(check_response(RESP_OK, b"250 Ok\r\n"), Ok(()));
    assert_eq!(
        check_response(RESP_OK, b""),
        Err("Unexpected response from server: ".to_string())
    );
}

#[test]
fn the_server_says_where_it_listens() {
    assert_eq!(
        started_message("0.0.0.0:25", "yourdomain.com"),
        "SMTP Server started. Listening to 0.0.0.0:25 (yourdomain.com)"
    );
}

#[test]
fn the_server_and_its_worker_go_on_until_told_otherwise() {
    assert_eq!(server_step(ServerEvent::Accepted), ServerStep::Serve);
    assert_eq!(server_step(ServerEvent::Cancelled), ServerStep::Stop);
    let mut email = Email::new();
    email.mail_from = "bob@example.org".to_string();
    match worker_step(WorkerEvent::Received(email)) {
        WorkerStep::Publish(email) => assert_eq!(email.mail_from, "bob@example.org"),
        other => panic!("unexpected: {:?}", other),
    }
    assert!(matches!(worker_step(WorkerEvent::Dropped), WorkerStep::ReportDropped));
    assert!(matches!(worker_step(WorkerEvent::Cancelled), WorkerStep::Stop));
}

fn parse(args: &[&str]) -> Invocation {
    parse_args(&args.iter().map(|arg| arg.to_string()).collect())
}

#[test]
fn the_command_line_is_read() {
    match parse(&["send", "localhost:25", "from@a", "to@b", "contents"]) {
        Invocation::Send { srv_addr, mail_from, mail_to, mail_content } => {
            assert_eq!(srv_addr, "localhost:25");
            assert_eq!(mail_from, "from@a");
            assert_eq!(mail_to, "to@b");
            assert_eq!(mail_content, "contents");
        }
        other => panic!("unexpected: {:?}", other),
    }
    match parse(&["recv", "yourdomain.com"]) {
        Invocation::Recv { domain, redis_addr, listen_addr } => {
            assert_eq!(domain, "yourdomain.com");
            assert_eq!(redis_addr, None);
            assert_eq!(listen_addr, "0.0.0.0:25");
        }
        other => panic!("unexpected: {:?}", other),
    }
    match parse(&["recv", "yourdomain.com", "redis://localhost:6379", "127.0.0.1:2525"]) {
        Invocation::Recv { domain, redis_addr, listen_addr } => {
            assert_eq!(domain, "yourdomain.com");
            assert_eq!(redis_addr, Some("redis://localhost:6379".to_string()));
            assert_eq!(listen_addr, "127.0.0.1:2525");
        }
        other => panic!("unexpected: {:?}", other),
    }
    match parse(&["recv", "a", "b", "c", "d"]) {
        Invocation::Recv { listen_addr, .. } => assert_eq!(listen_addr, "c"),
        other => panic!("unexpected: {:?}", other),
    }
    assert!(matches!(
        parse(&["send", "s", "f", "t", "c", "more"]),
        Invocation::Send { .. }
    ));
    assert!(matches!(parse(&["recv"]), Invocation::DomainRequired));
    assert!(matches!(parse(&["help"]), Invocation::Help));
    assert!(matches!(parse(&[]), Invocation::Help));
    assert!(matches!(parse(&["send", "a"]), Invocation::Help));
}
