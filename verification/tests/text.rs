use rs_mailserver::address::parse_address;
use rs_mailserver::email::Email;
use rs_mailserver::protocol::{SmtpError, SmtpState};
use rs_mailserver::text::{chars_of, ends_with, first_words, same_text, strip_prefix, trim_brackets};
use rs_mailserver::verb::{is_admitted, parse_operand, verb_of, Verb};

#[test]
fn new_mail_is_not_valid() {
    let email = Email::new();
    assert!(!email.is_valid());
    assert_eq!(email.mail_from, "");
    assert_eq!(email.mail_to, "");
    assert_eq!(email.mail_content, "");
}

#[test]
fn valid_mails_have_all_three_parts() {
    for missing in 0..4 {
        let part = |index: i32| if index == missing { String::new() } else { "x".to_string() };
        let email = Email { mail_from: part(0), mail_to: part(1), mail_content: part(2) };
        assert_eq!(email.is_valid(), missing == 3);
        assert_eq!(email.clone().is_valid(), missing == 3);
    }
}

#[test]
fn white_space_is_what_unicode_says() {
    let listed = |c: char| {
        matches!(c as u32,
            0x9..=0xd | 0x20 | 0x85 | 0xa0 | 0x1680 | 0x2000..=0x200a | 0x2028 | 0x2029 | 0x202f
            | 0x205f | 0x3000)
    };
    for code in 0..=0x10ffffu32 {
        if let Some(c) = char::from_u32(code) {
            assert_eq!(c.is_whitespace(), listed(c), "{:x}", code);
        }
    }
    let text = "\u{85}one\u{3000}two\u{2003}three";
    assert_eq!(first_words(text), (Some("one".to_string()), Some("two".to_string())));
}

#[test]
fn words_are_found() {
    assert_eq!(first_words(""), (None, None));
    assert_eq!(first_words(" \r\n"), (None, None));
    assert_eq!(first_words("QUIT"), (Some("QUIT".to_string()), None));
    assert_eq!(
        first_words("\tMAIL  FROM:<\u{e9}@x> SIZE=3\r\n"),
        (Some("MAIL".to_string()), Some("FROM:<\u{e9}@x>".to_string()))
    );
}

#[test]
fn texts_are_compared_and_cut() {
    assert_eq!(chars_of("a\u{e9}b"), vec!['a', '\u{e9}', 'b']);
    assert!(same_text("HELO", "HELO"));
    assert!(!same_text("HELO", "HELP"));
    assert!(!same_text("HELO", "HEL"));
    assert_eq!(strip_prefix("FROM:<a>", "FROM:"), Some("<a>".to_string()));
    assert_eq!(strip_prefix("FROM:", "FROM:"), Some(String::new()));
    assert_eq!(strip_prefix("FRO", "FROM:"), None);
    assert_eq!(strip_prefix("from:<a>", "FROM:"), None);
    assert_eq!(trim_brackets("<a@b>"), "a@b");
    assert_eq!(trim_brackets("><<a<>b>"), "a<>b");
    assert_eq!(trim_brackets("<>"), "");
    assert_eq!(trim_brackets("a"), "a");
    assert!(ends_with(&b"NOOP\r\n".to_vec(), "\r\n"));
    assert!(!ends_with(&b"NOOP\n\r".to_vec(), "\r\n"));
    assert!(!ends_with(&b"\n".to_vec(), "\r\n"));
}

#[test]
fn addresses_are_read() {
    assert_eq!(parse_address("bob@example.org"), Some("bob@example.org".to_string()));
    assert_eq!(parse_address("a.b+c@example"), Some("a.b+c@example".to_string()));
    assert_eq!(parse_address(""), None);
    assert_eq!(parse_address("bob"), None);
    assert_eq!(parse_address("@example.org"), None);
    assert_eq!(parse_address("bob@"), None);
    assert_eq!(parse_address("bob..b@example.org"), None);
    assert_eq!(parse_address("bob@-example.org"), None);
}

#[test]
fn verbs_are_found() {
    assert_eq!(verb_of("HELO"), Verb::Helo);
    assert_eq!(verb_of("EHLO"), Verb::Ehlo);
    assert_eq!(verb_of("AUTH"), Verb::Auth);
    for word in ["NOOP", "HELP", "INFO", "VRFY", "EXPN"] {
        assert_eq!(verb_of(word), Verb::Noop);
    }
    assert_eq!(verb_of("MAIL"), Verb::Mail);
    assert_eq!(verb_of("RCPT"), Verb::Rcpt);
    assert_eq!(verb_of("DATA"), Verb::Data);
    assert_eq!(verb_of("RSET"), Verb::Rset);
    assert_eq!(verb_of("QUIT"), Verb::Quit);
    assert_eq!(verb_of("quit"), Verb::Unknown);
    assert!(is_admitted(SmtpState::SmtpStateAwaitFrom, Verb::Mail));
    assert!(!is_admitted(SmtpState::SmtpStateAwaitGreet, Verb::Mail));
    assert!(is_admitted(SmtpState::SmtpStateAwaitRcpt, Verb::Rcpt));
    assert!(!is_admitted(SmtpState::SmtpStateAwaitRcpt, Verb::Data));
    assert!(!is_admitted(SmtpState::SmtpStateAwaitGreet, Verb::Unknown));
}

#[test]
fn operands_are_read() {
    let argument = Some("FROM:<bob@example.org>".to_string());
    assert_eq!(
        parse_operand(&argument, "FROM:", "MAIL FROM").unwrap(),
        "<bob@example.org>"
    );
    for argument in [None, Some("FROM:".to_string()), Some("TO:<a@b>".to_string())] {
        match parse_operand(&argument, "FROM:", "MAIL FROM") {
            Err(SmtpError::CommandParsingError(name)) => assert_eq!(name, "MAIL FROM"),
            other => panic!("unexpected: {:?}", other),
        }
    }
}

#[test]
fn states_have_their_names() {
    assert_eq!(SmtpState::SmtpStateAwaitGreet.name(), "SmtpStateAwaitGreet");
    assert_eq!(SmtpState::SmtpStateAwaitFrom.name(), "SmtpStateAwaitFrom");
    assert_eq!(SmtpState::SmtpStateAwaitRcpt.name(), "SmtpStateAwaitRcpt");
    assert_eq!(SmtpState::SmtpStateAwaitDataOrRcpt.name(), "SmtpStateAwaitDataOrRcpt");
    assert_eq!(SmtpState::SmtpStateAwaitData.name(), "SmtpStateAwaitData");
}
