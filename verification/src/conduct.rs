//! How the server conducts itself: what it says and does, wherever a conversation waits and
//! whatever comes.

use vstd::prelude::*;
use vstd::string::*;
use vstd::utf8::*;

use crate::address::is_email_address;
use crate::email::EmailView;
use crate::laws::{law_conversations_are_well_formed, opening, Event};
use crate::protocol::{SmtpError, SmtpState, COMMAND_TERM};
use crate::reading::{
    buffer_after, command_after, read_after, ReadCommandView, ReadEvent, ReadMoreView, ReadOutcome,
    SessionError,
};
use crate::rules::send_result;
use crate::session::{
    CommandView, ConversationView, DeliveringView, Next, Outcome, ReadingView, SendOutcome,
    StepView, TargetView, WritingView,
};
use crate::text::{is_white_space, words};
use crate::verb::{operand, Verb};
use crate::wording::{
    law_brackets_come_off, law_end_markers, law_operand, law_two_words, law_verbs_have_their_words,
    law_white_space_has_no_words,
};

verus! {

/// A conversation opens with the greeting, and knows nothing but the whole name of the server and
/// the time it grants.
pub proof fn law_opening(srv_domain: Seq<char>, timeout_ms: u64)
    ensures
        ConversationView::fresh(srv_domain, timeout_ms) == (ConversationView {
            srv_domain,
            timeout_ms,
            state: SmtpState::SmtpStateAwaitGreet,
            email: EmailView {
                mail_from: Seq::empty(),
                mail_to: Seq::empty(),
                mail_content: Seq::empty(),
            },
            buf: Seq::empty(),
        }),
        opening(srv_domain, timeout_ms) == StepView::Write(
            WritingView {
                talk: ConversationView::fresh(srv_domain, timeout_ms),
                bytes: encode_utf8("220 rs-mailserver\r\n"@),
                next: Next::Begin,
            },
        ),
{
}

/// What is sent is the text that was to be said, all of it, and nothing else happens.
pub proof fn law_replies_say_it_all(talk: ConversationView, text: Seq<char>, next: Next)
    ensures
        talk.reply(text, next) matches StepView::Write(writing) && decode_utf8(writing.bytes)
            == text && writing.bytes == encode_utf8(text) && writing.talk == talk && writing.next
            == next,
{
    encode_utf8_decode_utf8(text);
}

/// `AUTH` is answered in the same way at any time, whatever it says, and changes nothing.
pub proof fn law_auth_is_granted(talk: ConversationView, argument: Option<Seq<char>>)
    ensures
        talk.obey(Verb::Auth, argument) == (StepView::Write(
            WritingView { talk, bytes: encode_utf8("235 Ok\n"@), next: Next::Listen },
        )),
{
}

/// `NOOP` and its like are answered in the same way at any time, and change nothing.
pub proof fn law_noop_is_answered(talk: ConversationView, argument: Option<Seq<char>>)
    ensures
        talk.obey(Verb::Noop, argument) == (StepView::Write(
            WritingView { talk, bytes: encode_utf8("250 Ok\r\n"@), next: Next::Listen },
        )),
{
}

/// A client that names itself with `HELO` is answered, and may go on with its mail.
pub proof fn law_helo_is_answered(talk: ConversationView, fqdn: Seq<char>)
    requires
        talk.state is SmtpStateAwaitGreet,
    ensures
        talk.obey(Verb::Helo, Some(fqdn)) == (StepView::Write(
            WritingView {
                talk: ConversationView { state: SmtpState::SmtpStateAwaitFrom, ..talk },
                bytes: encode_utf8("250 Ok\r\n"@),
                next: Next::Listen,
            },
        )),
{
}

/// The answer to `EHLO` is made of the whole name of the server, the whole name of the client and
/// the extensions, each in its place; the client may go on with its mail.
pub proof fn law_ehlo_is_answered(talk: ConversationView, fqdn: Seq<char>)
    requires
        talk.state is SmtpStateAwaitGreet,
    ensures
        talk.obey(Verb::Ehlo, Some(fqdn)) matches StepView::Write(writing) && ({
            let text = decode_utf8(writing.bytes);
            let named = 4int + talk.srv_domain.len();
            let greeted = named + 7 + fqdn.len();
            &&& writing.bytes == encode_utf8(text)
            &&& text.len() == greeted + 24
            &&& text.subrange(0, 4) == "250-"@
            &&& text.subrange(4, named) == talk.srv_domain
            &&& text.subrange(named, named + 7) == " Hello "@
            &&& text.subrange(named + 7, greeted) == fqdn
            &&& text.subrange(greeted, greeted + 24) == "\r\n250 AUTH PLAIN LOGIN\r\n"@
            &&& writing.talk == ConversationView { state: SmtpState::SmtpStateAwaitFrom, ..talk }
            &&& writing.next is Listen
        }),
{
    reveal_strlit("250-");
    reveal_strlit(" Hello ");
    reveal_strlit("\r\n250 AUTH PLAIN LOGIN\r\n");
    let text = "250-"@ + talk.srv_domain + " Hello "@ + fqdn + "\r\n250 AUTH PLAIN LOGIN\r\n"@;
    let named = 4int + talk.srv_domain.len();
    let greeted = named + 7 + fqdn.len();
    encode_utf8_decode_utf8(text);
    assert(text.subrange(0, 4) == "250-"@);
    assert(text.subrange(4, named) == talk.srv_domain);
    assert(text.subrange(named, named + 7) == " Hello "@);
    assert(text.subrange(named + 7, greeted) == fqdn);
    assert(text.subrange(greeted, greeted + 24) == "\r\n250 AUTH PLAIN LOGIN\r\n"@);
}

/// A greeting without a name is malformed, and changes nothing.
pub proof fn law_greetings_need_a_name(talk: ConversationView, verb: Verb)
    requires
        talk.state is SmtpStateAwaitGreet,
        verb is Helo || verb is Ehlo,
    ensures
        talk.obey(verb, None) == (StepView::Write(
            WritingView { talk, bytes: encode_utf8("500 Syntax error\r\n"@), next: Next::Listen },
        )),
{
}

/// `MAIL` reads the address behind `FROM:`, without its brackets. Where it is one, it is
/// kept and answered; where it is none, nothing changes and the command stays in the buffer.
pub proof fn law_mail_reads_the_address(
    talk: ConversationView,
    lead: Seq<char>,
    address: Seq<char>,
    trail: Seq<char>,
)
    requires
        (lead + address + trail).len() > 0,
        forall|i: int| 0 <= i < lead.len() ==> #[trigger] lead[i] == '<' || lead[i] == '>',
        forall|i: int| 0 <= i < trail.len() ==> #[trigger] trail[i] == '<' || trail[i] == '>',
        address.len() > 0 ==> address[0] != '<' && address[0] != '>' && address.last() != '<'
            && address.last() != '>',
    ensures
        ({
            let argument = Some("FROM:"@ + (lead + address + trail));
            let kept = StepView::Write(
                WritingView {
                    talk: ConversationView {
                        state: SmtpState::SmtpStateAwaitRcpt,
                        email: EmailView { mail_from: address, ..talk.email },
                        ..talk
                    },
                    bytes: encode_utf8("250 Ok\r\n"@),
                    next: Next::Listen,
                },
            );
            let refused = StepView::Write(
                WritingView {
                    talk,
                    bytes: encode_utf8("500 Syntax error\r\n"@),
                    next: Next::ListenOn,
                },
            );
            let good = address.contains('@') && is_email_address(address);
            &&& talk.mail(argument) == if good {
                kept
            } else {
                refused
            }
            &&& talk.state is SmtpStateAwaitFrom ==> talk.obey(Verb::Mail, argument) == if good {
                kept
            } else {
                refused
            }
        }),
{
    let bracketed = lead + address + trail;
    law_operand(Some("FROM:"@ + bracketed), "FROM:"@, bracketed);
    law_brackets_come_off(lead, address, trail);
}

/// `MAIL` without `FROM:` and something behind it is malformed, and changes nothing.
pub proof fn law_mail_needs_its_operand(talk: ConversationView, argument: Option<Seq<char>>)
    requires
        argument matches Some(text) ==> text.len() <= 5 || text.take(5) != "FROM:"@,
    ensures
        talk.mail(argument) == (StepView::Write(
            WritingView { talk, bytes: encode_utf8("500 Syntax error\r\n"@), next: Next::Listen },
        )),
        talk.state is SmtpStateAwaitFrom ==> talk.obey(Verb::Mail, argument) == (StepView::Write(
            WritingView { talk, bytes: encode_utf8("500 Syntax error\r\n"@), next: Next::Listen },
        )),
{
    reveal_strlit("FROM:");
    if let Some(rest) = operand(argument, "FROM:"@) {
        law_operand(argument, "FROM:"@, rest);
        let text = argument->0;
        assert(text.take(5) == "FROM:"@);
    }
}

/// `RCPT` reads the address behind `TO:`, without its brackets while no
/// recipient is known. Where it is one, it is
/// kept and answered; where it is none, nothing changes and the command stays in the buffer.
pub proof fn law_rcpt_reads_the_address(
    talk: ConversationView,
    lead: Seq<char>,
    address: Seq<char>,
    trail: Seq<char>,
)
    requires
        (lead + address + trail).len() > 0,
        forall|i: int| 0 <= i < lead.len() ==> #[trigger] lead[i] == '<' || lead[i] == '>',
        forall|i: int| 0 <= i < trail.len() ==> #[trigger] trail[i] == '<' || trail[i] == '>',
        address.len() > 0 ==> address[0] != '<' && address[0] != '>' && address.last() != '<'
            && address.last() != '>',
        talk.email.mail_to.len() == 0,
    ensures
        ({
            let argument = Some("TO:"@ + (lead + address + trail));
            let kept = StepView::Write(
                WritingView {
                    talk: ConversationView {
                        state: SmtpState::SmtpStateAwaitDataOrRcpt,
                        email: EmailView { mail_to: address, ..talk.email },
                        ..talk
                    },
                    bytes: encode_utf8("250 Ok\r\n"@),
                    next: Next::Listen,
                },
            );
            let refused = StepView::Write(
                WritingView {
                    talk,
                    bytes: encode_utf8("500 Syntax error\r\n"@),
                    next: Next::ListenOn,
                },
            );
            let good = address.contains('@') && is_email_address(address);
            &&& talk.rcpt(argument) == if good {
                kept
            } else {
                refused
            }
            &&& (talk.state is SmtpStateAwaitRcpt || talk.state is SmtpStateAwaitDataOrRcpt)
                ==> talk.obey(Verb::Rcpt, argument) == if good {
                kept
            } else {
                refused
            }
        }),
{
    let bracketed = lead + address + trail;
    law_operand(Some("TO:"@ + bracketed), "TO:"@, bracketed);
    law_brackets_come_off(lead, address, trail);
}

/// `RCPT` without `TO:` and something behind it is malformed, and changes nothing.
pub proof fn law_rcpt_needs_its_operand(talk: ConversationView, argument: Option<Seq<char>>)
    requires
        argument matches Some(text) ==> text.len() <= 3 || text.take(3) != "TO:"@,
    ensures
        talk.rcpt(argument) == (StepView::Write(
            WritingView { talk, bytes: encode_utf8("500 Syntax error\r\n"@), next: Next::Listen },
        )),
        (talk.state is SmtpStateAwaitRcpt || talk.state is SmtpStateAwaitDataOrRcpt)
            ==> talk.obey(Verb::Rcpt, argument) == (StepView::Write(
            WritingView { talk, bytes: encode_utf8("500 Syntax error\r\n"@), next: Next::Listen },
        )),
{
    reveal_strlit("TO:");
    if let Some(rest) = operand(argument, "TO:"@) {
        law_operand(argument, "TO:"@, rest);
        let text = argument->0;
        assert(text.take(3) == "TO:"@);
    }
}

/// Once a recipient is known, another one is answered, whatever it is, and not kept.
pub proof fn law_further_recipients_are_not_kept(talk: ConversationView, to: Seq<char>)
    requires
        talk.email.mail_to.len() > 0,
        to.len() > 0,
    ensures
        ({
            let step = StepView::Write(
                WritingView {
                    talk: ConversationView { state: SmtpState::SmtpStateAwaitDataOrRcpt, ..talk },
                    bytes: encode_utf8("250 Ok\r\n"@),
                    next: Next::Listen,
                },
            );
            &&& talk.rcpt(Some("TO:"@ + to)) == step
            &&& (talk.state is SmtpStateAwaitRcpt || talk.state is SmtpStateAwaitDataOrRcpt)
                ==> talk.obey(Verb::Rcpt, Some("TO:"@ + to)) == step
        }),
{
    law_operand(Some("TO:"@ + to), "TO:"@, to);
}

/// An address that was read is kept as the sender or as the recipient, whichever it is of, and
/// the next part of the mail is awaited; without one nothing changes.
pub proof fn law_addresses_are_kept(talk: ConversationView, address: Seq<char>)
    ensures
        talk.sender(Some(address)) == StepView::Write(
            WritingView {
                talk: ConversationView {
                    state: SmtpState::SmtpStateAwaitRcpt,
                    email: EmailView { mail_from: address, ..talk.email },
                    ..talk
                },
                bytes: encode_utf8("250 Ok\r\n"@),
                next: Next::Listen,
            },
        ),
        talk.recipient(Some(address)) == StepView::Write(
            WritingView {
                talk: ConversationView {
                    state: SmtpState::SmtpStateAwaitDataOrRcpt,
                    email: EmailView { mail_to: address, ..talk.email },
                    ..talk
                },
                bytes: encode_utf8("250 Ok\r\n"@),
                next: Next::Listen,
            },
        ),
        talk.sender(None) == StepView::Write(
            WritingView {
                talk,
                bytes: encode_utf8("500 Syntax error\r\n"@),
                next: Next::ListenOn,
            },
        ),
        talk.recipient(None) == talk.sender(None),
{
}

/// `DATA` in its turn asks for the content, and keeps all that is known of the mail.
pub proof fn law_data_asks_for_the_content(talk: ConversationView, argument: Option<Seq<char>>)
    requires
        talk.state is SmtpStateAwaitDataOrRcpt,
    ensures
        talk.obey(Verb::Data, argument) == StepView::Write(
            WritingView {
                talk: ConversationView { state: SmtpState::SmtpStateAwaitData, ..talk },
                bytes: encode_utf8("354 End data with <CR><LF>.<CR><LF>\r\n"@),
                next: Next::ReadData,
            },
        ),
{
}

/// `RSET` forgets the mail at any time, and nothing else.
pub proof fn law_rset_forgets_the_mail(talk: ConversationView, argument: Option<Seq<char>>)
    ensures
        talk.obey(Verb::Rset, argument) == StepView::Write(
            WritingView {
                talk: ConversationView {
                    state: SmtpState::SmtpStateAwaitGreet,
                    email: EmailView {
                        mail_from: Seq::empty(),
                        mail_to: Seq::empty(),
                        mail_content: Seq::empty(),
                    },
                    ..talk
                },
                bytes: encode_utf8("250 Ok\r\n"@),
                next: Next::Listen,
            },
        ),
{
}

/// `QUIT` is answered with a farewell at any time, and ends the conversation well. A mail that is
/// complete is handed over first.
pub proof fn law_quit_says_bye(talk: ConversationView, argument: Option<Seq<char>>)
    ensures
        talk.obey(Verb::Quit, argument) == if talk.email.mail_from.len() > 0
            && talk.email.mail_to.len() > 0 && talk.email.mail_content.len() > 0 {
            StepView::Deliver(
                DeliveringView {
                    talk,
                    email: talk.email,
                    ok_resp: "221 Bye\r\n"@,
                    next: Next::Close(Ok(())),
                },
            )
        } else {
            StepView::Write(
                WritingView {
                    talk,
                    bytes: encode_utf8("221 Bye\r\n"@),
                    next: Next::Close(Ok(())),
                },
            )
        },
{
}

/// What is not a verb, or not the turn of one, is refused, and changes nothing.
pub proof fn law_the_rest_is_refused(
    talk: ConversationView,
    verb: Verb,
    argument: Option<Seq<char>>,
)
    requires
        match verb {
            Verb::Helo | Verb::Ehlo => !(talk.state is SmtpStateAwaitGreet),
            Verb::Mail => !(talk.state is SmtpStateAwaitFrom),
            Verb::Rcpt => !(talk.state is SmtpStateAwaitRcpt)
                && !(talk.state is SmtpStateAwaitDataOrRcpt),
            Verb::Data => !(talk.state is SmtpStateAwaitDataOrRcpt),
            Verb::Unknown => true,
            _ => false,
        },
    ensures
        talk.obey(verb, argument) == StepView::Write(
            WritingView {
                talk,
                bytes: encode_utf8("500 Command not recognized\r\n"@),
                next: Next::Listen,
            },
        ),
{
}

/// The first word of a command is its verb, the second its operand, and nothing else of it
/// counts.
pub proof fn law_first_word_is_the_verb(talk: ConversationView, text: Seq<char>)
    requires
        words(text).len() > 0,
    ensures
        ({
            let word = words(text)[0];
            let argument = if words(text).len() > 1 {
                Some(words(text)[1])
            } else {
                None
            };
            let verb = if word == "HELO"@ {
                Verb::Helo
            } else if word == "EHLO"@ {
                Verb::Ehlo
            } else if word == "AUTH"@ {
                Verb::Auth
            } else if word == "NOOP"@ || word == "HELP"@ || word == "INFO"@ || word == "VRFY"@
                || word == "EXPN"@ {
                Verb::Noop
            } else if word == "MAIL"@ {
                Verb::Mail
            } else if word == "RCPT"@ {
                Verb::Rcpt
            } else if word == "DATA"@ {
                Verb::Data
            } else if word == "RSET"@ {
                Verb::Rset
            } else if word == "QUIT"@ {
                Verb::Quit
            } else {
                Verb::Unknown
            };
            talk.hear(text) == talk.obey(verb, argument)
        }),
{
    law_verbs_have_their_words(words(text)[0]);
}

/// Two commands with the same first two words have the same effect.
pub proof fn law_only_two_words_count(talk: ConversationView, text: Seq<char>, other: Seq<char>)
    requires
        words(text).len() > 0,
        words(other).len() > 0,
        words(text)[0] == words(other)[0],
        words(text).len() > 1 <==> words(other).len() > 1,
        words(text).len() > 1 ==> words(text)[1] == words(other)[1],
    ensures
        talk.hear(text) == talk.hear(other),
{
}

/// A command without a word is malformed, and ends the conversation.
pub proof fn law_empty_commands_end_it(talk: ConversationView, text: Seq<char>)
    requires
        forall|i: int| 0 <= i < text.len() ==> is_white_space(#[trigger] text[i]),
    ensures
        talk.hear(text) == StepView::Write(
            WritingView {
                talk,
                bytes: encode_utf8("500 Syntax error\r\n"@),
                next: Next::Close(Err(SessionError::EmptyCommand)),
            },
        ),
{
    law_white_space_has_no_words(text);
}

/// In its turn, a `MAIL` line with an address in brackets sets the sender, wherever its white
/// space is and whatever follows.
pub proof fn law_mail_line_is_understood(
    talk: ConversationView,
    indent: Seq<char>,
    gap: Seq<char>,
    address: Seq<char>,
    rest: Seq<char>,
)
    requires
        talk.state is SmtpStateAwaitFrom,
        gap.len() > 0,
        forall|i: int| 0 <= i < indent.len() ==> is_white_space(#[trigger] indent[i]),
        forall|i: int| 0 <= i < gap.len() ==> is_white_space(#[trigger] gap[i]),
        rest.len() == 0 || is_white_space(rest[0]),
        forall|i: int| 0 <= i < address.len() ==> !is_white_space(#[trigger] address[i]),
        address.contains('@'),
        is_email_address(address),
        address[0] != '<' && address[0] != '>' && address.last() != '<' && address.last() != '>',
    ensures
        talk.hear(
            indent + "MAIL"@ + gap + ("FROM:<"@ + address + ">"@) + rest,
        ) == StepView::Write(
            WritingView {
                talk: ConversationView {
                    state: SmtpState::SmtpStateAwaitRcpt,
                    email: EmailView { mail_from: address, ..talk.email },
                    ..talk
                },
                bytes: encode_utf8("250 Ok\r\n"@),
                next: Next::Listen,
            },
        ),
{
    reveal_strlit("MAIL");
    reveal_strlit("FROM:<");
    reveal_strlit("FROM:");
    reveal_strlit("<");
    reveal_strlit(">");
    let argument = "FROM:<"@ + address + ">"@;
    assert(argument == "FROM:"@ + ("<"@ + address + ">"@));
    assert forall|i: int| 0 <= i < argument.len() implies !is_white_space(
        #[trigger] argument[i],
    ) by {
        if 5 < i < argument.len() - 1 {
            assert(argument[i] == address[i - 6]);
        }
    }
    law_two_words(indent, "MAIL"@, gap, argument, rest);
    law_first_word_is_the_verb(
        talk,
        indent + "MAIL"@ + gap + argument + rest,
    );
    law_verbs_have_their_words("MAIL"@);
    law_mail_reads_the_address(talk, "<"@, address, ">"@);
}

/// In its turn, a `RCPT` line with an address in brackets sets the recipient, wherever its white
/// space is and whatever follows.
pub proof fn law_rcpt_line_is_understood(
    talk: ConversationView,
    indent: Seq<char>,
    gap: Seq<char>,
    address: Seq<char>,
    rest: Seq<char>,
)
    requires
        talk.state is SmtpStateAwaitRcpt || talk.state is SmtpStateAwaitDataOrRcpt,
        talk.email.mail_to.len() == 0,
        gap.len() > 0,
        forall|i: int| 0 <= i < indent.len() ==> is_white_space(#[trigger] indent[i]),
        forall|i: int| 0 <= i < gap.len() ==> is_white_space(#[trigger] gap[i]),
        rest.len() == 0 || is_white_space(rest[0]),
        forall|i: int| 0 <= i < address.len() ==> !is_white_space(#[trigger] address[i]),
        address.contains('@'),
        is_email_address(address),
        address[0] != '<' && address[0] != '>' && address.last() != '<' && address.last() != '>',
    ensures
        talk.hear(
            indent + "RCPT"@ + gap + ("TO:<"@ + address + ">"@) + rest,
        ) == StepView::Write(
            WritingView {
                talk: ConversationView {
                    state: SmtpState::SmtpStateAwaitDataOrRcpt,
                    email: EmailView { mail_to: address, ..talk.email },
                    ..talk
                },
                bytes: encode_utf8("250 Ok\r\n"@),
                next: Next::Listen,
            },
        ),
{
    reveal_strlit("RCPT");
    reveal_strlit("TO:<");
    reveal_strlit("TO:");
    reveal_strlit("<");
    reveal_strlit(">");
    let argument = "TO:<"@ + address + ">"@;
    assert(argument == "TO:"@ + ("<"@ + address + ">"@));
    assert forall|i: int| 0 <= i < argument.len() implies !is_white_space(
        #[trigger] argument[i],
    ) by {
        if 3 < i < argument.len() - 1 {
            assert(argument[i] == address[i - 4]);
        }
    }
    law_two_words(indent, "RCPT"@, gap, argument, rest);
    law_first_word_is_the_verb(
        talk,
        indent + "RCPT"@ + gap + argument + rest,
    );
    law_verbs_have_their_words("RCPT"@);
    law_rcpt_reads_the_address(talk, "<"@, address, ">"@);
}

/// The command is the text that its bytes encode; what stands behind it in the buffer does not
/// count, as long as it is text too.
pub proof fn law_commands_are_read_as_text(
    talk: ConversationView,
    text: Seq<char>,
    rest: Seq<char>,
)
    requires
        talk.buf == encode_utf8(text) + encode_utf8(rest),
    ensures
        (CommandView { talk, n: encode_utf8(text).len() }).is_text(),
        (CommandView { talk, n: encode_utf8(text).len() }).next() == talk.hear(text),
{
    let n = encode_utf8(text).len() as int;
    encode_utf8_valid_utf8(text);
    encode_utf8_valid_utf8(rest);
    encode_utf8_decode_utf8(text);
    valid_utf8_concat(encode_utf8(text), encode_utf8(rest));
    assert(talk.buf.take(n) == encode_utf8(text));
    lemma_boundary_behind_text(encode_utf8(text), encode_utf8(rest));
}

proof fn lemma_boundary_behind_text(start: Seq<u8>, rest: Seq<u8>)
    requires
        valid_utf8(start),
        valid_utf8(rest),
    ensures
        is_char_boundary(start + rest, start.len() as int),
    decreases start.len(),
{
    let bytes = start + rest;
    valid_utf8_concat(start, rest);
    if start.len() > 0 {
        let n = length_of_first_scalar(start);
        assert(bytes[0] == start[0]);
        assert(valid_first_scalar(bytes) && length_of_first_scalar(bytes) == n);
        assert(pop_first_scalar(bytes) == pop_first_scalar(start) + rest);
        lemma_boundary_behind_text(pop_first_scalar(start), rest);
    }
}

/// A command that can be run stands in a buffer that is text, and ends where a character does.
pub proof fn law_runnable_commands_are_text(command: CommandView)
    requires
        command.is_text(),
    ensures
        valid_utf8(command.talk.buf),
        valid_utf8(command.talk.buf.take(command.n as int)),
        command.next() == command.talk.hear(decode_utf8(command.talk.buf.take(command.n as int))),
{
    valid_utf8_split(command.talk.buf, command.n as int);
}

/// A mail that lacks nothing is handed over, and answered only afterwards; any other is answered
/// at once and not handed over.
pub proof fn law_only_complete_mails_are_handed_over(
    talk: ConversationView,
    email: EmailView,
    ok_resp: Seq<char>,
    next: Next,
)
    ensures
        talk.hand_over(email, ok_resp, next) == if email.mail_from.len() > 0 && email.mail_to.len()
            > 0 && email.mail_content.len() > 0 {
            StepView::Deliver(DeliveringView { talk, email, ok_resp, next })
        } else {
            StepView::Write(WritingView { talk, bytes: encode_utf8(ok_resp), next })
        },
{
}

/// A content that is text makes the mail what it says, to the last character; the mail is handed
/// over if it then lacks nothing, and forgotten in the conversation.
pub proof fn law_content_becomes_the_mail(talk: ConversationView, text: Seq<char>)
    ensures
        ({
            let email = EmailView { mail_content: text, ..talk.email };
            let over = ConversationView {
                    state: SmtpState::SmtpStateAwaitGreet,
                    email: EmailView {
                        mail_from: Seq::empty(),
                        mail_to: Seq::empty(),
                        mail_content: Seq::empty(),
                    },
                    ..talk
                };
            talk.content(encode_utf8(text)) == if email.mail_from.len() > 0 && email.mail_to.len()
                > 0 && text.len() > 0 {
                StepView::Deliver(
                    DeliveringView {
                        talk: over,
                        email,
                        ok_resp: "250 Ok\r\n"@,
                        next: Next::Listen,
                    },
                )
            } else {
                StepView::Write(
                    WritingView {
                        talk: over,
                        bytes: encode_utf8("250 Ok\r\n"@),
                        next: Next::Listen,
                    },
                )
            }
        }),
{
    encode_utf8_valid_utf8(text);
    encode_utf8_decode_utf8(text);
}

/// A content that is no text is passed over: the mail is forgotten, and the next command awaited.
pub proof fn law_content_that_is_no_text(talk: ConversationView, bytes: Seq<u8>)
    requires
        !valid_utf8(bytes),
    ensures
        talk.content(bytes) == StepView::Read(
            ReadingView {
                talk: ConversationView {
                    state: SmtpState::SmtpStateAwaitGreet,
                    email: EmailView {
                        mail_from: Seq::empty(),
                        mail_to: Seq::empty(),
                        mail_content: Seq::empty(),
                    },
                    buf: Seq::empty(),
                    ..talk
                },
                target: TargetView::Command(0),
                total_read: 0,
                timeout_ms: talk.timeout_ms,
            },
        ),
{
}

/// A read of nothing while a content is awaited drops the mail, whatever part of it has come.
pub proof fn law_unfinished_content_is_dropped(talk: ConversationView, data: Seq<u8>)
    ensures
        talk.data(data, 0) == StepView::Write(
            WritingView {
                talk: ConversationView {
                    state: SmtpState::SmtpStateAwaitGreet,
                    email: EmailView {
                        mail_from: Seq::empty(),
                        mail_to: Seq::empty(),
                        mail_content: Seq::empty(),
                    },
                    ..talk
                },
                bytes: encode_utf8("500 Syntax error\r\n"@),
                next: Next::Listen,
            },
        ),
{
}

/// A content is complete when its end marker has come, and is all that came before the marker.
pub proof fn law_end_marker_completes_the_content(
    talk: ConversationView,
    content: Seq<u8>,
    count: nat,
)
    requires
        count > 0,
    ensures
        talk.data(content + seq![13u8, 10u8, 46u8, 13u8, 10u8], count) == talk.content(content),
{
    law_end_markers();
    let data = content + seq![13u8, 10u8, 46u8, 13u8, 10u8];
    assert(data.subrange(data.len() - 5, data.len() as int) == seq![13u8, 10u8, 46u8, 13u8, 10u8]);
    assert(data.take(data.len() - 5) == content);
}

/// Until its end marker has come, a content is waited for, and all of it is kept.
pub proof fn law_content_is_waited_for(talk: ConversationView, data: Seq<u8>, count: nat)
    requires
        count > 0,
        data.len() < 5 || data.skip(data.len() - 5) != seq![13u8, 10u8, 46u8, 13u8, 10u8],
    ensures
        talk.data(data, count) == StepView::Read(
            ReadingView {
                talk,
                target: TargetView::Data(data),
                total_read: 0,
                timeout_ms: 5_000,
            },
        ),
{
    law_end_markers();
    if data.len() >= 5 {
        assert(data.skip(data.len() - 5) == data.subrange(data.len() - 5, data.len() as int));
    }
}

/// A command is complete when the buffer ends with a line end, or when nothing more comes; it is
/// made of all the bytes that came for it. Where none came at all, the client is dropped.
pub proof fn law_line_end_completes_the_command(talk: ConversationView, n: nat, count: nat)
    ensures
        ({
            let ended = talk.buf.len() >= 2 && talk.buf[talk.buf.len() - 2] == 13
                && talk.buf[talk.buf.len() - 1] == 10;
            talk.command(n, count) == if n == 0 && count == 0 {
                StepView::End(Outcome::Closed(Err(SessionError::Smtp(SmtpError::NoContentError))))
            } else if count == 0 || ended {
                StepView::Run(CommandView { talk, n: n + count })
            } else {
                StepView::Read(
                    ReadingView {
                        talk,
                        target: TargetView::Command(n + count),
                        total_read: 0,
                        timeout_ms: talk.timeout_ms,
                    },
                )
            }
        }),
        command_after(n, count, talk.buf) == match talk.command(n, count) {
            StepView::Run(command) => ReadCommandView::Ready(command.n),
            StepView::Read(_) => ReadCommandView::Unfinished(n + count),
            _ => ReadCommandView::NoContent,
        },
{
    lemma_line_end(talk.buf);
}

/// The end of a line, byte for byte.
pub proof fn lemma_line_end(bytes: Seq<u8>)
    ensures
        COMMAND_TERM.spec_bytes().is_suffix_of(bytes) <==> bytes.len() >= 2 && bytes[bytes.len()
            - 2] == 13 && bytes[bytes.len() - 1] == 10,
{
    law_end_markers();
    if bytes.len() >= 2 {
        let end = bytes.subrange(bytes.len() - 2, bytes.len() as int);
        assert(end[0] == bytes[bytes.len() - 2] && end[1] == bytes[bytes.len() - 1]);
        if end[0] == 13 && end[1] == 10 {
            assert(end == seq![13u8, 10u8]);
        }
    }
}

/// Bytes that arrive go behind those that are there, and more are waited for, but not for long.
/// Where there would be too many, counting those of the same read twice, nothing is kept and the
/// client is dropped.
pub proof fn law_bytes_are_gathered(reading: ReadingView, bytes: Seq<u8>)
    requires
        bytes.len() > 0,
    ensures
        ({
            let held = match reading.target {
                TargetView::Command(_) => reading.talk.buf.len(),
                TargetView::Data(data) => data.len(),
            };
            reading.next(ReadEvent::Bytes(bytes)) == if reading.total_read + bytes.len() + held
                < 512_000 {
                StepView::Read(
                    ReadingView {
                        talk: match reading.target {
                            TargetView::Command(_) => ConversationView {
                                buf: reading.talk.buf + bytes,
                                ..reading.talk
                            },
                            TargetView::Data(_) => reading.talk,
                        },
                        target: match reading.target {
                            TargetView::Command(n) => TargetView::Command(n),
                            TargetView::Data(data) => TargetView::Data(data + bytes),
                        },
                        total_read: reading.total_read + bytes.len(),
                        timeout_ms: 10,
                    },
                )
            } else {
                StepView::End(
                    Outcome::Closed(Err(SessionError::Smtp(SmtpError::PayloadTooLargeError))),
                )
            }
        }),
{
}

/// A read is complete when the client pauses or stops sending. It then counts as so many bytes of
/// the command or of the content, whichever is awaited.
pub proof fn law_pauses_complete_the_read(reading: ReadingView, event: ReadEvent)
    requires
        event is TimedOut || event == ReadEvent::Bytes(Seq::empty()),
    ensures
        reading.target matches TargetView::Command(n) ==> reading.next(event)
            == reading.talk.command(n, reading.total_read),
        reading.target matches TargetView::Data(data) ==> reading.next(event) == reading.talk.data(
            data,
            reading.total_read,
        ),
{
    assert(reading.talk.buf + Seq::<u8>::empty() == reading.talk.buf);
    if let TargetView::Data(data) = reading.target {
        assert(data + Seq::<u8>::empty() == data);
    }
}

/// A client that falls silent or goes away before the end marker has come loses its mail, however
/// much of it has come: nothing is handed over, the client is told, and the mail is forgotten.
pub proof fn law_silence_drops_the_mail(
    talk: ConversationView,
    data: Seq<u8>,
    timeout_ms: u64,
    event: ReadEvent,
)
    requires
        event is TimedOut || event == ReadEvent::Bytes(Seq::empty()),
    ensures
        (ReadingView { talk, target: TargetView::Data(data), total_read: 0, timeout_ms }).next(
            event,
        ) == StepView::Write(
            WritingView {
                talk: ConversationView {
                    state: SmtpState::SmtpStateAwaitGreet,
                    email: EmailView {
                        mail_from: Seq::empty(),
                        mail_to: Seq::empty(),
                        mail_content: Seq::empty(),
                    },
                    ..talk
                },
                bytes: encode_utf8("500 Syntax error\r\n"@),
                next: Next::Listen,
            },
        ),
{
    law_pauses_complete_the_read(
        ReadingView { talk, target: TargetView::Data(data), total_read: 0, timeout_ms },
        event,
    );
}

/// When the server goes down or the socket fails, a conversation that reads ends, and says why.
pub proof fn law_interrupted_reads_end_it(reading: ReadingView)
    ensures
        reading.next(ReadEvent::Cancelled) == StepView::End(
            Outcome::Closed(Err(SessionError::Smtp(SmtpError::ServerShutdown))),
        ),
        reading.next(ReadEvent::Failed) == StepView::End(
            Outcome::Closed(Err(SessionError::ReadFailed)),
        ),
{
}

/// One wait for bytes, with any limit: bytes that fit are kept and more are waited for; bytes
/// that do not fit are not kept; a pause or the end of the bytes completes the read.
pub proof fn law_one_wait(total_read: nat, max_read_size: nat, to: Seq<u8>, bytes: Seq<u8>)
    requires
        bytes.len() > 0,
    ensures
        total_read + bytes.len() + to.len() < max_read_size ==> {
            &&& buffer_after(total_read, max_read_size, to, ReadEvent::Bytes(bytes)) == to + bytes
            &&& read_after(total_read, max_read_size, to, ReadEvent::Bytes(bytes))
                == ReadMoreView::Again { total_read: total_read + bytes.len(), timeout_ms: 10 }
        },
        total_read + bytes.len() + to.len() >= max_read_size ==> {
            &&& buffer_after(total_read, max_read_size, to, ReadEvent::Bytes(bytes)) == to
            &&& read_after(total_read, max_read_size, to, ReadEvent::Bytes(bytes))
                == ReadMoreView::Error(SessionError::Smtp(SmtpError::PayloadTooLargeError))
        },
        forall|event: ReadEvent|
            !(event is Bytes) || event == ReadEvent::Bytes(Seq::empty())
                ==> #[trigger] buffer_after(
                total_read,
                max_read_size,
                to,
                event,
            ) == to,
        read_after(total_read, max_read_size, to, ReadEvent::Bytes(Seq::empty()))
            == ReadMoreView::Done(total_read),
        read_after(total_read, max_read_size, to, ReadEvent::TimedOut) == ReadMoreView::Done(
            total_read,
        ),
        read_after(total_read, max_read_size, to, ReadEvent::Cancelled) == ReadMoreView::Error(
            SessionError::Smtp(SmtpError::ServerShutdown),
        ),
        read_after(total_read, max_read_size, to, ReadEvent::Failed) == ReadMoreView::Error(
            SessionError::ReadFailed,
        ),
{
    assert(to + Seq::<u8>::empty() == to);
}

/// What a wait has brought is seen as it is.
pub proof fn law_waits_are_seen_as_they_are(bytes: Vec<u8>)
    ensures
        ReadOutcome::Bytes(bytes)@ == ReadEvent::Bytes(bytes@),
        ReadOutcome::TimedOut@ == ReadEvent::TimedOut,
        ReadOutcome::Cancelled@ == ReadEvent::Cancelled,
        ReadOutcome::Failed@ == ReadEvent::Failed,
{
}

/// What follows once a reply is sent: the next command with an empty buffer, or with the last one
/// still in it; the content, with time for it; or the end as it was decided.
pub proof fn law_after_a_reply(talk: ConversationView, bytes: Seq<u8>, next: Next)
    ensures
        (WritingView { talk, bytes, next }).next(true) == match next {
            Next::Close(result) => StepView::End(Outcome::Closed(result)),
            Next::ReadData => StepView::Read(
                ReadingView {
                    talk,
                    target: TargetView::Data(Seq::empty()),
                    total_read: 0,
                    timeout_ms: 5_000,
                },
            ),
            _ => StepView::Read(
                ReadingView {
                    talk: if next is Listen {
                        ConversationView { buf: Seq::empty(), ..talk }
                    } else {
                        talk
                    },
                    target: TargetView::Command(0),
                    total_read: 0,
                    timeout_ms: talk.timeout_ms,
                },
            ),
        },
{
}

/// A reply that cannot be sent ends the conversation; one that was not even greeted is abandoned.
pub proof fn law_after_a_failed_reply(writing: WritingView)
    ensures
        writing.next(false) == if writing.next is Begin {
            StepView::End(Outcome::Abandoned)
        } else {
            StepView::End(Outcome::Closed(Err(SessionError::WriteFailed)))
        },
{
}

/// What a client hears of its mail: the good answer if and only if it was taken, that there is no
/// room if there was none in time, and that nobody takes mails any more otherwise, which ends the
/// conversation.
pub proof fn law_what_became_of_a_mail(delivering: DeliveringView, outcome: SendOutcome)
    ensures
        ({
            let DeliveringView { talk, ok_resp, next, .. } = delivering;
            delivering.next(outcome) == match outcome {
                SendOutcome::Sent => StepView::Write(
                    WritingView { talk, bytes: encode_utf8(ok_resp), next },
                ),
                SendOutcome::TimedOut => StepView::Write(
                    WritingView { talk, bytes: encode_utf8("450 mailbox unavailable\r\n"@), next },
                ),
                _ => StepView::Write(
                    WritingView {
                        talk,
                        bytes: encode_utf8(
                            "421 Service not available, closing transmission channel\r\n"@,
                        ),
                        next: Next::Close(Err(SessionError::Smtp(SmtpError::ServerShutdown))),
                    },
                ),
            }
        }),
        send_result(outcome) is Ok <==> outcome is Sent,
        send_result(outcome) == Err::<(), SmtpError>(SmtpError::RateLimitError)
            <==> outcome is TimedOut,
        send_result(outcome) == Err::<(), SmtpError>(SmtpError::ServerShutdown) <==> (
        outcome is Closed || outcome is Cancelled),
{
}

/// The bytes that events bring, in order.
pub open spec fn bytes_in(events: Seq<Event>) -> Seq<u8>
    decreases events.len(),
{
    if events.len() == 0 {
        Seq::empty()
    } else {
        bytes_in(events.drop_last()) + match events.last() {
            Event::Read(ReadEvent::Bytes(bytes)) => bytes,
            _ => Seq::empty(),
        }
    }
}

/// The content was asked for after `k` events, in the conversation `talk`, and nothing but
/// reading has happened since that was said.
pub open spec fn asked_for_content(
    start: StepView,
    events: Seq<Event>,
    k: int,
    talk: ConversationView,
) -> bool {
    &&& 0 <= k < events.len()
    &&& start.after(events.take(k)) matches StepView::Write(writing) && writing.bytes
        == encode_utf8("354 End data with <CR><LF>.<CR><LF>\r\n"@) && writing.talk == talk
    &&& events[k] == Event::Written(true)
    &&& forall|j: int| k < j < events.len() ==> #[trigger] start.after(events.take(j)) is Read
}

/// While a content is awaited, what is there of it is all that came since it was asked for, and
/// the conversation is as it was.
pub proof fn law_content_is_all_that_came(
    srv_domain: Seq<char>,
    timeout_ms: u64,
    events: Seq<Event>,
    reading: ReadingView,
    data: Seq<u8>,
)
    requires
        opening(srv_domain, timeout_ms).after(events) == StepView::Read(reading),
        reading.target == TargetView::Data(data),
    ensures
        exists|k: int|
            asked_for_content(opening(srv_domain, timeout_ms), events, k, reading.talk) && data
                == #[trigger] bytes_in(events.skip(k + 1)),
    decreases events.len(),
{
    let start = opening(srv_domain, timeout_ms);
    let fewer = events.drop_last();
    let before = start.after(fewer);
    let last = events.last();
    law_conversations_are_well_formed(srv_domain, timeout_ms, fewer);
    lemma_content_is_asked_for(srv_domain, timeout_ms, fewer);
    assert(events.len() > 0);
    match before {
        StepView::Read(earlier) => {
            assert(earlier.target is Data);
            let came = earlier.target->Data_0;
            law_content_is_all_that_came(srv_domain, timeout_ms, fewer, earlier, came);
            let k = choose|k: int|
                asked_for_content(start, fewer, k, earlier.talk) && came == #[trigger] bytes_in(
                    fewer.skip(k + 1),
                );
            lemma_one_more_event(start, events, k, earlier.talk);
            assert(data == bytes_in(events.skip(k + 1)));
        },
        _ => {
            let k = events.len() - 1;
            assert(events.take(k) == fewer);
            assert(events.skip(k + 1) == Seq::<Event>::empty());
            assert(before is Write && last == Event::Written(true));
            assert(asked_for_content(start, events, k, reading.talk));
            assert(data == bytes_in(events.skip(k + 1)));
        },
    }
}

/// Where the content is awaited next, it has just been asked for.
proof fn lemma_content_is_asked_for(srv_domain: Seq<char>, timeout_ms: u64, events: Seq<Event>)
    ensures
        opening(srv_domain, timeout_ms).after(events) matches StepView::Write(writing) ==> (
        writing.next is ReadData ==> writing.bytes == encode_utf8(
            "354 End data with <CR><LF>.<CR><LF>\r\n"@,
        )),
    decreases events.len(),
{
    if events.len() > 0 {
        law_conversations_are_well_formed(srv_domain, timeout_ms, events.drop_last());
        lemma_content_is_asked_for(srv_domain, timeout_ms, events.drop_last());
    }
}

proof fn lemma_one_more_event(start: StepView, events: Seq<Event>, k: int, talk: ConversationView)
    requires
        events.len() > 0,
        asked_for_content(start, events.drop_last(), k, talk),
        start.after(events.drop_last()) is Read,
    ensures
        asked_for_content(start, events, k, talk),
        bytes_in(events.skip(k + 1)) == bytes_in(events.drop_last().skip(k + 1))
            + match events.last() {
            Event::Read(ReadEvent::Bytes(bytes)) => bytes,
            _ => Seq::empty(),
        },
{
    let fewer = events.drop_last();
    assert(fewer.take(k) == events.take(k));
    assert forall|j: int| k < j < events.len() implies #[trigger] start.after(
        events.take(j),
    ) is Read by {
        if j < fewer.len() {
            assert(fewer.take(j) == events.take(j));
        } else {
            assert(events.take(j) == fewer);
        }
    }
    assert(events.skip(k + 1).drop_last() == fewer.skip(k + 1));
    assert(events.skip(k + 1).last() == events.last());
}

/// Whenever a mail comes to be handed over, its content has come whole: the bytes since it was
/// asked for are those of the content and of the end marker, and no others; and its sender and
/// its recipient are those that were known then.
pub proof fn law_only_whole_contents_are_handed_over(
    srv_domain: Seq<char>,
    timeout_ms: u64,
    events: Seq<Event>,
    delivering: DeliveringView,
)
    requires
        events.len() > 0,
        opening(srv_domain, timeout_ms).after(events) == StepView::Deliver(delivering),
        !(opening(srv_domain, timeout_ms).after(events.drop_last()) is Deliver),
    ensures
        exists|k: int, talk: ConversationView|
            {
                &&& #[trigger] asked_for_content(
                    opening(srv_domain, timeout_ms),
                    events,
                    k,
                    talk,
                )
                &&& bytes_in(events.skip(k + 1)) == encode_utf8(delivering.email.mail_content)
                    + seq![13u8, 10u8, 46u8, 13u8, 10u8]
                &&& delivering.email.mail_from == talk.email.mail_from
                &&& delivering.email.mail_to == talk.email.mail_to
            },
        delivering.ok_resp == "250 Ok\r\n"@,
        delivering.next is Listen,
{
    let start = opening(srv_domain, timeout_ms);
    let fewer = events.drop_last();
    let before = start.after(fewer);
    let last = events.last();
    law_conversations_are_well_formed(srv_domain, timeout_ms, fewer);
    law_end_markers();
    assert(before is Read);
    let reading = before->Read_0;
    assert(reading.target is Data);
    let data = reading.target->Data_0;
    assert(last is Read);
    let event = last->Read_0;
    assert(event is TimedOut || event == ReadEvent::Bytes(Seq::empty())) by {
        if let ReadEvent::Bytes(bytes) = event {
            if bytes.len() > 0 {
                law_bytes_are_gathered(reading, bytes);
            } else {
                assert(bytes == Seq::<u8>::empty());
            }
        }
    }
    law_pauses_complete_the_read(reading, event);
    let marker = seq![13u8, 10u8, 46u8, 13u8, 10u8];
    let content = data.take(data.len() - 5);
    assert(reading.total_read > 0);
    assert(data.len() >= 5 && data.skip(data.len() - 5) == marker) by {
        if data.len() < 5 || data.skip(data.len() - 5) != marker {
            law_content_is_waited_for(reading.talk, data, reading.total_read);
        }
    }
    assert(data == content + marker);
    law_end_marker_completes_the_content(reading.talk, content, reading.total_read);
    assert(valid_utf8(content));
    decode_utf8_encode_utf8(content);
    law_content_becomes_the_mail(reading.talk, decode_utf8(content));
    law_content_is_all_that_came(srv_domain, timeout_ms, fewer, reading, data);
    let k = choose|k: int|
        asked_for_content(start, fewer, k, reading.talk) && data == #[trigger] bytes_in(
            fewer.skip(k + 1),
        );
    lemma_one_more_event(start, events, k, reading.talk);
    assert(bytes_in(events.skip(k + 1)) == data);
    assert(asked_for_content(start, events, k, reading.talk));
}

/// Whatever happens, the conversation keeps the name of the server and the time it grants.
pub proof fn law_settings_stay(srv_domain: Seq<char>, timeout_ms: u64, events: Seq<Event>)
    ensures
        match opening(srv_domain, timeout_ms).after(events) {
            StepView::Read(reading) => reading.talk.srv_domain == srv_domain
                && reading.talk.timeout_ms == timeout_ms,
            StepView::Run(command) => command.talk.srv_domain == srv_domain
                && command.talk.timeout_ms == timeout_ms,
            StepView::Write(writing) => writing.talk.srv_domain == srv_domain
                && writing.talk.timeout_ms == timeout_ms,
            StepView::Deliver(delivering) => delivering.talk.srv_domain == srv_domain
                && delivering.talk.timeout_ms == timeout_ms,
            StepView::End(_) => true,
        },
    decreases events.len(),
{
    if events.len() > 0 {
        law_settings_stay(srv_domain, timeout_ms, events.drop_last());
    }
}

/// Wherever a conversation reads, its buffers are below the limit, and sender and recipient are
/// known exactly when the state says so.
pub proof fn law_state_tells_what_is_known(
    srv_domain: Seq<char>,
    timeout_ms: u64,
    events: Seq<Event>,
    reading: ReadingView,
)
    requires
        opening(srv_domain, timeout_ms).after(events) == StepView::Read(reading),
    ensures
        reading.talk.buf.len() < 512_000,
        reading.target matches TargetView::Data(data) ==> data.len() < 512_000,
        reading.target is Data <==> reading.talk.state is SmtpStateAwaitData,
        reading.talk.email.mail_content.len() == 0,
        reading.talk.email.mail_from.len() > 0 <==> (reading.talk.state is SmtpStateAwaitRcpt
            || reading.talk.state is SmtpStateAwaitDataOrRcpt
            || reading.talk.state is SmtpStateAwaitData),
        reading.talk.email.mail_to.len() > 0 <==> (
        reading.talk.state is SmtpStateAwaitDataOrRcpt || reading.talk.state is SmtpStateAwaitData),
{
    law_conversations_are_well_formed(srv_domain, timeout_ms, events);
    assert(forall|text: Seq<char>| #[trigger] text.contains('@') ==> text.len() > 0);
}

} // verus!
