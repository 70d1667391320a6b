//! Both ends of a conversation together: a mail that is sent arrives.

use vstd::prelude::*;
use vstd::string::*;
use vstd::utf8::*;

use crate::email::EmailView;
use crate::laws::{
    all_of, bursts_fit, ends_late, fed_with_pauses, joined, law_command_with_pauses,
    law_content_with_pauses, none_empty, none_hollow, opening, Event,
};
use crate::protocol::{
    SmtpState, COMMAND_TERM, EMAIL_TERM, RESP_BYE, RESP_END_DATA_WITH, RESP_OK,
};
use crate::rules::is_address;
use crate::sender::{SendStepView, SenderView, Stage};
use crate::session::{CommandView, ConversationView, Next, Outcome, SendOutcome, StepView};
use crate::text::{
    is_bracket, is_white_space, without_brackets, without_leading_brackets,
    without_trailing_brackets, word_len, words,
};
use crate::verb::{operand, verb_named, Verb};

verus! {

/// What the server comes to when a client has sent something in these bursts, and there is room
/// for the mail if one is complete.
pub open spec fn served(server: StepView, bursts: Seq<Seq<Seq<u8>>>) -> StepView {
    fed_with_pauses(server, bursts).on(Event::Run).on(Event::Sent(SendOutcome::Sent))
}

/// Both ends of a conversation: the server where it waits, and the client where it is.
pub struct Ends {
    pub server: StepView,
    pub client: SendStepView,
}

impl Ends {
    /// The server has greeted, and the client has the mail before it.
    pub open spec fn start(srv_domain: Seq<char>, timeout_ms: u64, mail: EmailView) -> Ends {
        Ends {
            server: opening(srv_domain, timeout_ms).on(Event::Written(true)),
            client: SendStepView::Exchange(
                SenderView::start(mail.mail_from, mail.mail_to, mail.mail_content),
            ),
        }
    }

    /// One exchange: what the client sends at its stage reaches the server in the bursts that
    /// `cuts` gives for that stage, the server answers, the client reads the answer.
    pub open spec fn exchange(self, cuts: spec_fn(Stage) -> Seq<Seq<Seq<u8>>>) -> Ends {
        match self.client {
            SendStepView::Exchange(sender) => match served(self.server, cuts(sender.stage)) {
                StepView::Write(writing) => Ends {
                    server: writing.next(true),
                    client: sender.next(decode_utf8(writing.bytes)),
                },
                _ => self,
            },
            _ => self,
        }
    }

    /// So many exchanges, one after another.
    pub open spec fn exchanges(
        self,
        count: nat,
        cuts: spec_fn(Stage) -> Seq<Seq<Seq<u8>>>,
    ) -> Ends
        decreases count,
    {
        if count == 0 {
            self
        } else {
            self.exchanges((count - 1) as nat, cuts).exchange(cuts)
        }
    }
}

/// An address that stands in a command as it is: without white space, and without a bracket at
/// either end.
pub open spec fn is_plain_address(text: Seq<char>) -> bool {
    &&& is_address(text)
    &&& no_white_space(text)
    &&& !is_bracket(text[0])
    &&& !is_bracket(text.last())
}

/// A text in one word.
pub open spec fn no_white_space(text: Seq<char>) -> bool {
    forall|i: int| 0 <= i < text.len() ==> !is_white_space(#[trigger] text[i])
}

/// A mail that the client can send: both addresses are plain, and there is a content.
pub open spec fn is_sendable(mail: EmailView) -> bool {
    &&& is_plain_address(mail.mail_from)
    &&& is_plain_address(mail.mail_to)
    &&& mail.mail_content.len() > 0
}

/// A text that arrives in these bursts, none of which is too much for the server.
#[verifier::opaque]
pub open spec fn arrives(text: Seq<char>, bursts: Seq<Seq<Seq<u8>>>) -> bool {
    &&& bursts.len() > 0
    &&& none_hollow(bursts)
    &&& bursts_fit(0, bursts)
    &&& all_of(bursts) == encode_utf8(text)
}

/// All that the client sends arrives in the bursts that `cuts` gives, and no pause in the content
/// falls where the content seems complete.
pub open spec fn mail_arrives(mail: EmailView, cuts: spec_fn(Stage) -> Seq<Seq<Seq<u8>>>) -> bool {
    let sender = SenderView::start(mail.mail_from, mail.mail_to, mail.mail_content);
    &&& forall|stage: Stage| arrives(sender.at(stage).text(), #[trigger] cuts(stage))
    &&& ends_late(Seq::empty(), cuts(Stage::Content), EMAIL_TERM.spec_bytes())
}

/// Encoding goes character by character.
proof fn lemma_encode_concat(a: Seq<char>, b: Seq<char>)
    ensures
        encode_utf8(a + b) == encode_utf8(a) + encode_utf8(b),
    decreases a.len(),
{
    if a.len() == 0 {
        assert(a + b == b);
        assert(encode_utf8(a) + encode_utf8(b) == encode_utf8(b));
    } else {
        assert((a + b).drop_first() == a.drop_first() + b);
        lemma_encode_concat(a.drop_first(), b);
        assert(encode_utf8(a + b) == encode_utf8(a) + encode_utf8(b));
    }
}

proof fn lemma_first_word(word: Seq<char>, rest: Seq<char>)
    requires
        no_white_space(word),
        rest.len() == 0 || is_white_space(rest[0]),
    ensures
        word_len(word + rest) == word.len(),
        word.len() > 0 ==> words(word + rest) == seq![word] + words(rest),
    decreases word.len(),
{
    if word.len() == 0 {
        assert(word + rest == rest);
    } else {
        let text = word + rest;
        assert(text[0] == word[0]);
        assert(text.skip(1) == word.skip(1) + rest);
        assert(no_white_space(word.skip(1))) by {
            assert forall|i: int| 0 <= i < word.skip(1).len() implies !is_white_space(
                #[trigger] word.skip(1)[i],
            ) by {
                assert(word.skip(1)[i] == word[i + 1]);
            }
        }
        lemma_first_word(word.skip(1), rest);
        assert(text.take(word.len() as int) == word);
        assert(text.skip(word.len() as int) == rest);
    }
}

/// The words of a line of one or two words.
proof fn lemma_line_words(first: Seq<char>, second: Seq<char>)
    requires
        no_white_space(first),
        no_white_space(second),
        first.len() > 0,
    ensures
        words(first + COMMAND_TERM@) == seq![first],
        second.len() > 0 ==> words(first + (seq![' '] + (second + COMMAND_TERM@))) == seq![
            first,
            second,
        ],
{
    reveal_strlit("\r\n");
    let end = COMMAND_TERM@;
    reveal_with_fuel(words, 3);
    assert(end.skip(1).skip(1) == Seq::<char>::empty());
    assert(words(end) == Seq::<Seq<char>>::empty());
    lemma_first_word(first, end);
    assert(seq![first] + words(end) == seq![first]);
    if second.len() > 0 {
        let rest = seq![' '] + (second + end);
        assert(rest.skip(1) == second + end);
        lemma_first_word(first, rest);
        lemma_first_word(second, end);
        assert(words(rest) == words(second + end));
        assert(seq![first] + (seq![second] + words(end)) == seq![first, second]);
    }
}

/// Only the encoding of a line feed holds the byte of a line feed.
proof fn lemma_line_feed_byte(scalar: u32)
    by (bit_vector)
    requires
        scalar != 10,
    ensures
        has_width_1_encoding(scalar) ==> leading_byte_width_1(scalar) != 10,
        leading_byte_width_2(scalar) != 10,
        leading_byte_width_3(scalar) != 10,
        leading_byte_width_4(scalar) != 10,
        last_continuation_byte(scalar) != 10,
        second_last_continuation_byte(scalar) != 10,
        third_last_continuation_byte(scalar) != 10,
{
}

proof fn lemma_no_line_feed(text: Seq<char>)
    requires
        forall|i: int| 0 <= i < text.len() ==> #[trigger] text[i] != '\n',
    ensures
        forall|i: int|
            0 <= i < encode_utf8(text).len() ==> #[trigger] encode_utf8(text)[i] != 10,
    decreases text.len(),
{
    if text.len() > 0 {
        let rest = text.drop_first();
        assert forall|i: int| 0 <= i < rest.len() implies #[trigger] rest[i] != '\n' by {
            assert(rest[i] == text[i + 1]);
        }
        lemma_no_line_feed(rest);
        let scalar = text[0] as u32;
        char_u32_cast(text[0], scalar);
        assert(scalar as char != 10u32 as char);
        lemma_line_feed_byte(scalar);
        let first = encode_scalar(scalar);
        assert(forall|i: int| 0 <= i < first.len() ==> #[trigger] first[i] != 10);
        assert forall|i: int| 0 <= i < encode_utf8(text).len() implies #[trigger] encode_utf8(
            text,
        )[i] != 10 by {
            if i < first.len() {
                assert(encode_utf8(text)[i] == first[i]);
            } else {
                assert(encode_utf8(text)[i] == encode_utf8(rest)[i - first.len()]);
            }
        }
    }
}

/// The bytes of some bursts come before those of all of them.
proof fn lemma_some_bursts(bursts: Seq<Seq<Seq<u8>>>, k: int)
    requires
        none_hollow(bursts),
        0 <= k < bursts.len(),
    ensures
        all_of(bursts.take(k)).len() < all_of(bursts).len(),
        all_of(bursts.take(k)) == all_of(bursts).take(all_of(bursts.take(k)).len() as int),
    decreases bursts.len(),
{
    let fewer = bursts.drop_last();
    let last = bursts.last();
    assert(bursts[bursts.len() - 1] == last);
    assert(last[last.len() - 1].len() > 0);
    assert(joined(last).len() > 0);
    assert(all_of(fewer) == all_of(bursts).take(all_of(fewer).len() as int));
    if k == fewer.len() {
        assert(bursts.take(k) == fewer);
    } else {
        assert forall|i: int| 0 <= i < fewer.len() implies (#[trigger] fewer[i]).len() > 0
            && none_empty(fewer[i]) by {
            assert(fewer[i] == bursts[i]);
        }
        assert(fewer.take(k) == bursts.take(k));
        lemma_some_bursts(fewer, k);
    }
}

/// Whatever has come of a line before its end does not end as a line does.
proof fn lemma_lines_end_late(start: Seq<char>, bursts: Seq<Seq<Seq<u8>>>)
    requires
        forall|i: int| 0 <= i < start.len() ==> #[trigger] start[i] != '\n',
        none_hollow(bursts),
        all_of(bursts) == encode_utf8(start + COMMAND_TERM@),
    ensures
        ends_late(Seq::empty(), bursts, COMMAND_TERM.spec_bytes()),
{
    let bytes = encode_utf8(start + COMMAND_TERM@);
    let before = encode_utf8(start);
    let term = COMMAND_TERM.spec_bytes();
    lemma_encode_concat(start, COMMAND_TERM@);
    lemma_no_line_feed(start);
    reveal_strlit("\r\n");
    is_ascii_chars_encode_utf8(COMMAND_TERM@);
    assert(term.len() == 2 && term[0] == 13 && term[1] == 10);
    assert(bytes == before + term);
    assert forall|k: int| 0 < k < bursts.len() implies !term.is_suffix_of(
        Seq::<u8>::empty() + #[trigger] all_of(bursts.take(k)),
    ) by {
        let some = all_of(bursts.take(k));
        lemma_some_bursts(bursts, k);
        assert(Seq::<u8>::empty() + some == some);
        if term.is_suffix_of(some) {
            let end: int = some.len() - 1;
            assert(some.subrange(some.len() - 2, some.len() as int)[1] == some[end]);
            assert(some[end] == bytes[end]);
            if end < before.len() {
                assert(bytes[end] == before[end]);
            } else {
                assert(bytes[end] == term[end - before.len()]);
            }
        }
    }
}

/// A line with nothing but its end to end it is heard whole.
proof fn lemma_line_is_heard(
    talk: ConversationView,
    start: Seq<char>,
    bursts: Seq<Seq<Seq<u8>>>,
)
    requires
        talk.buf == Seq::<u8>::empty(),
        forall|i: int| 0 <= i < start.len() ==> #[trigger] start[i] != '\n',
        arrives(start + COMMAND_TERM@, bursts),
    ensures
        fed_with_pauses(talk.await_command(), bursts) == StepView::Run(
            CommandView { talk: talk.with_buf(all_of(bursts)), n: all_of(bursts).len() },
        ),
        (CommandView { talk: talk.with_buf(all_of(bursts)), n: all_of(bursts).len() }).is_text(),
        served(talk.await_command(), bursts) == talk.with_buf(
            all_of(bursts),
        ).hear(
            start + COMMAND_TERM@,
        ).on(Event::Sent(SendOutcome::Sent)),
{
    let text = start + COMMAND_TERM@;
    let bytes = encode_utf8(text);
    let term = COMMAND_TERM.spec_bytes();
    reveal(arrives);
    lemma_encode_concat(start, COMMAND_TERM@);
    reveal_strlit("\r\n");
    assert(COMMAND_TERM.is_ascii());
    assert(term.len() == 2);
    assert(term.is_suffix_of(bytes)) by {
        assert(bytes.subrange(bytes.len() - 2, bytes.len() as int) == term);
    }
    lemma_lines_end_late(start, bursts);
    law_command_with_pauses(talk, bursts);
    assert(talk.buf + bytes == bytes);
    assert(bursts[bursts.len() - 1] == bursts.last());
    let last = bursts.last();
    assert(last[last.len() - 1].len() > 0);
    assert(bytes.take(bytes.len() as int) == bytes);
    encode_utf8_decode_utf8(text);
    encode_utf8_valid_utf8(text);
    is_char_boundary_start_end_of_seq(bytes);
}

/// An address in brackets behind a keyword is read as the address.
proof fn lemma_bracketed_operand(keyword: Seq<char>, address: Seq<char>)
    requires
        is_plain_address(address),
        keyword.len() > 0,
        no_white_space(keyword),
    ensures
        operand(Some(keyword + (seq!['<'] + address + seq!['>'])), keyword) == Some(
            seq!['<'] + address + seq!['>'],
        ),
        without_brackets(seq!['<'] + address + seq!['>']) == address,
        no_white_space(keyword + (seq!['<'] + address + seq!['>'])),
{
    let bracketed = seq!['<'] + address + seq!['>'];
    let argument = keyword + bracketed;
    assert(argument.skip(keyword.len() as int) == bracketed);
    assert(argument.subrange(0, keyword.len() as int) == keyword);
    assert(keyword.is_prefix_of(argument));
    assert(address.contains('@'));
    assert(address.len() > 0);
    reveal_with_fuel(without_leading_brackets, 3);
    reveal_with_fuel(without_trailing_brackets, 3);
    let led = address + seq!['>'];
    assert(bracketed.skip(1) == led);
    assert(led[0] == address[0]);
    assert(without_leading_brackets(bracketed) == led);
    assert(led.drop_last() == address);
    assert(without_trailing_brackets(led) == address);
    assert forall|i: int| 0 <= i < argument.len() implies !is_white_space(
        #[trigger] argument[i],
    ) by {
        if i < keyword.len() {
            assert(argument[i] == keyword[i]);
        } else if keyword.len() < i < argument.len() - 1 {
            assert(argument[i] == address[i - keyword.len() - 1]);
        }
    }
}

proof fn lemma_helo_is_answered(
    talk: ConversationView,
    sender: SenderView,
    bursts: Seq<Seq<Seq<u8>>>,
)
    requires
        talk.buf == Seq::<u8>::empty(),
        talk.state == SmtpState::SmtpStateAwaitGreet,
        sender.stage == Stage::Helo,
        arrives(sender.text(), bursts),
    ensures
        served(talk.await_command(), bursts) == talk.with_buf(
            all_of(bursts),
        ).in_state(SmtpState::SmtpStateAwaitFrom).reply(RESP_OK@, Next::Listen),
{
    reveal_strlit("HELO rs-mailserver-sender\r\n");
    reveal_strlit("HELO");
    reveal_strlit("rs-mailserver-sender");
    reveal_strlit("\r\n");
    let text = sender.text();
    let first = "HELO"@;
    let second = "rs-mailserver-sender"@;
    let start = first + (seq![' '] + second);
    assert(text == start + COMMAND_TERM@);
    assert(text == first + (seq![' '] + (second + COMMAND_TERM@)));
    assert(no_white_space(first));
    assert(no_white_space(second));
    lemma_line_words(first, second);
    lemma_line_is_heard(talk, start, bursts);
}

proof fn lemma_mail_from_is_answered(
    talk: ConversationView,
    sender: SenderView,
    bursts: Seq<Seq<Seq<u8>>>,
)
    requires
        talk.buf == Seq::<u8>::empty(),
        talk.state == SmtpState::SmtpStateAwaitFrom,
        sender.stage == Stage::MailFrom,
        arrives(sender.text(), bursts),
        is_plain_address(sender.mail_from),
    ensures
        served(talk.await_command(), bursts) == talk.with_buf(
            all_of(bursts),
        ).with_sender(sender.mail_from).in_state(SmtpState::SmtpStateAwaitRcpt).reply(
            RESP_OK@,
            Next::Listen,
        ),
{
    reveal_strlit("MAIL FROM:<");
    reveal_strlit("MAIL");
    reveal_strlit(">\r\n");
    reveal_strlit("FROM:");
    reveal_strlit("\r\n");
    lemma_verbs();
    let text = sender.text();
    let first = "MAIL"@;
    let second = "FROM:"@ + (seq!['<'] + sender.mail_from + seq!['>']);
    let start = first + (seq![' '] + second);
    assert(text == start + COMMAND_TERM@);
    assert(text == first + (seq![' '] + (second + COMMAND_TERM@)));
    assert(no_white_space(first));
    lemma_bracketed_operand("FROM:"@, sender.mail_from);
    lemma_line_words(first, second);
    lemma_line_is_heard(talk, start, bursts);
}

proof fn lemma_rcpt_to_is_answered(
    talk: ConversationView,
    sender: SenderView,
    bursts: Seq<Seq<Seq<u8>>>,
)
    requires
        talk.buf == Seq::<u8>::empty(),
        talk.state == SmtpState::SmtpStateAwaitRcpt,
        talk.email.mail_to.len() == 0,
        sender.stage == Stage::RcptTo,
        arrives(sender.text(), bursts),
        is_plain_address(sender.mail_to),
    ensures
        served(talk.await_command(), bursts) == talk.with_buf(
            all_of(bursts),
        ).with_recipient(sender.mail_to).in_state(SmtpState::SmtpStateAwaitDataOrRcpt).reply(
            RESP_OK@,
            Next::Listen,
        ),
{
    reveal_strlit("RCPT TO:<");
    reveal_strlit("RCPT");
    reveal_strlit(">\r\n");
    reveal_strlit("TO:");
    reveal_strlit("\r\n");
    lemma_verbs();
    let text = sender.text();
    let first = "RCPT"@;
    let second = "TO:"@ + (seq!['<'] + sender.mail_to + seq!['>']);
    let start = first + (seq![' '] + second);
    assert(text == start + COMMAND_TERM@);
    assert(text == first + (seq![' '] + (second + COMMAND_TERM@)));
    assert(no_white_space(first));
    lemma_bracketed_operand("TO:"@, sender.mail_to);
    lemma_line_words(first, second);
    lemma_line_is_heard(talk, start, bursts);
}

proof fn lemma_data_is_answered(
    talk: ConversationView,
    sender: SenderView,
    bursts: Seq<Seq<Seq<u8>>>,
)
    requires
        talk.buf == Seq::<u8>::empty(),
        talk.state == SmtpState::SmtpStateAwaitDataOrRcpt,
        sender.stage == Stage::Data,
        arrives(sender.text(), bursts),
    ensures
        served(talk.await_command(), bursts) == talk.with_buf(
            all_of(bursts),
        ).in_state(SmtpState::SmtpStateAwaitData).reply(RESP_END_DATA_WITH@, Next::ReadData),
{
    reveal_strlit("DATA\r\n");
    reveal_strlit("DATA");
    reveal_strlit("\r\n");
    lemma_verbs();
    let text = sender.text();
    assert(text == "DATA"@ + COMMAND_TERM@);
    lemma_line_words("DATA"@, Seq::empty());
    lemma_line_is_heard(talk, "DATA"@, bursts);
}

proof fn lemma_quit_is_answered(
    talk: ConversationView,
    sender: SenderView,
    bursts: Seq<Seq<Seq<u8>>>,
)
    requires
        talk.buf == Seq::<u8>::empty(),
        !talk.email.valid(),
        sender.stage == Stage::Quit,
        arrives(sender.text(), bursts),
    ensures
        served(talk.await_command(), bursts) == talk.with_buf(
            all_of(bursts),
        ).reply(RESP_BYE@, Next::Close(Ok(()))),
{
    reveal_strlit("QUIT\r\n");
    reveal_strlit("QUIT");
    reveal_strlit("\r\n");
    lemma_verbs();
    let text = sender.text();
    assert(text == "QUIT"@ + COMMAND_TERM@);
    lemma_line_words("QUIT"@, Seq::empty());
    lemma_line_is_heard(talk, "QUIT"@, bursts);
}

/// The words that the client uses are those of the verbs it means.
proof fn lemma_verbs()
    ensures
        verb_named("HELO"@) == Verb::Helo,
        verb_named("MAIL"@) == Verb::Mail,
        verb_named("RCPT"@) == Verb::Rcpt,
        verb_named("DATA"@) == Verb::Data,
        verb_named("QUIT"@) == Verb::Quit,
{
    reveal_strlit("HELO");
    reveal_strlit("EHLO");
    reveal_strlit("AUTH");
    reveal_strlit("NOOP");
    reveal_strlit("HELP");
    reveal_strlit("INFO");
    reveal_strlit("VRFY");
    reveal_strlit("EXPN");
    reveal_strlit("MAIL");
    reveal_strlit("RCPT");
    reveal_strlit("DATA");
    reveal_strlit("RSET");
    reveal_strlit("QUIT");
    // The first letters tell the verbs apart, except for two.
    assert("EHLO"@[0] == 'E' && "AUTH"@[0] == 'A' && "NOOP"@[0] == 'N' && "HELP"@[0] == 'H');
    assert("INFO"@[0] == 'I' && "VRFY"@[0] == 'V' && "EXPN"@[0] == 'E' && "HELO"@[0] == 'H');
    assert("MAIL"@[0] == 'M' && "RCPT"@[0] == 'R' && "DATA"@[0] == 'D' && "QUIT"@[0] == 'Q');
    assert("RSET"@[0] == 'R' && "RSET"@[1] == 'S' && "RCPT"@[1] == 'C');
}

/// A content that has come makes a mail complete.
proof fn lemma_content_is_taken(
    talk: ConversationView,
    sender: SenderView,
    bursts: Seq<Seq<Seq<u8>>>,
)
    requires
        talk.email.mail_from.len() > 0,
        talk.email.mail_to.len() > 0,
        sender.stage == Stage::Content,
        sender.mail_content.len() > 0,
        arrives(sender.text(), bursts),
        ends_late(Seq::empty(), bursts, EMAIL_TERM.spec_bytes()),
    ensures
        fed_with_pauses(talk.await_data(), bursts) == talk.reset().hand_over(
            EmailView { mail_content: sender.mail_content, ..talk.email },
            RESP_OK@,
            Next::Listen,
        ),
        served(talk.await_data(), bursts) == talk.reset().reply(RESP_OK@, Next::Listen),
{
    reveal(arrives);
    let bytes = encode_utf8(sender.text());
    let content = encode_utf8(sender.mail_content);
    let term = EMAIL_TERM.spec_bytes();
    lemma_encode_concat(sender.mail_content, EMAIL_TERM@);
    assert(bytes == content + term);
    reveal_strlit("\r\n.\r\n");
    assert(EMAIL_TERM.is_ascii());
    assert(term.len() == 5);
    assert(bytes.subrange(bytes.len() - term.len(), bytes.len() as int) == term);
    assert(term.is_suffix_of(bytes));
    assert(bytes.take(bytes.len() - term.len()) == content);
    encode_utf8_valid_utf8(sender.mail_content);
    encode_utf8_decode_utf8(sender.mail_content);
    law_content_with_pauses(talk, bursts);
    assert(bursts[bursts.len() - 1] == bursts.last());
    let last = bursts.last();
    assert(last[last.len() - 1].len() > 0);
}

/// A mail that can be sent arrives as it was sent, in whatever pieces: when the client has sent
/// the content, the server hands over just this mail.
pub proof fn law_sent_mail_arrives(
    srv_domain: Seq<char>,
    timeout_ms: u64,
    mail: EmailView,
    cuts: spec_fn(Stage) -> Seq<Seq<Seq<u8>>>,
)
    requires
        is_sendable(mail),
        mail_arrives(mail, cuts),
    ensures
        ({
            let ends = Ends::start(srv_domain, timeout_ms, mail).exchanges(4, cuts);
            &&& ends.client matches SendStepView::Exchange(sender)
            &&& sender.stage == Stage::Content
            &&& fed_with_pauses(ends.server, cuts(sender.stage)) matches StepView::Deliver(
                delivering,
            )
            &&& delivering.email == mail
        }),
{
    let (ends, talk, sender) = lemma_four_exchanges(srv_domain, timeout_ms, mail, cuts);
    lemma_content_is_taken(talk, sender, cuts(Stage::Content));
    assert((EmailView { mail_content: sender.mail_content, ..talk.email }) == mail);
}

/// The client that sends such a mail gets the answers that it expects, to the end, and the
/// conversation ends well for both.
pub proof fn law_sending_succeeds(
    srv_domain: Seq<char>,
    timeout_ms: u64,
    mail: EmailView,
    cuts: spec_fn(Stage) -> Seq<Seq<Seq<u8>>>,
)
    requires
        is_sendable(mail),
        mail_arrives(mail, cuts),
    ensures
        Ends::start(srv_domain, timeout_ms, mail).exchanges(6, cuts) == (Ends {
            server: StepView::End(Outcome::Closed(Ok(()))),
            client: SendStepView::Sent,
        }),
{
    broadcast use encode_utf8_decode_utf8;

    let start = Ends::start(srv_domain, timeout_ms, mail);
    let fresh = ConversationView::fresh(srv_domain, timeout_ms);
    let (ends, talk, sender) = lemma_four_exchanges(srv_domain, timeout_ms, mail, cuts);
    lemma_content_is_taken(talk, sender, cuts(Stage::Content));
    assert(talk.reset().with_buf(Seq::empty()) == fresh);
    assert(start.exchanges(5, cuts) == start.exchanges(4, cuts).exchange(cuts));
    assert(start.exchanges(5, cuts).server == fresh.await_command());
    assert(start.exchanges(5, cuts).client == SendStepView::Exchange(sender.at(Stage::Quit)));
    lemma_quit_is_answered(fresh, sender.at(Stage::Quit), cuts(Stage::Quit));
    assert(start.exchanges(6, cuts) == start.exchanges(5, cuts).exchange(cuts));
}

/// Where both ends are when the content is about to be sent.
proof fn lemma_four_exchanges(
    srv_domain: Seq<char>,
    timeout_ms: u64,
    mail: EmailView,
    cuts: spec_fn(Stage) -> Seq<Seq<Seq<u8>>>,
) -> (at: (Ends, ConversationView, SenderView))
    requires
        is_sendable(mail),
        mail_arrives(mail, cuts),
    ensures
        at.0 == Ends::start(srv_domain, timeout_ms, mail).exchanges(4, cuts),
        at.0.server == at.1.await_data(),
        at.0.client == SendStepView::Exchange(at.2),
        at.2 == SenderView::start(mail.mail_from, mail.mail_to, mail.mail_content).at(
            Stage::Content,
        ),
        at.1.reset().with_buf(Seq::empty()) == ConversationView::fresh(srv_domain, timeout_ms),
        at.1.email.mail_from == mail.mail_from,
        at.1.email.mail_to == mail.mail_to,
{
    broadcast use encode_utf8_decode_utf8;

    let start = Ends::start(srv_domain, timeout_ms, mail);
    let sender = SenderView::start(mail.mail_from, mail.mail_to, mail.mail_content);
    let none = Seq::<u8>::empty();

    let talk0 = ConversationView::fresh(srv_domain, timeout_ms);
    assert(start.exchanges(0, cuts) == start);
    assert(start.server == talk0.await_command());

    let bursts0 = cuts(Stage::Helo);
    let talk1 = talk0.in_state(SmtpState::SmtpStateAwaitFrom);
    assert(sender == sender.at(Stage::Helo));
    lemma_helo_is_answered(talk0, sender, bursts0);
    assert(talk0.with_buf(all_of(bursts0)).in_state(SmtpState::SmtpStateAwaitFrom).with_buf(none)
        == talk1);
    assert(start.exchanges(1, cuts) == start.exchanges(0, cuts).exchange(cuts));
    assert(start.exchanges(1, cuts).server == talk1.await_command());

    let bursts1 = cuts(Stage::MailFrom);
    let sender1 = sender.at(Stage::MailFrom);
    let talk2 = talk1.with_sender(mail.mail_from).in_state(SmtpState::SmtpStateAwaitRcpt);
    lemma_mail_from_is_answered(talk1, sender1, bursts1);
    assert(talk1.with_buf(all_of(bursts1)).with_sender(mail.mail_from).in_state(
        SmtpState::SmtpStateAwaitRcpt,
    ).with_buf(none) == talk2);
    assert(start.exchanges(2, cuts) == start.exchanges(1, cuts).exchange(cuts));
    assert(start.exchanges(2, cuts).server == talk2.await_command());

    let bursts2 = cuts(Stage::RcptTo);
    let sender2 = sender.at(Stage::RcptTo);
    let talk3 = talk2.with_recipient(mail.mail_to).in_state(SmtpState::SmtpStateAwaitDataOrRcpt);
    lemma_rcpt_to_is_answered(talk2, sender2, bursts2);
    assert(talk2.with_buf(all_of(bursts2)).with_recipient(mail.mail_to).in_state(
        SmtpState::SmtpStateAwaitDataOrRcpt,
    ).with_buf(none) == talk3);
    assert(start.exchanges(3, cuts) == start.exchanges(2, cuts).exchange(cuts));
    assert(start.exchanges(3, cuts).server == talk3.await_command());

    let bursts3 = cuts(Stage::Data);
    let sender3 = sender.at(Stage::Data);
    let talk4 = talk3.in_state(SmtpState::SmtpStateAwaitData).with_buf(all_of(bursts3));
    lemma_data_is_answered(talk3, sender3, bursts3);
    assert(talk3.with_buf(all_of(bursts3)).in_state(SmtpState::SmtpStateAwaitData) == talk4);
    assert(start.exchanges(4, cuts) == start.exchanges(3, cuts).exchange(cuts));
    assert(start.exchanges(4, cuts).server == talk4.await_data());
    assert(talk4.reset().with_buf(none) == talk0);
    (start.exchanges(4, cuts), talk4, sender.at(Stage::Content))
}

} // verus!
