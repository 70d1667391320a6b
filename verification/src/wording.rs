//! What holds of the words themselves: how a text is read, and what is written where.

use vstd::prelude::*;
use vstd::string::*;
use vstd::utf8::*;

use crate::address::{address_of, is_email_address};
use crate::cli::{asked_for, Invocation};
use crate::email::{Email, EmailView};
use crate::protocol::{
    SmtpError, SmtpState, COMMAND_TERM, DATA_TIMEOUT_MS, DRAIN_TIMEOUT_MS, EMAIL_TERM,
    MAX_SOCKET_READ_BYTES, RESP_AUTH_OK, RESP_BUSY_ERROR, RESP_BYE, RESP_END_DATA_WITH,
    RESP_MAILSERVER_GREET, RESP_OK, RESP_SERVICE_UNAVAILABLE, RESP_SYNTAX_ERROR,
    RESP_UNKNOWN_COMMAND,
};
use crate::rules::is_address;
use crate::server::started_text;
use crate::text::{
    behind, is_white_space, lemma_word_len_bound, text_of, without_brackets,
    without_leading_brackets, without_trailing_brackets, word_at, word_len, words,
};
use crate::verb::{admits, operand, verb_named, Verb};

verus! {

/// White space is what Unicode lists as such: 25 characters, by their numbers.
pub proof fn law_white_space(c: char)
    ensures
        is_white_space(c) <==> ({
            let n = c as int;
            ||| 9 <= n <= 13
            ||| n == 0x20
            ||| n == 0x85
            ||| n == 0xa0
            ||| n == 0x1680
            ||| 0x2000 <= n <= 0x200a
            ||| n == 0x2028
            ||| n == 0x2029
            ||| n == 0x202f
            ||| n == 0x205f
            ||| n == 0x3000
        }),
{
}

/// A text without white space is one word: itself.
pub proof fn law_one_word(text: Seq<char>)
    requires
        text.len() > 0,
        forall|i: int| 0 <= i < text.len() ==> !is_white_space(#[trigger] text[i]),
    ensures
        words(text) == seq![text],
{
    lemma_word_takes_all(text);
    assert(text.take(text.len() as int) == text);
    assert(text.skip(text.len() as int) == Seq::<char>::empty());
    assert(words(Seq::<char>::empty()) == Seq::<Seq<char>>::empty());
    assert(seq![text] + Seq::<Seq<char>>::empty() == seq![text]);
}

/// White space ends a word: the words of a text are those before any white space in it, and
/// those behind it.
pub proof fn law_white_space_parts_words(before: Seq<char>, space: char, behind: Seq<char>)
    requires
        is_white_space(space),
    ensures
        words(before + seq![space] + behind) == words(before) + words(behind),
    decreases before.len(),
{
    let text = before + seq![space] + behind;
    if before.len() == 0 {
        assert(text[0] == space);
        assert(text.skip(1) == behind);
        assert(words(before) + words(behind) == words(behind));
    } else if is_white_space(before[0]) {
        assert(text[0] == before[0]);
        assert(text.skip(1) == before.skip(1) + seq![space] + behind);
        law_white_space_parts_words(before.skip(1), space, behind);
    } else {
        let rest = seq![space] + behind;
        assert(text == before + rest);
        assert(text[0] == before[0]);
        lemma_word_len_stays(before, rest);
        lemma_word_len_bound(before);
        let n = word_len(before) as int;
        assert(n > 0);
        assert(text.take(n) == before.take(n));
        assert(text.skip(n) == before.skip(n) + seq![space] + behind);
        law_white_space_parts_words(before.skip(n), space, behind);
        assert(seq![before.take(n)] + (words(before.skip(n)) + words(behind)) == seq![
            before.take(n),
        ] + words(before.skip(n)) + words(behind));
    }
}

/// Nothing but white space has no words.
pub proof fn law_white_space_has_no_words(text: Seq<char>)
    requires
        forall|i: int| 0 <= i < text.len() ==> is_white_space(#[trigger] text[i]),
    ensures
        words(text) == Seq::<Seq<char>>::empty(),
    decreases text.len(),
{
    if text.len() > 0 {
        assert forall|i: int| 0 <= i < text.skip(1).len() implies is_white_space(
            #[trigger] text.skip(1)[i],
        ) by {
            assert(text.skip(1)[i] == text[i + 1]);
        }
        law_white_space_has_no_words(text.skip(1));
    }
}

/// The first two words of a line are found wherever the white space is, and whatever follows.
pub proof fn law_two_words(
    indent: Seq<char>,
    first: Seq<char>,
    gap: Seq<char>,
    second: Seq<char>,
    rest: Seq<char>,
)
    requires
        first.len() > 0,
        gap.len() > 0,
        second.len() > 0,
        forall|i: int| 0 <= i < indent.len() ==> is_white_space(#[trigger] indent[i]),
        forall|i: int| 0 <= i < first.len() ==> !is_white_space(#[trigger] first[i]),
        forall|i: int| 0 <= i < gap.len() ==> is_white_space(#[trigger] gap[i]),
        forall|i: int| 0 <= i < second.len() ==> !is_white_space(#[trigger] second[i]),
        rest.len() == 0 || is_white_space(rest[0]),
    ensures
        words(indent + first + gap + second + rest).len() >= 2,
        words(indent + first + gap + second + rest)[0] == first,
        words(indent + first + gap + second + rest)[1] == second,
{
    let text = indent + first + gap + second + rest;
    let tail = second + rest;
    law_one_word(first);
    law_one_word(second);
    assert(words(tail).len() >= 1 && words(tail)[0] == second) by {
        if rest.len() == 0 {
            assert(tail == second);
        } else {
            assert(tail == second + seq![rest[0]] + rest.skip(1));
            law_white_space_parts_words(second, rest[0], rest.skip(1));
        }
    }
    let gap_start = gap.drop_last();
    let gap_end = gap.last();
    assert(gap[gap.len() - 1] == gap_end);
    let head = indent + first + gap_start;
    assert(text == head + seq![gap_end] + tail) by {
        assert(gap == gap_start + seq![gap_end]);
    }
    law_white_space_parts_words(head, gap_end, tail);
    assert(words(head) == seq![first]) by {
        law_single_word(indent, first, gap_start);
    }
}

/// A line of one word has that word and no other, wherever the white space is.
pub proof fn law_single_word(indent: Seq<char>, first: Seq<char>, gap: Seq<char>)
    requires
        first.len() > 0,
        forall|i: int| 0 <= i < indent.len() ==> is_white_space(#[trigger] indent[i]),
        forall|i: int| 0 <= i < first.len() ==> !is_white_space(#[trigger] first[i]),
        forall|i: int| 0 <= i < gap.len() ==> is_white_space(#[trigger] gap[i]),
    ensures
        words(indent + first + gap) == seq![first],
{
    let none = Seq::<Seq<char>>::empty();
    law_one_word(first);
    let word = first + gap;
    assert(words(word) == seq![first]) by {
        if gap.len() == 0 {
            assert(word == first);
        } else {
            assert forall|i: int| 0 <= i < gap.skip(1).len() implies is_white_space(
                #[trigger] gap.skip(1)[i],
            ) by {
                assert(gap.skip(1)[i] == gap[i + 1]);
            }
            law_white_space_has_no_words(gap.skip(1));
            assert(word == first + seq![gap[0]] + gap.skip(1));
            law_white_space_parts_words(first, gap[0], gap.skip(1));
            assert(seq![first] + none == seq![first]);
        }
    }
    if indent.len() == 0 {
        assert(indent + first + gap == word);
    } else {
        assert(indent[indent.len() - 1] == indent.last());
        assert forall|i: int| 0 <= i < indent.drop_last().len() implies is_white_space(
            #[trigger] indent.drop_last()[i],
        ) by {
            assert(indent.drop_last()[i] == indent[i]);
        }
        law_white_space_has_no_words(indent.drop_last());
        assert(indent + first + gap == indent.drop_last() + seq![indent.last()] + word);
        law_white_space_parts_words(indent.drop_last(), indent.last(), word);
        assert(none + seq![first] == seq![first]);
    }
}

proof fn lemma_word_takes_all(text: Seq<char>)
    requires
        forall|i: int| 0 <= i < text.len() ==> !is_white_space(#[trigger] text[i]),
    ensures
        word_len(text) == text.len(),
    decreases text.len(),
{
    if text.len() > 0 {
        assert forall|i: int| 0 <= i < text.skip(1).len() implies !is_white_space(
            #[trigger] text.skip(1)[i],
        ) by {
            assert(text.skip(1)[i] == text[i + 1]);
        }
        lemma_word_takes_all(text.skip(1));
    }
}

/// White space behind a text does not make its first word longer.
proof fn lemma_word_len_stays(text: Seq<char>, rest: Seq<char>)
    requires
        rest.len() > 0,
        is_white_space(rest[0]),
    ensures
        word_len(text + rest) == word_len(text),
    decreases text.len(),
{
    if text.len() == 0 {
        assert(text + rest == rest);
    } else {
        assert((text + rest)[0] == text[0]);
        assert((text + rest).skip(1) == text.skip(1) + rest);
        if !is_white_space(text[0]) {
            lemma_word_len_stays(text.skip(1), rest);
        }
    }
}

/// The word at an index is the one that stands there; behind the last there is none.
pub proof fn law_word_at(text: Seq<char>, index: nat)
    ensures
        index < words(text).len() ==> word_at(text, index as int) == Some(
            words(text)[index as int],
        ),
        index >= words(text).len() ==> word_at(text, index as int) is None,
{
}

/// All brackets at either end of a text are taken off, and nothing else.
pub proof fn law_brackets_come_off(lead: Seq<char>, core: Seq<char>, trail: Seq<char>)
    requires
        forall|i: int| 0 <= i < lead.len() ==> #[trigger] lead[i] == '<' || lead[i] == '>',
        forall|i: int| 0 <= i < trail.len() ==> #[trigger] trail[i] == '<' || trail[i] == '>',
        core.len() > 0 ==> core[0] != '<' && core[0] != '>' && core.last() != '<' && core.last()
            != '>',
    ensures
        without_brackets(lead + core + trail) == core,
{
    assert(lead + core + trail == lead + (core + trail));
    lemma_lead_comes_off(lead, core + trail);
    if core.len() == 0 {
        assert(core + trail == trail);
        lemma_lead_comes_off(trail, Seq::empty());
        assert(trail + Seq::<char>::empty() == trail);
        assert(without_brackets(lead + core + trail) == core);
    } else {
        assert((core + trail)[0] == core[0]);
        lemma_trail_comes_off(core, trail);
    }
}

proof fn lemma_lead_comes_off(lead: Seq<char>, rest: Seq<char>)
    requires
        forall|i: int| 0 <= i < lead.len() ==> #[trigger] lead[i] == '<' || lead[i] == '>',
    ensures
        without_leading_brackets(lead + rest) == without_leading_brackets(rest),
    decreases lead.len(),
{
    if lead.len() == 0 {
        assert(lead + rest == rest);
    } else {
        assert((lead + rest)[0] == lead[0]);
        assert((lead + rest).skip(1) == lead.skip(1) + rest);
        assert forall|i: int| 0 <= i < lead.skip(1).len() implies #[trigger] lead.skip(1)[i] == '<'
            || lead.skip(1)[i] == '>' by {
            assert(lead.skip(1)[i] == lead[i + 1]);
        }
        lemma_lead_comes_off(lead.skip(1), rest);
    }
}

proof fn lemma_trail_comes_off(core: Seq<char>, trail: Seq<char>)
    requires
        core.len() > 0,
        core.last() != '<' && core.last() != '>',
        forall|i: int| 0 <= i < trail.len() ==> #[trigger] trail[i] == '<' || trail[i] == '>',
    ensures
        without_trailing_brackets(core + trail) == core,
    decreases trail.len(),
{
    if trail.len() == 0 {
        assert(core + trail == core);
    } else {
        assert(trail[trail.len() - 1] == trail.last());
        assert((core + trail).last() == trail.last());
        assert((core + trail).drop_last() == core + trail.drop_last());
        let fewer = trail.drop_last();
        assert forall|i: int| 0 <= i < fewer.len() implies #[trigger] fewer[i] == '<' || fewer[i]
            == '>' by {
            assert(fewer[i] == trail[i]);
        }
        lemma_trail_comes_off(core, trail.drop_last());
    }
}

/// What stands behind a prefix is what makes up the text together with it.
pub proof fn law_behind(text: Seq<char>, prefix: Seq<char>, rest: Seq<char>)
    ensures
        behind(text, prefix) == Some(rest) <==> text == prefix + rest,
{
    if text == prefix + rest {
        assert(text.subrange(0, prefix.len() as int) == prefix);
        assert(text.skip(prefix.len() as int) == rest);
    }
    if behind(text, prefix) == Some(rest) {
        assert(text == prefix + text.skip(prefix.len() as int));
    }
}

/// An operand is its keyword with something behind it; that is what is read.
pub proof fn law_operand(argument: Option<Seq<char>>, keyword: Seq<char>, rest: Seq<char>)
    ensures
        operand(argument, keyword) == Some(rest) <==> argument == Some(keyword + rest) && rest.len()
            > 0,
{
    if let Some(text) = argument {
        law_behind(text, keyword, rest);
    }
}

/// An address is read as it is written; it has an `@`, and is what [`is_email_address`] names.
pub proof fn law_address(text: Seq<char>, address: Seq<char>)
    ensures
        address_of(text) == Some(address) <==> address == text && text.contains('@')
            && is_email_address(text),
        is_address(text) <==> text.contains('@') && is_email_address(text),
{
}

/// Each verb has its words, and no other word means it.
pub proof fn law_verbs_have_their_words(word: Seq<char>)
    ensures
        verb_named(word) == Verb::Helo <==> word == "HELO"@,
        verb_named(word) == Verb::Ehlo <==> word == "EHLO"@,
        verb_named(word) == Verb::Auth <==> word == "AUTH"@,
        verb_named(word) == Verb::Noop <==> (word == "NOOP"@ || word == "HELP"@ || word == "INFO"@
            || word == "VRFY"@ || word == "EXPN"@),
        verb_named(word) == Verb::Mail <==> word == "MAIL"@,
        verb_named(word) == Verb::Rcpt <==> word == "RCPT"@,
        verb_named(word) == Verb::Data <==> word == "DATA"@,
        verb_named(word) == Verb::Rset <==> word == "RSET"@,
        verb_named(word) == Verb::Quit <==> word == "QUIT"@,
{
    reveal_strlit("HELO");
    reveal_strlit("EHLO");
    reveal_strlit("AUTH");
    reveal_strlit("NOOP");
    reveal_strlit("HELP");
    reveal_strlit("INFO");
    reveal_strlit("VRFY");
    reveal_strlit("EXPN");
    reveal_strlit("MAIL");
    reveal_strlit("RCPT");
    reveal_strlit("DATA");
    reveal_strlit("RSET");
    reveal_strlit("QUIT");
    assert("HELO"@[0] == 'H' && "HELO"@[3] == 'O' && "HELP"@[0] == 'H' && "HELP"@[3] == 'P');
    assert("EHLO"@[0] == 'E' && "EHLO"@[1] == 'H' && "EXPN"@[0] == 'E' && "EXPN"@[1] == 'X');
    assert("AUTH"@[0] == 'A' && "NOOP"@[0] == 'N' && "INFO"@[0] == 'I' && "VRFY"@[0] == 'V');
    assert("MAIL"@[0] == 'M' && "DATA"@[0] == 'D' && "QUIT"@[0] == 'Q');
    assert("RSET"@[0] == 'R' && "RSET"@[1] == 'S' && "RCPT"@[0] == 'R' && "RCPT"@[1] == 'C');
}

/// The order of a conversation: greeting, sender, recipients, content. The other verbs are
/// admitted at any time.
pub proof fn law_order_of_verbs(state: SmtpState)
    ensures
        admits(state, Verb::Helo) <==> state is SmtpStateAwaitGreet,
        admits(state, Verb::Ehlo) <==> state is SmtpStateAwaitGreet,
        admits(state, Verb::Mail) <==> state is SmtpStateAwaitFrom,
        admits(state, Verb::Rcpt) <==> (state is SmtpStateAwaitRcpt
            || state is SmtpStateAwaitDataOrRcpt),
        admits(state, Verb::Data) <==> state is SmtpStateAwaitDataOrRcpt,
        admits(state, Verb::Auth),
        admits(state, Verb::Noop),
        admits(state, Verb::Rset),
        admits(state, Verb::Quit),
        !admits(state, Verb::Unknown),
{
}

/// The replies, word for word, and the limits.
pub proof fn law_replies()
    ensures
        RESP_MAILSERVER_GREET@ == "220 rs-mailserver\r\n"@,
        RESP_END_DATA_WITH@ == "354 End data with <CR><LF>.<CR><LF>\r\n"@,
        RESP_OK@ == "250 Ok\r\n"@,
        RESP_AUTH_OK@ == "235 Ok\n"@,
        RESP_BYE@ == "221 Bye\r\n"@,
        RESP_UNKNOWN_COMMAND@ == "500 Command not recognized\r\n"@,
        RESP_SYNTAX_ERROR@ == "500 Syntax error\r\n"@,
        RESP_BUSY_ERROR@ == "450 mailbox unavailable\r\n"@,
        RESP_SERVICE_UNAVAILABLE@
            == "421 Service not available, closing transmission channel\r\n"@,
        MAX_SOCKET_READ_BYTES == 512_000,
        DATA_TIMEOUT_MS == 5_000,
        DRAIN_TIMEOUT_MS == 10,
{
}

/// What ends a command and what ends a content, byte for byte.
pub proof fn law_end_markers()
    ensures
        COMMAND_TERM.spec_bytes() == seq![13u8, 10u8],
        EMAIL_TERM.spec_bytes() == seq![13u8, 10u8, 46u8, 13u8, 10u8],
        encode_utf8("\r\n.\r\n"@) == seq![13u8, 10u8, 46u8, 13u8, 10u8],
{
    reveal_strlit("\r\n");
    reveal_strlit("\r\n.\r\n");
    is_ascii_chars_encode_utf8(COMMAND_TERM@);
    is_ascii_chars_encode_utf8(EMAIL_TERM@);
}

/// Every error in words; a malformed command is named in full, in quotes.
pub proof fn law_error_messages(name: String)
    ensures
        SmtpError::NoContentError.text() == "no content received before timeout"@,
        SmtpError::PayloadTooLargeError.text() == "socket payload too large"@,
        SmtpError::RateLimitError.text() == "rate limited, channel is too busy"@,
        SmtpError::ServerShutdown.text() == "server shutting down"@,
        ({
            let text = SmtpError::CommandParsingError(name).text();
            &&& text.len() == 28 + name@.len() + 1
            &&& text.take(28) == "invalid syntax for command \""@
            &&& text.subrange(28, 28int + name@.len()) == name@
            &&& text.last() == '"'
        }),
{
    reveal_strlit("invalid syntax for command \"");
    reveal_strlit("\"");
    let text = SmtpError::CommandParsingError(name).text();
    assert(text.take(28) == "invalid syntax for command \""@);
    assert(text.subrange(28, 28int + name@.len()) == name@);
}

/// Every state has a name of its own: its own.
pub proof fn law_state_names()
    ensures
        SmtpState::SmtpStateAwaitGreet.text() == "SmtpStateAwaitGreet"@,
        SmtpState::SmtpStateAwaitFrom.text() == "SmtpStateAwaitFrom"@,
        SmtpState::SmtpStateAwaitRcpt.text() == "SmtpStateAwaitRcpt"@,
        SmtpState::SmtpStateAwaitDataOrRcpt.text() == "SmtpStateAwaitDataOrRcpt"@,
        SmtpState::SmtpStateAwaitData.text() == "SmtpStateAwaitData"@,
{
}

/// The line with which the server says that it is up names the whole address and the whole
/// domain.
pub proof fn law_started_line(addr: Seq<char>, domain: Seq<char>)
    ensures
        ({
            let text = started_text(addr, domain);
            let at = 34int + addr.len();
            &&& text.len() == at + 2 + domain.len() + 1
            &&& text.take(34) == "SMTP Server started. Listening to "@
            &&& text.subrange(34, at) == addr
            &&& text.subrange(at, at + 2) == " ("@
            &&& text.subrange(at + 2, at + 2 + domain.len()) == domain
            &&& text.last() == ')'
        }),
{
    reveal_strlit("SMTP Server started. Listening to ");
    reveal_strlit(" (");
    reveal_strlit(")");
    let text = started_text(addr, domain);
    let at = 34int + addr.len();
    assert(text.take(34) == "SMTP Server started. Listening to "@);
    assert(text.subrange(34, at) == addr);
    assert(text.subrange(at, at + 2) == " ("@);
    assert(text.subrange(at + 2, at + 2 + domain.len()) == domain);
}

/// What the command line asks for: to send, with all four operands; to receive, with a domain
/// and what stands behind it; a domain, where `recv` has none; and help in every other case.
pub proof fn law_command_line(args: Seq<String>, invocation: Invocation)
    requires
        asked_for(args, invocation),
    ensures
        invocation is Send <==> args.len() >= 5 && args[0]@ == "send"@,
        invocation matches Invocation::Send { srv_addr, mail_from, mail_to, mail_content } ==> {
            &&& srv_addr@ == args[1]@
            &&& mail_from@ == args[2]@
            &&& mail_to@ == args[3]@
            &&& mail_content@ == args[4]@
        },
        invocation is Recv <==> args.len() >= 2 && args[0]@ == "recv"@,
        invocation matches Invocation::Recv { domain, redis_addr, listen_addr } ==> {
            &&& domain@ == args[1]@
            &&& redis_addr is Some <==> args.len() >= 3
            &&& redis_addr matches Some(addr) ==> addr@ == args[2]@
            &&& args.len() >= 4 ==> listen_addr@ == args[3]@
            &&& args.len() < 4 ==> listen_addr@ == "0.0.0.0:25"@
        },
        invocation is DomainRequired <==> args.len() == 1 && args[0]@ == "recv"@,
{
    reveal_strlit("send");
    reveal_strlit("recv");
    assert("send"@[0] == 's' && "recv"@[0] == 'r');
}

/// A mail is valid exactly if nothing of it is missing, and a blank one lacks everything.
pub proof fn law_valid_mails(mail_from: Seq<char>, mail_to: Seq<char>, mail_content: Seq<char>)
    ensures
        (EmailView { mail_from, mail_to, mail_content }).valid() <==> mail_from != Seq::<
            char,
        >::empty() && mail_to != Seq::<char>::empty() && mail_content != Seq::<char>::empty(),
        EmailView::blank() == (EmailView {
            mail_from: Seq::empty(),
            mail_to: Seq::empty(),
            mail_content: Seq::empty(),
        }),
{
    assert(mail_from.len() == 0 ==> mail_from == Seq::<char>::empty());
    assert(mail_to.len() == 0 ==> mail_to == Seq::<char>::empty());
    assert(mail_content.len() == 0 ==> mail_content == Seq::<char>::empty());
}

/// A mail is seen as what its parts say, and an optional text as what it says.
pub proof fn law_texts_are_seen_whole(email: Email, text: String)
    ensures
        email@ == (EmailView {
            mail_from: email.mail_from@,
            mail_to: email.mail_to@,
            mail_content: email.mail_content@,
        }),
        text_of(Some(text)) == Some(text@),
        text_of(None) == None::<Seq<char>>,
{
}

} // verus!
