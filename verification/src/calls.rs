//! What callers get: the results of the library's functions, in terms of what is handed to them.

use vstd::prelude::*;
use vstd::string::*;
use vstd::utf8::*;

use crate::address::{is_email_address, parse_address};
use crate::cli::{asked_for, parse_args, Invocation};
use crate::conduct::lemma_line_end;
use crate::email::Email;
use crate::protocol::{SmtpError, SmtpState};
use crate::reading::{read_command, ReadCommand, ReadOutcome};
use crate::sender::{
    check_response, law_any_other_answer_is_a_refusal, SendStep, Sender, Stage,
};
use crate::server::{started_message, started_text};
use crate::session::{
    send_email_channel, start, Command, Conversation, Delivering, Next, Reading, SendOutcome, Step,
    Writing,
};
use crate::text::{first_words, strip_prefix, text_of, trim_brackets, words};
use crate::verb::{admits, is_admitted, parse_operand, verb_named, verb_of, Verb};
use crate::wording::{law_brackets_come_off, law_operand};

verus! {

/// A new mail has nothing in it; a mail is valid exactly if nothing of it is empty; and a copy
/// says what the mail says.
pub proof fn law_mail_calls(email: Email, copy: Email, valid: bool)
    ensures
        call_ensures(Email::new, (), email) ==> email.mail_from@.len() == 0 && email.mail_to@.len()
            == 0 && email.mail_content@.len() == 0,
        call_ensures(Email::is_valid, (&email,), valid) ==> (valid <==> email.mail_from@.len() > 0
            && email.mail_to@.len() > 0 && email.mail_content@.len() > 0),
        call_ensures(Email::clone, (&email,), copy) ==> copy.mail_from@ == email.mail_from@
            && copy.mail_to@ == email.mail_to@ && copy.mail_content@ == email.mail_content@,
{
}

/// Errors and states are told in their words.
pub proof fn law_word_calls(
    error: SmtpError,
    message: String,
    state: SmtpState,
    name: &'static str,
    addr: &str,
    domain: &str,
    started: String,
)
    ensures
        call_ensures(SmtpError::message, (&error,), message) ==> message@ == error.text(),
        call_ensures(SmtpState::name, (&state,), name) ==> name@ == state.text(),
        call_ensures(started_message, (addr, domain), started) ==> started@ == started_text(
            addr@,
            domain@,
        ),
{
}

/// An address is found exactly in a text that is one, and is that text.
pub proof fn law_address_calls(text: &str, address: Option<String>)
    requires
        call_ensures(parse_address, (text,), address),
    ensures
        address is Some <==> text@.contains('@') && is_email_address(text@),
        address matches Some(found) ==> found@ == text@,
{
}

/// The first two words of a text are found, each only if it is there.
pub proof fn law_word_finding_calls(text: &str, found: (Option<String>, Option<String>))
    requires
        call_ensures(first_words, (text,), found),
    ensures
        found.0 is Some <==> words(text@).len() >= 1,
        found.1 is Some <==> words(text@).len() >= 2,
        found.0 matches Some(first) ==> first@ == words(text@)[0],
        found.1 matches Some(second) ==> second@ == words(text@)[1],
{
    assert(text_of(found.0) is Some <==> found.0 is Some);
    assert(text_of(found.1) is Some <==> found.1 is Some);
}

/// A prefix comes off exactly where it stands, and brackets at either end come off.
pub proof fn law_cutting_calls(
    text: &str,
    prefix: &str,
    rest: Option<String>,
    trimmed: String,
    lead: Seq<char>,
    core: Seq<char>,
    trail: Seq<char>,
)
    requires
        forall|i: int| 0 <= i < lead.len() ==> #[trigger] lead[i] == '<' || lead[i] == '>',
        forall|i: int| 0 <= i < trail.len() ==> #[trigger] trail[i] == '<' || trail[i] == '>',
        core.len() > 0 ==> core[0] != '<' && core[0] != '>' && core.last() != '<' && core.last()
            != '>',
    ensures
        call_ensures(strip_prefix, (text, prefix), rest) ==> match rest {
            Some(behind) => text@ == prefix@ + behind@,
            None => text@.len() < prefix@.len() || text@.take(prefix@.len() as int) != prefix@,
        },
        call_ensures(trim_brackets, (text,), trimmed) && text@ == lead + core + trail
            ==> trimmed@ == core,
{
    law_brackets_come_off(lead, core, trail);
    if call_ensures(strip_prefix, (text, prefix), rest) {
        match rest {
            Some(behind) => {
                assert(text@ == prefix@ + text@.skip(prefix@.len() as int));
            },
            None => {
                if text@.len() >= prefix@.len() && text@.take(prefix@.len() as int) == prefix@ {
                    assert(text@.subrange(0, prefix@.len() as int) == prefix@);
                }
            },
        }
    }
}

/// A word gives the verb it names, and a verb is admitted in its turn.
pub proof fn law_verb_calls(word: &str, verb: Verb, state: SmtpState, admitted: bool)
    ensures
        call_ensures(verb_of, (word,), verb) ==> verb == verb_named(word@),
        call_ensures(is_admitted, (state, verb), admitted) ==> admitted == admits(state, verb),
{
}

/// An operand is read exactly where its keyword has something behind it; where not, the error
/// names the command.
pub proof fn law_operand_calls(
    argument: Option<String>,
    keyword: &str,
    command_name: &str,
    parsed: Result<String, SmtpError>,
    rest: Seq<char>,
)
    requires
        call_ensures(parse_operand, (&argument, keyword, command_name), parsed),
    ensures
        parsed matches Ok(found) ==> argument is Some && argument->0@ == keyword@ + found@
            && found@.len() > 0,
        argument is Some && argument->0@ == keyword@ + rest && rest.len() > 0 ==> parsed is Ok
            && parsed->Ok_0@ == rest,
        parsed matches Err(error) ==> (error matches SmtpError::CommandParsingError(name) && name@
            == command_name@),
{
    law_operand(text_of(argument), keyword@, rest);
    if let Ok(found) = parsed {
        law_operand(text_of(argument), keyword@, found@);
    }
}

/// A command is ready once the buffer ends with a line end or nothing more comes, with all its
/// bytes; nothing at all is no command.
pub proof fn law_command_reading_calls(n: usize, count: usize, to: Vec<u8>, step: ReadCommand)
    requires
        call_ensures(read_command, (n, count, &to), step),
    ensures
        step is NoContent <==> n == 0 && count == 0,
        step matches ReadCommand::Ready(total) ==> total == n + count,
        step matches ReadCommand::Unfinished(total) ==> total == n + count,
        step is Unfinished <==> count > 0 && !(to@.len() >= 2 && to@[to@.len() - 2] == 13
            && to@[to@.len() - 1] == 10),
{
    lemma_line_end(to@);
}

/// What became of a mail that was handed over decides how it is told.
pub proof fn law_channel_calls(outcome: SendOutcome, result: Result<(), SmtpError>)
    requires
        call_ensures(send_email_channel, (outcome,), result),
    ensures
        outcome is Sent <==> result is Ok,
        outcome is TimedOut <==> (result matches Err(error) && error is RateLimitError),
        (outcome is Closed || outcome is Cancelled) <==> (result matches Err(error)
            && error is ServerShutdown),
{
}

/// A conversation is opened by greeting the client, under the name that was given.
pub proof fn law_opening_calls(srv_domain: String, timeout_ms: u64, step: Step)
    requires
        call_ensures(start, (srv_domain, timeout_ms), step),
    ensures
        step matches Step::Write(writing) && ({
            &&& writing.bytes@ == encode_utf8("220 rs-mailserver\r\n"@)
            &&& writing.next is Begin
            &&& writing.talk.srv_domain@ == srv_domain@
            &&& writing.talk.timeout_ms == timeout_ms
            &&& writing.talk.state is SmtpStateAwaitGreet
            &&& writing.talk.email.mail_from@.len() == 0
            &&& writing.talk.email.mail_to@.len() == 0
            &&& writing.talk.email.mail_content@.len() == 0
            &&& writing.talk.buf@.len() == 0
        }),
{
    assert(step@ is Write);
}

/// A conversation does what its rules say, whichever of its functions is called.
pub proof fn law_conversation_calls(
    talk: Conversation,
    text: &str,
    argument: Option<String>,
    verb: Verb,
    email: Email,
    ok_resp: &'static str,
    next: Next,
    data: Vec<u8>,
    bytes: &[u8],
    count: usize,
    step: Step,
)
    ensures
        call_ensures(Conversation::reply, (talk, text, next), step) ==> step@ == talk@.reply(
            text@,
            next,
        ),
        call_ensures(Conversation::handle_email, (talk, email, ok_resp, next), step) ==> step@
            == talk@.hand_over(email@, ok_resp@, next),
        call_ensures(Conversation::sender, (talk, argument), step) ==> step@ == talk@.sender(
            text_of(argument),
        ),
        call_ensures(Conversation::recipient, (talk, argument), step) ==> step@ == talk@.recipient(
            text_of(argument),
        ),
        call_ensures(Conversation::mail, (talk, argument), step) ==> step@ == talk@.mail(
            text_of(argument),
        ),
        call_ensures(Conversation::rcpt, (talk, argument), step) ==> step@ == talk@.rcpt(
            text_of(argument),
        ),
        call_ensures(Conversation::obey, (talk, verb, argument), step) ==> step@ == talk@.obey(
            verb,
            text_of(argument),
        ),
        call_ensures(Conversation::hear, (talk, text), step) ==> step@ == talk@.hear(text@),
        call_ensures(Conversation::content, (talk, bytes), step) ==> step@ == talk@.content(
            bytes@,
        ),
        call_ensures(Conversation::data, (talk, data, count), step) ==> step@ == talk@.data(
            data@,
            count as nat,
        ),
{
}

/// Every step goes on as its rules say.
pub proof fn law_step_calls(
    reading: Reading,
    read: ReadOutcome,
    command: Command,
    yes: bool,
    writing: Writing,
    written: bool,
    delivering: Delivering,
    outcome: SendOutcome,
    timeout_ms: u64,
    step: Step,
)
    ensures
        call_ensures(Reading::timeout_ms, (&reading,), timeout_ms) ==> timeout_ms
            == reading@.timeout_ms,
        call_ensures(Reading::resume, (reading, read), step) ==> step@ == reading@.next(read@),
        call_ensures(Command::is_text, (&command,), yes) ==> yes == command@.is_text(),
        call_ensures(Command::run, (command,), step) ==> step@ == command@.next(),
        call_ensures(Writing::resume, (writing, written), step) ==> step@ == writing@.next(written),
        call_ensures(Delivering::resume, (delivering, outcome), step) ==> step@
            == delivering@.next(outcome),
{
}

/// What a conversation and its steps hold is seen as it is.
pub proof fn law_steps_are_seen_whole(
    talk: Conversation,
    command: Command,
    writing: Writing,
    delivering: Delivering,
)
    ensures
        talk@.srv_domain == talk.srv_domain@,
        talk@.timeout_ms == talk.timeout_ms,
        talk@.state == talk.state,
        talk@.email == talk.email@,
        talk@.buf == talk.buf@,
        command@.talk == command.talk@,
        command@.n == command.n,
        writing@.talk == writing.talk@,
        writing@.bytes == writing.bytes@,
        writing@.next == writing.next,
        delivering@.talk == delivering.talk@,
        delivering@.email == delivering.email@,
        delivering@.ok_resp == delivering.ok_resp@,
        delivering@.next == delivering.next,
{
}

/// A client sends what it has to say, whole.
pub proof fn law_client_calls(
    mail_from: String,
    mail_to: String,
    mail_content: String,
    sender: Sender,
    command: Vec<u8>,
    expected: &'static str,
)
    ensures
        call_ensures(Sender::new, (mail_from, mail_to, mail_content), sender)
            ==> sender.stage is Helo && sender.mail_from@ == mail_from@ && sender.mail_to@ == mail_to@
            && sender.mail_content@ == mail_content@,
        call_ensures(Sender::command, (&sender,), command) ==> command@ == encode_utf8(
            sender@.text(),
        ),
        call_ensures(Sender::expected, (&sender,), expected) ==> expected@ == sender@.expected(),
{
}

/// A client goes on only if it hears what it should at its stage; from anything else it reports
/// the refusal, and from the last good answer that the mail is sent.
pub proof fn law_client_goes_on_only_if_accepted(sender: Sender, response: &[u8], step: SendStep)
    requires
        call_ensures(Sender::resume, (sender, response), step),
    ensures
        ({
            let good = match sender.stage {
                Stage::Data => "354 End data with <CR><LF>.<CR><LF>\r\n"@,
                Stage::Quit => "221 Bye\r\n"@,
                _ => "250 Ok\r\n"@,
            };
            let heard = decode_utf8(response@);
            &&& heard == good && sender.stage is Quit ==> step is Sent
            &&& heard == good && !(sender.stage is Quit) ==> (step matches SendStep::Exchange(next)
                && next.mail_from@ == sender.mail_from@ && next.mail_to@ == sender.mail_to@
                && next.mail_content@ == sender.mail_content@ && next.stage == match sender.stage {
                Stage::Helo => Stage::MailFrom,
                Stage::MailFrom => Stage::RcptTo,
                Stage::RcptTo => Stage::Data,
                Stage::Data => Stage::Content,
                _ => Stage::Quit,
            })
            &&& heard != good ==> (step matches SendStep::Refused(message) && message@.skip(33)
                == heard && message@.take(33) == "Unexpected response from server: "@)
        }),
{
    law_any_other_answer_is_a_refusal(sender@, decode_utf8(response@));
    assert(step@ == sender@.next(decode_utf8(response@)));
}

/// A response passes exactly if it is the expected one; if not, it is reported whole.
pub proof fn law_response_calls(expect: &str, response: &[u8], checked: Result<(), String>)
    requires
        call_ensures(check_response, (expect, response), checked),
    ensures
        checked is Ok <==> decode_utf8(response@) == expect@,
        checked matches Err(message) ==> message@ == "Unexpected response from server: "@
            + decode_utf8(response@),
{
}

/// The arguments give what they ask for.
pub proof fn law_command_line_calls(args: Vec<String>, invocation: Invocation)
    requires
        call_ensures(parse_args, (&args,), invocation),
    ensures
        asked_for(args@, invocation),
{
}

} // verus!
