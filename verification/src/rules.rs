//! The rules of a conversation: what follows from what, wherever the conversation waits.

use vstd::prelude::*;
use vstd::string::*;
use vstd::utf8::*;

use crate::address::address_of;
use crate::email::EmailView;
use crate::protocol::{
    SmtpError, SmtpState, DATA_TIMEOUT_MS, EMAIL_TERM, MAX_SOCKET_READ_BYTES, RESP_AUTH_OK,
    RESP_BUSY_ERROR, RESP_BYE, RESP_END_DATA_WITH, RESP_OK, RESP_SERVICE_UNAVAILABLE,
    RESP_SYNTAX_ERROR, RESP_UNKNOWN_COMMAND,
};
use crate::reading::{
    buffer_after, command_after, read_after, ReadCommandView, ReadEvent, ReadMoreView,
    SessionError,
};
use crate::session::{
    CommandView, ConversationView, DeliveringView, Next, Outcome, ReadingView, SendOutcome,
    StepView, TargetView, WritingView,
};
use crate::text::{without_brackets, word_at};
use crate::verb::{admits, operand, verb_named, Verb};

verus! {

impl ReadingView {
    /// The bytes of the command that have been counted are in the buffer.
    pub open spec fn counted(self) -> bool {
        self.target matches TargetView::Command(n) ==> n + self.total_read <= self.talk.buf.len()
    }
}

/// The reply to `EHLO`.
pub open spec fn hello_text(srv_domain: Seq<char>, fqdn: Seq<char>) -> Seq<char> {
    "250-"@ + srv_domain + " Hello "@ + fqdn + "\r\n250 AUTH PLAIN LOGIN\r\n"@
}

/// What the result of handing over a mail means.
pub open spec fn send_result(outcome: SendOutcome) -> Result<(), SmtpError> {
    match outcome {
        SendOutcome::Sent => Ok(()),
        SendOutcome::TimedOut => Err(SmtpError::RateLimitError),
        SendOutcome::Closed | SendOutcome::Cancelled => Err(SmtpError::ServerShutdown),
    }
}

impl ConversationView {
    /// A conversation in which nothing has been said.
    pub open spec fn fresh(srv_domain: Seq<char>, timeout_ms: u64) -> ConversationView {
        ConversationView {
            srv_domain,
            timeout_ms,
            state: SmtpState::SmtpStateAwaitGreet,
            email: EmailView::blank(),
            buf: Seq::empty(),
        }
    }

    /// The conversation in another state.
    pub open spec fn in_state(self, state: SmtpState) -> ConversationView {
        ConversationView { state, ..self }
    }

    /// The conversation with another command buffer.
    pub open spec fn with_buf(self, buf: Seq<u8>) -> ConversationView {
        ConversationView { buf, ..self }
    }

    /// The conversation with another sender of the mail.
    pub open spec fn with_sender(self, mail_from: Seq<char>) -> ConversationView {
        ConversationView { email: EmailView { mail_from, ..self.email }, ..self }
    }

    /// The conversation with another recipient of the mail.
    pub open spec fn with_recipient(self, mail_to: Seq<char>) -> ConversationView {
        ConversationView { email: EmailView { mail_to, ..self.email }, ..self }
    }

    /// The conversation with the mail forgotten and the greeting awaited again.
    pub open spec fn reset(self) -> ConversationView {
        ConversationView {
            state: SmtpState::SmtpStateAwaitGreet,
            email: EmailView::blank(),
            ..self
        }
    }

    /// Waiting for a command.
    pub open spec fn await_command(self) -> StepView {
        StepView::Read(
            ReadingView {
                talk: self,
                target: TargetView::Command(0),
                total_read: 0,
                timeout_ms: self.timeout_ms,
            },
        )
    }

    /// Waiting for the content of a mail.
    pub open spec fn await_data(self) -> StepView {
        StepView::Read(
            ReadingView {
                talk: self,
                target: TargetView::Data(Seq::empty()),
                total_read: 0,
                timeout_ms: DATA_TIMEOUT_MS,
            },
        )
    }

    /// Sending a reply.
    pub open spec fn reply(self, text: Seq<char>, next: Next) -> StepView {
        StepView::Write(WritingView { talk: self, bytes: encode_utf8(text), next })
    }

    /// Handing a mail over, if it is valid, and answering `ok_resp`.
    pub open spec fn hand_over(self, email: EmailView, ok_resp: Seq<char>, next: Next) -> StepView {
        if email.valid() {
            StepView::Deliver(DeliveringView { talk: self, email, ok_resp, next })
        } else {
            self.reply(ok_resp, next)
        }
    }

    /// What follows from the address of a sender, `None` where there is no such address.
    pub open spec fn sender(self, address: Option<Seq<char>>) -> StepView {
        match address {
            Some(mail_from) => self.with_sender(mail_from).in_state(
                SmtpState::SmtpStateAwaitRcpt,
            ).reply(RESP_OK@, Next::Listen),
            None => self.reply(RESP_SYNTAX_ERROR@, Next::ListenOn),
        }
    }

    /// What follows from the address of a recipient, `None` where there is no such address.
    pub open spec fn recipient(self, address: Option<Seq<char>>) -> StepView {
        match address {
            Some(mail_to) => self.with_recipient(mail_to).in_state(
                SmtpState::SmtpStateAwaitDataOrRcpt,
            ).reply(RESP_OK@, Next::Listen),
            None => self.reply(RESP_SYNTAX_ERROR@, Next::ListenOn),
        }
    }

    /// What follows from `MAIL`.
    pub open spec fn mail(self, argument: Option<Seq<char>>) -> StepView {
        match operand(argument, "FROM:"@) {
            Some(from) => self.sender(address_of(without_brackets(from))),
            None => self.reply(RESP_SYNTAX_ERROR@, Next::Listen),
        }
    }

    /// What follows from `RCPT`. Only the first recipient is kept; the others are answered and
    /// forgotten.
    pub open spec fn rcpt(self, argument: Option<Seq<char>>) -> StepView {
        match operand(argument, "TO:"@) {
            Some(to) => if self.email.mail_to.len() == 0 {
                self.recipient(address_of(without_brackets(to)))
            } else {
                self.in_state(SmtpState::SmtpStateAwaitDataOrRcpt).reply(RESP_OK@, Next::Listen)
            },
            None => self.reply(RESP_SYNTAX_ERROR@, Next::Listen),
        }
    }

    /// What follows from a verb and the word behind it.
    pub open spec fn obey(self, verb: Verb, argument: Option<Seq<char>>) -> StepView {
        if !admits(self.state, verb) {
            self.reply(RESP_UNKNOWN_COMMAND@, Next::Listen)
        } else {
            match verb {
                Verb::Helo | Verb::Ehlo => match argument {
                    Some(fqdn) => self.in_state(SmtpState::SmtpStateAwaitFrom).reply(
                        if verb == Verb::Ehlo {
                            hello_text(self.srv_domain, fqdn)
                        } else {
                            RESP_OK@
                        },
                        Next::Listen,
                    ),
                    None => self.reply(RESP_SYNTAX_ERROR@, Next::Listen),
                },
                Verb::Auth => self.reply(RESP_AUTH_OK@, Next::Listen),
                Verb::Noop => self.reply(RESP_OK@, Next::Listen),
                Verb::Mail => self.mail(argument),
                Verb::Rcpt => self.rcpt(argument),
                Verb::Data => self.in_state(SmtpState::SmtpStateAwaitData).reply(
                    RESP_END_DATA_WITH@,
                    Next::ReadData,
                ),
                Verb::Rset => self.reset().reply(RESP_OK@, Next::Listen),
                Verb::Quit => self.hand_over(self.email, RESP_BYE@, Next::Close(Ok(()))),
                Verb::Unknown => self.reply(RESP_UNKNOWN_COMMAND@, Next::Listen),
            }
        }
    }

    /// What follows from the text of a command. A command without a word ends the conversation.
    pub open spec fn hear(self, text: Seq<char>) -> StepView {
        match word_at(text, 0) {
            Some(word) => self.obey(verb_named(word), word_at(text, 1)),
            None => self.reply(
                RESP_SYNTAX_ERROR@,
                Next::Close(Err(SessionError::EmptyCommand)),
            ),
        }
    }

    /// What follows from the bytes of a complete content, its end marker taken off. The mail is
    /// over either way; one that is no text is passed over in silence.
    pub open spec fn content(self, bytes: Seq<u8>) -> StepView {
        if valid_utf8(bytes) {
            self.reset().hand_over(
                EmailView { mail_content: decode_utf8(bytes), ..self.email },
                RESP_OK@,
                Next::Listen,
            )
        } else {
            self.reset().with_buf(Seq::empty()).await_command()
        }
    }

    /// What follows from a complete read of `count` bytes while the content is awaited, where
    /// `data` is all of the content so far.
    pub open spec fn data(self, data: Seq<u8>, count: nat) -> StepView {
        if count == 0 {
            self.reset().reply(RESP_SYNTAX_ERROR@, Next::Listen)
        } else if EMAIL_TERM.spec_bytes().is_suffix_of(data) {
            self.content(data.take(data.len() - EMAIL_TERM.spec_bytes().len()))
        } else {
            StepView::Read(
                ReadingView {
                    talk: self,
                    target: TargetView::Data(data),
                    total_read: 0,
                    timeout_ms: DATA_TIMEOUT_MS,
                },
            )
        }
    }

    /// What follows from a complete read of `count` bytes while a command is awaited, of which
    /// `n` bytes came with earlier reads.
    pub open spec fn command(self, n: nat, count: nat) -> StepView {
        match command_after(n, count, self.buf) {
            ReadCommandView::NoContent => StepView::End(
                Outcome::Closed(Err(SessionError::Smtp(SmtpError::NoContentError))),
            ),
            ReadCommandView::Ready(total) => StepView::Run(CommandView { talk: self, n: total }),
            ReadCommandView::Unfinished(total) => StepView::Read(
                ReadingView {
                    talk: self,
                    target: TargetView::Command(total),
                    total_read: 0,
                    timeout_ms: self.timeout_ms,
                },
            ),
        }
    }
}

impl ReadingView {
    /// The buffer that is read into.
    pub open spec fn buffer(self) -> Seq<u8> {
        match self.target {
            TargetView::Command(_) => self.talk.buf,
            TargetView::Data(data) => data,
        }
    }

    /// The same with another buffer.
    pub open spec fn with_buffer(self, buffer: Seq<u8>) -> ReadingView {
        match self.target {
            TargetView::Command(_) => ReadingView { talk: self.talk.with_buf(buffer), ..self },
            TargetView::Data(_) => ReadingView { target: TargetView::Data(buffer), ..self },
        }
    }

    /// What follows from a complete read of `count` bytes.
    pub open spec fn complete(self, count: nat) -> StepView {
        match self.target {
            TargetView::Command(n) => self.talk.command(n, count),
            TargetView::Data(data) => self.talk.data(data, count),
        }
    }

    /// What follows from one wait for bytes.
    pub open spec fn next(self, event: ReadEvent) -> StepView {
        let max = MAX_SOCKET_READ_BYTES as nat;
        let filled = self.with_buffer(buffer_after(self.total_read, max, self.buffer(), event));
        match read_after(self.total_read, max, self.buffer(), event) {
            ReadMoreView::Again { total_read, timeout_ms } => StepView::Read(
                ReadingView { total_read, timeout_ms, ..filled },
            ),
            ReadMoreView::Done(count) => filled.complete(count),
            ReadMoreView::Error(error) => StepView::End(Outcome::Closed(Err(error))),
        }
    }
}

impl CommandView {
    /// Whether the buffer is text, of which the command is a part that ends with a character.
    pub open spec fn is_text(self) -> bool {
        valid_utf8(self.talk.buf) && is_char_boundary(self.talk.buf, self.n as int)
    }

    /// What follows from the command.
    pub open spec fn next(self) -> StepView {
        self.talk.hear(decode_utf8(self.talk.buf.take(self.n as int)))
    }
}

impl WritingView {
    /// What follows once the reply is sent, or could not be sent.
    pub open spec fn next(self, written: bool) -> StepView {
        if written {
            match self.next {
                Next::Begin | Next::ListenOn => self.talk.await_command(),
                Next::Listen => self.talk.with_buf(Seq::empty()).await_command(),
                Next::ReadData => self.talk.await_data(),
                Next::Close(result) => StepView::End(Outcome::Closed(result)),
            }
        } else if self.next is Begin {
            StepView::End(Outcome::Abandoned)
        } else {
            StepView::End(Outcome::Closed(Err(SessionError::WriteFailed)))
        }
    }
}

impl DeliveringView {
    /// What follows once the mail is handed over, or could not be. A mail that finds no room is
    /// refused for now; where nobody takes mails any more, the conversation ends.
    pub open spec fn next(self, outcome: SendOutcome) -> StepView {
        match send_result(outcome) {
            Ok(()) => self.talk.reply(self.ok_resp, self.next),
            Err(SmtpError::RateLimitError) => self.talk.reply(RESP_BUSY_ERROR@, self.next),
            Err(error) => self.talk.reply(
                RESP_SERVICE_UNAVAILABLE@,
                Next::Close(Err(SessionError::Smtp(error))),
            ),
        }
    }
}

/// A text that is an address.
pub open spec fn is_address(text: Seq<char>) -> bool {
    address_of(text) == Some(text)
}

impl ConversationView {
    /// What holds of a conversation at any time: the buffer stays small, the content of a mail
    /// is not kept, and sender and recipient are there exactly when the state says so.
    pub open spec fn wf(self) -> bool {
        &&& self.buf.len() < MAX_SOCKET_READ_BYTES
        &&& self.email.mail_content.len() == 0
        &&& match self.state {
            SmtpState::SmtpStateAwaitGreet | SmtpState::SmtpStateAwaitFrom => {
                self.email.mail_from.len() == 0 && self.email.mail_to.len() == 0
            },
            SmtpState::SmtpStateAwaitRcpt => {
                is_address(self.email.mail_from) && self.email.mail_to.len() == 0
            },
            SmtpState::SmtpStateAwaitDataOrRcpt | SmtpState::SmtpStateAwaitData => {
                is_address(self.email.mail_from) && is_address(self.email.mail_to)
            },
        }
    }
}

impl StepView {
    /// What holds of a conversation wherever it waits. A mail is handed over only when its
    /// content has just come, and then it is valid and the conversation is at its beginning.
    pub open spec fn wf(self) -> bool {
        match self {
            StepView::Read(reading) => {
                &&& reading.talk.wf()
                &&& reading.counted()
                &&& match reading.target {
                    TargetView::Command(_) => reading.talk.state
                        != SmtpState::SmtpStateAwaitData,
                    TargetView::Data(data) => reading.talk.state == SmtpState::SmtpStateAwaitData
                        && reading.total_read <= data.len() < MAX_SOCKET_READ_BYTES,
                }
            },
            StepView::Run(command) => {
                &&& command.talk.wf()
                &&& command.talk.state != SmtpState::SmtpStateAwaitData
                &&& 0 < command.n <= command.talk.buf.len()
            },
            StepView::Write(writing) => {
                &&& writing.talk.wf()
                &&& writing.next is ReadData <==> writing.talk.state
                    == SmtpState::SmtpStateAwaitData
            },
            StepView::Deliver(delivering) => {
                &&& delivering.talk.wf()
                &&& delivering.talk.state == SmtpState::SmtpStateAwaitGreet
                &&& delivering.email.valid()
                &&& is_address(delivering.email.mail_from)
                &&& is_address(delivering.email.mail_to)
                &&& delivering.ok_resp == RESP_OK@
                &&& delivering.next is Listen
            },
            StepView::End(_) => true,
        }
    }
}

} // verus!
