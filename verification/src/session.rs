//! One conversation with a client, cut at the points where it waits for the outside: each
//! [`Step`] says what to wait for, and goes on from what came of it.

use vstd::prelude::*;
use vstd::string::*;
use vstd::utf8::*;

use crate::address::parse_address;
use crate::email::{Email, EmailView};
use crate::laws::{law_step_keeps_well_formed, opening, Event};
use crate::protocol::{
    SmtpError, SmtpState, DATA_TIMEOUT_MS, EMAIL_TERM, MAX_SOCKET_READ_BYTES, RESP_AUTH_OK,
    RESP_BUSY_ERROR, RESP_BYE, RESP_END_DATA_WITH, RESP_MAILSERVER_GREET, RESP_OK,
    RESP_SERVICE_UNAVAILABLE, RESP_SYNTAX_ERROR, RESP_UNKNOWN_COMMAND,
};
use crate::reading::{
    read_command, read_more, ReadCommand, ReadMore, ReadOutcome, SessionError,
};
use crate::rules::send_result;
use crate::text::{ends_with, first_words, text_of, trim_brackets};
use crate::verb::{is_admitted, parse_operand, verb_of, Verb};

verus! {

/// What is known of a conversation between two commands.
#[derive(Debug)]
pub struct Conversation {
    /// The name under which the server presents itself.
    pub srv_domain: String,
    /// How long a client may be silent before a command, in milliseconds.
    pub timeout_ms: u64,
    pub state: SmtpState,
    /// The mail as far as it has been announced.
    pub email: Email,
    /// The bytes that commands are read into.
    pub buf: Vec<u8>,
}

/// What a [`Conversation`] holds.
#[verifier::ext_equal]
pub struct ConversationView {
    pub srv_domain: Seq<char>,
    pub timeout_ms: u64,
    pub state: SmtpState,
    pub email: EmailView,
    pub buf: Seq<u8>,
}

impl View for Conversation {
    type V = ConversationView;

    open spec fn view(&self) -> ConversationView {
        ConversationView {
            srv_domain: self.srv_domain@,
            timeout_ms: self.timeout_ms,
            state: self.state,
            email: self.email@,
            buf: self.buf@,
        }
    }
}

/// Where the bytes go that are read.
#[derive(Debug)]
pub enum Target {
    /// Into the command buffer; so many bytes of the command came with earlier reads.
    Command(usize),
    /// Behind these bytes of the content of a mail.
    Data(Vec<u8>),
}

/// What a [`Target`] holds.
pub enum TargetView {
    Command(nat),
    Data(Seq<u8>),
}

impl View for Target {
    type V = TargetView;

    open spec fn view(&self) -> TargetView {
        match *self {
            Target::Command(n) => TargetView::Command(n as nat),
            Target::Data(data) => TargetView::Data(data@),
        }
    }
}

/// A conversation that waits for bytes.
#[derive(Debug)]
pub struct Reading {
    talk: Conversation,
    target: Target,
    total_read: usize,
    timeout_ms: u64,
}

/// What a [`Reading`] holds.
#[verifier::ext_equal]
pub struct ReadingView {
    pub talk: ConversationView,
    pub target: TargetView,
    /// How many bytes have come since the last complete read.
    pub total_read: nat,
    /// How long to wait, in milliseconds.
    pub timeout_ms: u64,
}

impl View for Reading {
    type V = ReadingView;

    closed spec fn view(&self) -> ReadingView {
        ReadingView {
            talk: self.talk@,
            target: self.target@,
            total_read: self.total_read as nat,
            timeout_ms: self.timeout_ms,
        }
    }
}

/// A conversation in whose buffer a complete command stands, in the first `n` bytes.
#[derive(Debug)]
pub struct Command {
    pub talk: Conversation,
    pub n: usize,
}

/// What a [`Command`] holds.
#[verifier::ext_equal]
pub struct CommandView {
    pub talk: ConversationView,
    pub n: nat,
}

impl View for Command {
    type V = CommandView;

    open spec fn view(&self) -> CommandView {
        CommandView { talk: self.talk@, n: self.n as nat }
    }
}

/// How a conversation goes on after a reply.
#[derive(Debug)]
pub enum Next {
    /// The client has been greeted: its first command is awaited.
    Begin,
    /// The next command is awaited.
    Listen,
    /// The next command is awaited, and the buffer still holds the last one.
    ListenOn,
    /// The content of a mail is awaited.
    ReadData,
    /// The conversation is over.
    Close(Result<(), SessionError>),
}

/// A conversation that has a reply to send.
#[derive(Debug)]
pub struct Writing {
    pub talk: Conversation,
    pub bytes: Vec<u8>,
    pub next: Next,
}

/// What a [`Writing`] holds.
#[verifier::ext_equal]
pub struct WritingView {
    pub talk: ConversationView,
    pub bytes: Seq<u8>,
    pub next: Next,
}

impl View for Writing {
    type V = WritingView;

    open spec fn view(&self) -> WritingView {
        WritingView { talk: self.talk@, bytes: self.bytes@, next: self.next }
    }
}

/// A conversation that has a mail to hand over, and the reply for when that is done.
#[derive(Debug)]
pub struct Delivering {
    pub talk: Conversation,
    pub email: Email,
    pub ok_resp: &'static str,
    pub next: Next,
}

/// What a [`Delivering`] holds.
#[verifier::ext_equal]
pub struct DeliveringView {
    pub talk: ConversationView,
    pub email: EmailView,
    pub ok_resp: Seq<char>,
    pub next: Next,
}

impl View for Delivering {
    type V = DeliveringView;

    open spec fn view(&self) -> DeliveringView {
        DeliveringView {
            talk: self.talk@,
            email: self.email@,
            ok_resp: self.ok_resp@,
            next: self.next,
        }
    }
}

/// What became of a mail that was to be handed over.
#[derive(Debug, Clone, Copy, PartialEq, Eq, Structural)]
pub enum SendOutcome {
    Sent,
    /// There was no room for it in time.
    TimedOut,
    /// There is nobody to take it.
    Closed,
    /// The server is going down.
    Cancelled,
}

/// How a conversation ended.
#[derive(Debug)]
pub enum Outcome {
    /// The client could not even be greeted. The socket is left as it is.
    Abandoned,
    /// The conversation was held. The socket is to be shut down.
    Closed(Result<(), SessionError>),
}

/// What a conversation waits for.
#[derive(Debug)]
pub enum Step {
    Read(Reading),
    Run(Command),
    Write(Writing),
    Deliver(Delivering),
    End(Outcome),
}

/// What a [`Step`] holds.
pub enum StepView {
    Read(ReadingView),
    Run(CommandView),
    Write(WritingView),
    Deliver(DeliveringView),
    End(Outcome),
}

impl View for Step {
    type V = StepView;

    open spec fn view(&self) -> StepView {
        match *self {
            Step::Read(reading) => StepView::Read(reading@),
            Step::Run(command) => StepView::Run(command@),
            Step::Write(writing) => StepView::Write(writing@),
            Step::Deliver(delivering) => StepView::Deliver(delivering@),
            Step::End(outcome) => StepView::End(outcome),
        }
    }
}

/// Tells what the result of handing over a mail means.
pub fn send_email_channel(outcome: SendOutcome) -> (result: Result<(), SmtpError>)
    ensures
        result == send_result(outcome),
{
    match outcome {
        SendOutcome::Sent => Ok(()),
        SendOutcome::TimedOut => Err(SmtpError::RateLimitError),
        SendOutcome::Closed | SendOutcome::Cancelled => Err(SmtpError::ServerShutdown),
    }
}

impl Conversation {
    /// A conversation in which nothing has been said.
    pub fn new(srv_domain: String, timeout_ms: u64) -> (talk: Conversation)
        ensures
            talk@ == ConversationView::fresh(srv_domain@, timeout_ms),
    {
        Conversation {
            srv_domain,
            timeout_ms,
            state: SmtpState::SmtpStateAwaitGreet,
            email: Email::new(),
            buf: Vec::with_capacity(64),
        }
    }

    /// Sends a reply, and goes on as `next` says.
    pub fn reply(self, text: &str, next: Next) -> (step: Step)
        ensures
            step@ == self@.reply(text@, next),
    {
        Step::Write(Writing { talk: self, bytes: text.as_bytes_vec(), next })
    }

    /// Waits for a command.
    fn await_command(self) -> (step: Step)
        ensures
            step@ == self@.await_command(),
    {
        let timeout_ms: u64 = self.timeout_ms;
        Step::Read(Reading { talk: self, target: Target::Command(0), total_read: 0, timeout_ms })
    }

    /// Waits for the content of a mail, of which `data` has come.
    fn await_data(self, data: Vec<u8>) -> (step: Step)
        ensures
            step@ == StepView::Read(
                (ReadingView {
                    talk: self@,
                    target: TargetView::Data(data@),
                    total_read: 0,
                    timeout_ms: DATA_TIMEOUT_MS,
                }),
            ),
    {
        Step::Read(
            Reading {
                talk: self,
                target: Target::Data(data),
                total_read: 0,
                timeout_ms: DATA_TIMEOUT_MS,
            },
        )
    }

    /// Hands a mail over, if it is valid, and answers `ok_resp`.
    pub fn handle_email(self, email: Email, ok_resp: &'static str, next: Next) -> (step: Step)
        ensures
            step@ == self@.hand_over(email@, ok_resp@, next),
    {
        if email.is_valid() {
            Step::Deliver(Delivering { talk: self, email, ok_resp, next })
        } else {
            self.reply(ok_resp, next)
        }
    }

    /// Forgets the mail and awaits the greeting again.
    fn reset(self) -> (talk: Conversation)
        ensures
            talk@ == self@.reset(),
    {
        Conversation {
            srv_domain: self.srv_domain,
            timeout_ms: self.timeout_ms,
            state: SmtpState::SmtpStateAwaitGreet,
            email: Email::new(),
            buf: self.buf,
        }
    }

    /// Answers `HELO` and `EHLO`.
    fn greet(self, extended: bool, argument: Option<String>) -> (step: Step)
        requires
            self.state == SmtpState::SmtpStateAwaitGreet,
        ensures
            step@ == self@.obey(
                if extended {
                    Verb::Ehlo
                } else {
                    Verb::Helo
                },
                text_of(argument),
            ),
    {
        match argument {
            Some(fqdn) => {
                let mut talk = self;
                talk.state = SmtpState::SmtpStateAwaitFrom;
                if extended {
                    let mut hello = "250-".to_owned();
                    hello.append(talk.srv_domain.as_str());
                    hello.append(" Hello ");
                    hello.append(fqdn.as_str());
                    hello.append("\r\n250 AUTH PLAIN LOGIN\r\n");
                    talk.reply(hello.as_str(), Next::Listen)
                } else {
                    talk.reply(RESP_OK, Next::Listen)
                }
            },
            None => self.reply(RESP_SYNTAX_ERROR, Next::Listen),
        }
    }

    /// Goes on from the address of a sender, `None` where there is no such address.
    pub fn sender(self, address: Option<String>) -> (step: Step)
        ensures
            step@ == self@.sender(text_of(address)),
    {
        match address {
            Some(mail_from) => {
                let mut talk = self;
                talk.email.mail_from = mail_from;
                talk.state = SmtpState::SmtpStateAwaitRcpt;
                talk.reply(RESP_OK, Next::Listen)
            },
            None => self.reply(RESP_SYNTAX_ERROR, Next::ListenOn),
        }
    }

    /// Goes on from the address of a recipient, `None` where there is no such address.
    pub fn recipient(self, address: Option<String>) -> (step: Step)
        ensures
            step@ == self@.recipient(text_of(address)),
    {
        match address {
            Some(mail_to) => {
                let mut talk = self;
                talk.email.mail_to = mail_to;
                talk.state = SmtpState::SmtpStateAwaitDataOrRcpt;
                talk.reply(RESP_OK, Next::Listen)
            },
            None => self.reply(RESP_SYNTAX_ERROR, Next::ListenOn),
        }
    }

    /// Answers `MAIL`.
    pub fn mail(self, argument: Option<String>) -> (step: Step)
        ensures
            step@ == self@.mail(text_of(argument)),
    {
        match parse_operand(&argument, "FROM:", "MAIL FROM") {
            Ok(from) => {
                let address = parse_address(trim_brackets(from.as_str()).as_str());
                self.sender(address)
            },
            Err(_) => self.reply(RESP_SYNTAX_ERROR, Next::Listen),
        }
    }

    /// Answers `RCPT`.
    pub fn rcpt(self, argument: Option<String>) -> (step: Step)
        ensures
            step@ == self@.rcpt(text_of(argument)),
    {
        match parse_operand(&argument, "TO:", "RCPT TO") {
            Ok(to) => {
                if self.email.mail_to.as_str().is_empty() {
                    let address = parse_address(trim_brackets(to.as_str()).as_str());
                    self.recipient(address)
                } else {
                    let mut talk = self;
                    talk.state = SmtpState::SmtpStateAwaitDataOrRcpt;
                    talk.reply(RESP_OK, Next::Listen)
                }
            },
            Err(_) => self.reply(RESP_SYNTAX_ERROR, Next::Listen),
        }
    }

    /// Obeys a verb with the word behind it.
    pub fn obey(self, verb: Verb, argument: Option<String>) -> (step: Step)
        ensures
            step@ == self@.obey(verb, text_of(argument)),
    {
        if !is_admitted(self.state, verb) {
            return self.reply(RESP_UNKNOWN_COMMAND, Next::Listen);
        }
        match verb {
            Verb::Helo => self.greet(false, argument),
            Verb::Ehlo => self.greet(true, argument),
            Verb::Auth => self.reply(RESP_AUTH_OK, Next::Listen),
            Verb::Noop => self.reply(RESP_OK, Next::Listen),
            Verb::Mail => self.mail(argument),
            Verb::Rcpt => self.rcpt(argument),
            Verb::Data => {
                let mut talk = self;
                talk.state = SmtpState::SmtpStateAwaitData;
                talk.reply(RESP_END_DATA_WITH, Next::ReadData)
            },
            Verb::Rset => self.reset().reply(RESP_OK, Next::Listen),
            Verb::Quit => {
                let email = self.email.clone();
                self.handle_email(email, RESP_BYE, Next::Close(Ok(())))
            },
            Verb::Unknown => self.reply(RESP_UNKNOWN_COMMAND, Next::Listen),
        }
    }

    /// Obeys the text of a command.
    pub fn hear(self, text: &str) -> (step: Step)
        ensures
            step@ == self@.hear(text@),
    {
        let (word, argument) = first_words(text);
        match word {
            Some(word) => {
                let verb = verb_of(word.as_str());
                self.obey(verb, argument)
            },
            None => self.reply(
                RESP_SYNTAX_ERROR,
                Next::Close(Err(SessionError::EmptyCommand)),
            ),
        }
    }

    /// Takes in the bytes of a complete content, its end marker taken off.
    pub fn content(self, bytes: &[u8]) -> (step: Step)
        ensures
            step@ == self@.content(bytes@),
    {
        match std::str::from_utf8(bytes) {
            Ok(text) => {
                let mut email = self.email.clone();
                email.mail_content = text.to_owned();
                self.reset().handle_email(email, RESP_OK, Next::Listen)
            },
            Err(_) => {
                let mut talk = self.reset();
                talk.buf.clear();
                talk.await_command()
            },
        }
    }

    /// Takes in a complete read of `count` bytes of content; `data` is all of it so far.
    pub fn data(self, data: Vec<u8>, count: usize) -> (step: Step)
        ensures
            step@ == self@.data(data@, count as nat),
    {
        if count == 0 {
            self.reset().reply(RESP_SYNTAX_ERROR, Next::Listen)
        } else if ends_with(&data, EMAIL_TERM) {
            let mut content = data;
            let len: usize = content.len() - EMAIL_TERM.as_bytes().len();
            content.truncate(len);
            self.content(content.as_slice())
        } else {
            self.await_data(data)
        }
    }

    /// Takes in a complete read of `count` bytes of a command, of which `n` bytes came with
    /// earlier reads.
    fn command(self, n: usize, count: usize) -> (step: Step)
        requires
            n + count <= self.buf.len(),
        ensures
            step@ == self@.command(n as nat, count as nat),
    {
        match read_command(n, count, &self.buf) {
            ReadCommand::NoContent => Step::End(
                Outcome::Closed(Err(SessionError::Smtp(SmtpError::NoContentError))),
            ),
            ReadCommand::Ready(total) => Step::Run(Command { talk: self, n: total }),
            ReadCommand::Unfinished(total) => {
                let timeout_ms: u64 = self.timeout_ms;
                Step::Read(
                    Reading {
                        talk: self,
                        target: Target::Command(total),
                        total_read: 0,
                        timeout_ms,
                    },
                )
            },
        }
    }
}

impl Reading {
    #[verifier::type_invariant]
    spec fn inv(self) -> bool {
        self@.counted()
    }

    /// How long to wait, in milliseconds.
    pub fn timeout_ms(&self) -> (timeout_ms: u64)
        ensures
            timeout_ms == self@.timeout_ms,
    {
        self.timeout_ms
    }

    /// Goes on from what one wait for bytes has brought.
    pub fn resume(self, outcome: ReadOutcome) -> (step: Step)
        ensures
            step@ == self@.next(outcome@),
            StepView::Read(self@).wf() ==> step@.wf(),
    {
        proof {
            use_type_invariant(&self);
            if StepView::Read(self@).wf() {
                law_step_keeps_well_formed(StepView::Read(self@), Event::Read(outcome@));
            }
        }
        let total_read: usize = self.total_read;
        let mut talk = self.talk;
        match self.target {
            Target::Command(n) => {
                let mut buf = talk.buf;
                let more = read_more(total_read, MAX_SOCKET_READ_BYTES, &mut buf, outcome);
                talk.buf = buf;
                match more {
                    ReadMore::Again { total_read, timeout_ms } => Step::Read(
                        Reading { talk, target: Target::Command(n), total_read, timeout_ms },
                    ),
                    ReadMore::Done(count) => talk.command(n, count),
                    ReadMore::Error(error) => Step::End(Outcome::Closed(Err(error))),
                }
            },
            Target::Data(data) => {
                let mut data = data;
                match read_more(total_read, MAX_SOCKET_READ_BYTES, &mut data, outcome) {
                    ReadMore::Again { total_read, timeout_ms } => Step::Read(
                        Reading { talk, target: Target::Data(data), total_read, timeout_ms },
                    ),
                    ReadMore::Done(count) => talk.data(data, count),
                    ReadMore::Error(error) => Step::End(Outcome::Closed(Err(error))),
                }
            },
        }
    }
}

impl Command {
    /// Whether the buffer is text, of which the command is a part that ends with a character.
    pub fn is_text(&self) -> (yes: bool)
        ensures
            yes == self@.is_text(),
    {
        match std::str::from_utf8(self.talk.buf.as_slice()) {
            Ok(text) => {
                proof {
                    decode_utf8_encode_utf8(self.talk.buf@);
                }
                text.is_char_boundary(self.n)
            },
            Err(_) => false,
        }
    }

    /// Obeys the command.
    pub fn run(self) -> (step: Step)
        requires
            self@.is_text(),
        ensures
            step@ == self@.next(),
            StepView::Run(self@).wf() ==> step@.wf(),
    {
        proof {
            if StepView::Run(self@).wf() {
                law_step_keeps_well_formed(StepView::Run(self@), Event::Run);
            }
        }
        let ghost bytes = self.talk.buf@;
        let command = match std::str::from_utf8(self.talk.buf.as_slice()) {
            Ok(text) => {
                proof {
                    decode_utf8_encode_utf8(bytes);
                }
                let start = text.split_at(self.n).0;
                proof {
                    encode_utf8_decode_utf8(start@);
                }
                start.to_owned()
            },
            Err(_) => String::new(),
        };
        assert(command@ == decode_utf8(bytes.take(self.n as int)));
        self.talk.hear(command.as_str())
    }
}

impl Writing {
    /// Goes on once the reply is sent, or could not be sent.
    pub fn resume(self, written: bool) -> (step: Step)
        ensures
            step@ == self@.next(written),
            StepView::Write(self@).wf() ==> step@.wf(),
    {
        proof {
            if StepView::Write(self@).wf() {
                law_step_keeps_well_formed(StepView::Write(self@), Event::Written(written));
            }
        }
        let mut talk = self.talk;
        if written {
            match self.next {
                Next::Begin | Next::ListenOn => talk.await_command(),
                Next::Listen => {
                    talk.buf.clear();
                    talk.await_command()
                },
                Next::ReadData => talk.await_data(Vec::new()),
                Next::Close(result) => Step::End(Outcome::Closed(result)),
            }
        } else {
            match self.next {
                Next::Begin => Step::End(Outcome::Abandoned),
                _ => Step::End(Outcome::Closed(Err(SessionError::WriteFailed))),
            }
        }
    }
}

impl Delivering {
    /// Goes on once the mail is handed over, or could not be.
    pub fn resume(self, outcome: SendOutcome) -> (step: Step)
        ensures
            step@ == self@.next(outcome),
            StepView::Deliver(self@).wf() ==> step@.wf(),
    {
        proof {
            if StepView::Deliver(self@).wf() {
                law_step_keeps_well_formed(StepView::Deliver(self@), Event::Sent(outcome));
            }
        }
        match send_email_channel(outcome) {
            Ok(()) => self.talk.reply(self.ok_resp, self.next),
            Err(SmtpError::RateLimitError) => self.talk.reply(RESP_BUSY_ERROR, self.next),
            Err(error) => self.talk.reply(
                RESP_SERVICE_UNAVAILABLE,
                Next::Close(Err(SessionError::Smtp(error))),
            ),
        }
    }
}

/// Opens a conversation: the client is greeted first of all.
pub fn start(srv_domain: String, timeout_ms: u64) -> (step: Step)
    ensures
        step@ == ConversationView::fresh(srv_domain@, timeout_ms).reply(
            RESP_MAILSERVER_GREET@,
            Next::Begin,
        ),
        step@ == opening(srv_domain@, timeout_ms),
        step@.wf(),
{
    Conversation::new(srv_domain, timeout_ms).reply(RESP_MAILSERVER_GREET, Next::Begin)
}

} // verus!
