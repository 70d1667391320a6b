//! The client's end of a conversation: one mail, sent step by step.

use vstd::prelude::*;
use vstd::string::*;
use vstd::utf8::*;

use crate::protocol::{EMAIL_TERM, RESP_BYE, RESP_END_DATA_WITH, RESP_OK};
use crate::text::same_text;

verus! {

/// How far the sending has come.
#[derive(Debug, Clone, Copy, PartialEq, Eq, Structural)]
pub enum Stage {
    Helo,
    MailFrom,
    RcptTo,
    Data,
    Content,
    Quit,
}

/// A mail on its way to a server that has greeted.
#[derive(Debug)]
pub struct Sender {
    pub stage: Stage,
    pub mail_from: String,
    pub mail_to: String,
    pub mail_content: String,
}

/// What a [`Sender`] holds.
#[verifier::ext_equal]
pub struct SenderView {
    pub stage: Stage,
    pub mail_from: Seq<char>,
    pub mail_to: Seq<char>,
    pub mail_content: Seq<char>,
}

impl View for Sender {
    type V = SenderView;

    open spec fn view(&self) -> SenderView {
        SenderView {
            stage: self.stage,
            mail_from: self.mail_from@,
            mail_to: self.mail_to@,
            mail_content: self.mail_content@,
        }
    }
}

/// What comes after an exchange with the server.
#[derive(Debug)]
pub enum SendStep {
    /// The next exchange.
    Exchange(Sender),
    /// The mail is sent.
    Sent,
    /// The server answered something else; this says what.
    Refused(String),
}

/// What a [`SendStep`] holds.
pub enum SendStepView {
    Exchange(SenderView),
    Sent,
    Refused(Seq<char>),
}

impl View for SendStep {
    type V = SendStepView;

    open spec fn view(&self) -> SendStepView {
        match *self {
            SendStep::Exchange(sender) => SendStepView::Exchange(sender@),
            SendStep::Sent => SendStepView::Sent,
            SendStep::Refused(message) => SendStepView::Refused(message@),
        }
    }
}

impl SenderView {
    /// A mail of which nothing is sent.
    pub open spec fn start(
        mail_from: Seq<char>,
        mail_to: Seq<char>,
        mail_content: Seq<char>,
    ) -> SenderView {
        SenderView { stage: Stage::Helo, mail_from, mail_to, mail_content }
    }

    /// The same at another stage.
    pub open spec fn at(self, stage: Stage) -> SenderView {
        SenderView { stage, ..self }
    }

    /// What is sent at this stage, as text.
    pub open spec fn text(self) -> Seq<char> {
        match self.stage {
            Stage::Helo => "HELO rs-mailserver-sender\r\n"@,
            Stage::MailFrom => "MAIL FROM:<"@ + self.mail_from + ">\r\n"@,
            Stage::RcptTo => "RCPT TO:<"@ + self.mail_to + ">\r\n"@,
            Stage::Data => "DATA\r\n"@,
            Stage::Content => self.mail_content + EMAIL_TERM@,
            Stage::Quit => "QUIT\r\n"@,
        }
    }

    /// What the server answers if all is well.
    pub open spec fn expected(self) -> Seq<char> {
        match self.stage {
            Stage::Helo | Stage::MailFrom | Stage::RcptTo | Stage::Content => RESP_OK@,
            Stage::Data => RESP_END_DATA_WITH@,
            Stage::Quit => RESP_BYE@,
        }
    }

    /// What comes after the expected answer.
    pub open spec fn advance(self) -> SendStepView {
        match self.stage {
            Stage::Helo => SendStepView::Exchange(self.at(Stage::MailFrom)),
            Stage::MailFrom => SendStepView::Exchange(self.at(Stage::RcptTo)),
            Stage::RcptTo => SendStepView::Exchange(self.at(Stage::Data)),
            Stage::Data => SendStepView::Exchange(self.at(Stage::Content)),
            Stage::Content => SendStepView::Exchange(self.at(Stage::Quit)),
            Stage::Quit => SendStepView::Sent,
        }
    }

    /// What comes after an answer.
    pub open spec fn next(self, response: Seq<char>) -> SendStepView {
        if response == self.expected() {
            self.advance()
        } else {
            SendStepView::Refused(unexpected_text(response))
        }
    }
}

/// What is said of an answer that was not expected.
pub open spec fn unexpected_text(response: Seq<char>) -> Seq<char> {
    "Unexpected response from server: "@ + response
}

/// Holds a response against the expected one.
pub fn check_response(expect: &str, response: &[u8]) -> (checked: Result<(), String>)
    requires
        valid_utf8(response@),
    ensures
        match checked {
            Ok(()) => decode_utf8(response@) == expect@,
            Err(message) => decode_utf8(response@) != expect@ && message@ == unexpected_text(
                decode_utf8(response@),
            ),
        },
{
    match std::str::from_utf8(response) {
        Ok(text) => if same_text(expect, text) {
            Ok(())
        } else {
            let mut message = "Unexpected response from server: ".to_owned();
            message.append(text);
            Err(message)
        },
        Err(_) => Err(String::new()),
    }
}

impl Sender {
    /// A mail of which nothing is sent.
    pub fn new(mail_from: String, mail_to: String, mail_content: String) -> (sender: Sender)
        ensures
            sender@ == SenderView::start(mail_from@, mail_to@, mail_content@),
    {
        Sender { stage: Stage::Helo, mail_from, mail_to, mail_content }
    }

    /// What to send at this stage.
    pub fn command(&self) -> (command: Vec<u8>)
        ensures
            command@ == encode_utf8(self@.text()),
    {
        let text = match self.stage {
            Stage::Helo => "HELO rs-mailserver-sender\r\n".to_owned(),
            Stage::MailFrom => {
                let mut text = "MAIL FROM:<".to_owned();
                text.append(self.mail_from.as_str());
                text.append(">\r\n");
                text
            },
            Stage::RcptTo => {
                let mut text = "RCPT TO:<".to_owned();
                text.append(self.mail_to.as_str());
                text.append(">\r\n");
                text
            },
            Stage::Data => "DATA\r\n".to_owned(),
            Stage::Content => {
                let mut text = self.mail_content.clone();
                text.append(EMAIL_TERM);
                text
            },
            Stage::Quit => "QUIT\r\n".to_owned(),
        };
        text.as_str().as_bytes_vec()
    }

    /// The answer that is expected at this stage.
    pub fn expected(&self) -> (expected: &'static str)
        ensures
            expected@ == self@.expected(),
    {
        match self.stage {
            Stage::Helo | Stage::MailFrom | Stage::RcptTo | Stage::Content => RESP_OK,
            Stage::Data => RESP_END_DATA_WITH,
            Stage::Quit => RESP_BYE,
        }
    }

    /// Goes on from the server's answer.
    pub fn resume(self, response: &[u8]) -> (step: SendStep)
        requires
            valid_utf8(response@),
        ensures
            step@ == self@.next(decode_utf8(response@)),
    {
        match check_response(self.expected(), response) {
            Err(message) => SendStep::Refused(message),
            Ok(()) => {
                let stage = match self.stage {
                    Stage::Helo => Stage::MailFrom,
                    Stage::MailFrom => Stage::RcptTo,
                    Stage::RcptTo => Stage::Data,
                    Stage::Data => Stage::Content,
                    Stage::Content => Stage::Quit,
                    Stage::Quit => return SendStep::Sent,
                };
                let mut sender = self;
                sender.stage = stage;
                SendStep::Exchange(sender)
            },
        }
    }
}

/// A mail starts out with nothing sent and nothing changed.
pub proof fn law_sending_starts_with_all_of_the_mail(
    mail_from: Seq<char>,
    mail_to: Seq<char>,
    mail_content: Seq<char>,
)
    ensures
        SenderView::start(mail_from, mail_to, mail_content) == (SenderView {
            stage: Stage::Helo,
            mail_from,
            mail_to,
            mail_content,
        }),
{
}

/// What the client says, stage by stage: both addresses whole and in brackets, and the content
/// whole, with nothing before it and the end marker behind it.
pub proof fn law_what_the_client_says(sender: SenderView)
    ensures
        ({
            let text = sender.text();
            let from = sender.mail_from.len() as int;
            let to = sender.mail_to.len() as int;
            let content = sender.mail_content.len() as int;
            match sender.stage {
                Stage::Helo => text == "HELO rs-mailserver-sender\r\n"@,
                Stage::MailFrom => {
                    &&& text.len() == 11 + from + 3
                    &&& text.subrange(0, 11) == "MAIL FROM:<"@
                    &&& text.subrange(11, 11 + from) == sender.mail_from
                    &&& text.subrange(11 + from, 11 + from + 3) == ">\r\n"@
                },
                Stage::RcptTo => {
                    &&& text.len() == 9 + to + 3
                    &&& text.subrange(0, 9) == "RCPT TO:<"@
                    &&& text.subrange(9, 9 + to) == sender.mail_to
                    &&& text.subrange(9 + to, 9 + to + 3) == ">\r\n"@
                },
                Stage::Data => text == "DATA\r\n"@,
                Stage::Content => {
                    &&& text.len() == content + 5
                    &&& text.subrange(0, content) == sender.mail_content
                    &&& text.subrange(content, content + 5) == "\r\n.\r\n"@
                },
                Stage::Quit => text == "QUIT\r\n"@,
            }
        }),
{
    reveal_strlit("MAIL FROM:<");
    reveal_strlit("RCPT TO:<");
    reveal_strlit(">\r\n");
    reveal_strlit("\r\n.\r\n");
    let text = sender.text();
    let from = sender.mail_from.len() as int;
    let to = sender.mail_to.len() as int;
    let content = sender.mail_content.len() as int;
    match sender.stage {
        Stage::MailFrom => {
            assert(text.subrange(0, 11) == "MAIL FROM:<"@);
            assert(text.subrange(11, 11 + from) == sender.mail_from);
            assert(text.subrange(11 + from, 11 + from + 3) == ">\r\n"@);
        },
        Stage::RcptTo => {
            assert(text.subrange(0, 9) == "RCPT TO:<"@);
            assert(text.subrange(9, 9 + to) == sender.mail_to);
            assert(text.subrange(9 + to, 9 + to + 3) == ">\r\n"@);
        },
        Stage::Content => {
            assert(text.subrange(0, content) == sender.mail_content);
            assert(text.subrange(content, content + 5) == "\r\n.\r\n"@);
        },
        _ => {},
    }
}

/// At every stage one answer lets the client go on, with the same mail, to the stage behind it.
/// Any other is a refusal, and is reported whole.
pub proof fn law_any_other_answer_is_a_refusal(sender: SenderView, response: Seq<char>)
    ensures
        ({
            let good = match sender.stage {
                Stage::Data => "354 End data with <CR><LF>.<CR><LF>\r\n"@,
                Stage::Quit => "221 Bye\r\n"@,
                _ => "250 Ok\r\n"@,
            };
            &&& sender.expected() == good
            &&& response == good ==> sender.next(response) == match sender.stage {
                Stage::Quit => SendStepView::Sent,
                _ => SendStepView::Exchange(
                    SenderView {
                        stage: match sender.stage {
                            Stage::Helo => Stage::MailFrom,
                            Stage::MailFrom => Stage::RcptTo,
                            Stage::RcptTo => Stage::Data,
                            Stage::Data => Stage::Content,
                            _ => Stage::Quit,
                        },
                        ..sender
                    },
                ),
            }
            &&& response != good ==> (sender.next(response) matches SendStepView::Refused(message)
                && message.len() == 33 + response.len() && message.take(33)
                == "Unexpected response from server: "@ && message.skip(33) == response)
        }),
        unexpected_text(response).take(33) == "Unexpected response from server: "@,
        unexpected_text(response).skip(33) == response,
{
    reveal_strlit("Unexpected response from server: ");
    assert(unexpected_text(response).take(33) == "Unexpected response from server: "@);
    assert(unexpected_text(response).skip(33) == response);
}

/// What the client comes to when it hears these answers one after another.
pub open spec fn client_after(step: SendStepView, answers: Seq<Seq<char>>) -> SendStepView
    decreases answers.len(),
{
    if answers.len() == 0 {
        step
    } else {
        match client_after(step, answers.drop_last()) {
            SendStepView::Exchange(sender) => sender.next(answers.last()),
            over => over,
        }
    }
}

/// A client takes its mail for sent if and only if each of its six lines got the answer it
/// should; one other answer among them, and it reports a refusal.
pub proof fn law_sent_means_accepted_at_every_stage(
    mail_from: Seq<char>,
    mail_to: Seq<char>,
    mail_content: Seq<char>,
    answers: Seq<Seq<char>>,
)
    ensures
        ({
            let end = client_after(
                SendStepView::Exchange(
                    SenderView { stage: Stage::Helo, mail_from, mail_to, mail_content },
                ),
                answers,
            );
            &&& end is Sent <==> {
                &&& answers.len() >= 6
                &&& answers[0] == "250 Ok\r\n"@
                &&& answers[1] == "250 Ok\r\n"@
                &&& answers[2] == "250 Ok\r\n"@
                &&& answers[3] == "354 End data with <CR><LF>.<CR><LF>\r\n"@
                &&& answers[4] == "250 Ok\r\n"@
                &&& answers[5] == "221 Bye\r\n"@
            }
            &&& end is Refused <==> exists|i: int|
                0 <= i < 6 && i < answers.len() && #[trigger] answers[i] != if i == 3 {
                    "354 End data with <CR><LF>.<CR><LF>\r\n"@
                } else if i == 5 {
                    "221 Bye\r\n"@
                } else {
                    "250 Ok\r\n"@
                }
        }),
{
    let start = SenderView { stage: Stage::Helo, mail_from, mail_to, mail_content };
    lemma_client_after(start, answers);
    if exists|i: int| 0 <= i < 6 && i < answers.len() && #[trigger] answers[i] != answer_at(i) {
        let i = choose|i: int|
            0 <= i < 6 && i < answers.len() && #[trigger] answers[i] != answer_at(i);
        assert(i == 0 || i == 1 || i == 2 || i == 3 || i == 4 || i == 5);
    }
}

spec fn stage_at(i: int) -> Stage {
    if i == 0 {
        Stage::Helo
    } else if i == 1 {
        Stage::MailFrom
    } else if i == 2 {
        Stage::RcptTo
    } else if i == 3 {
        Stage::Data
    } else if i == 4 {
        Stage::Content
    } else {
        Stage::Quit
    }
}

spec fn answer_at(i: int) -> Seq<char> {
    if i == 3 {
        "354 End data with <CR><LF>.<CR><LF>\r\n"@
    } else if i == 5 {
        "221 Bye\r\n"@
    } else {
        "250 Ok\r\n"@
    }
}

proof fn lemma_client_after(start: SenderView, answers: Seq<Seq<char>>)
    requires
        start.stage == Stage::Helo,
    ensures
        ({
            let end = client_after(SendStepView::Exchange(start), answers);
            if forall|i: int|
                0 <= i < answers.len() && i < 6 ==> #[trigger] answers[i] == answer_at(i) {
                if answers.len() < 6 {
                    end == SendStepView::Exchange(start.at(stage_at(answers.len() as int)))
                } else {
                    end is Sent
                }
            } else {
                end is Refused
            }
        }),
    decreases answers.len(),
{
    if answers.len() == 0 {
        assert(start.at(Stage::Helo) == start);
    } else {
        let fewer = answers.drop_last();
        let n = fewer.len() as int;
        lemma_client_after(start, fewer);
        assert(answers[n] == answers.last());
        assert(forall|i: int| 0 <= i < n ==> fewer[i] == #[trigger] answers[i]);
        if forall|i: int| 0 <= i < n && i < 6 ==> #[trigger] fewer[i] == answer_at(i) {
            assert forall|i: int| 0 <= i < n && i < 6 implies #[trigger] answers[i] == answer_at(
                i,
            ) by {
                assert(fewer[i] == answers[i]);
            }
            if n < 6 {
                law_any_other_answer_is_a_refusal(start.at(stage_at(n)), answers.last());
            }
        } else {
            let i = choose|i: int| 0 <= i < n && i < 6 && #[trigger] fewer[i] != answer_at(i);
            assert(answers[i] != answer_at(i));
        }
    }
}

/// A client and its steps are seen as what they hold.
pub proof fn law_clients_are_seen_whole(sender: Sender, message: String)
    ensures
        sender@ == (SenderView {
            stage: sender.stage,
            mail_from: sender.mail_from@,
            mail_to: sender.mail_to@,
            mail_content: sender.mail_content@,
        }),
        SendStep::Exchange(sender)@ == SendStepView::Exchange(sender@),
        SendStep::Sent@ == SendStepView::Sent,
        SendStep::Refused(message)@ == SendStepView::Refused(message@),
{
}

} // verus!
