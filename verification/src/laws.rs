//! What holds of whole conversations.

use vstd::prelude::*;
use vstd::string::*;
use vstd::utf8::*;

use crate::protocol::{
    SmtpError, SmtpState, COMMAND_TERM, EMAIL_TERM, MAX_SOCKET_READ_BYTES, RESP_BUSY_ERROR,
    RESP_BYE, RESP_MAILSERVER_GREET, RESP_OK, RESP_SERVICE_UNAVAILABLE, RESP_SYNTAX_ERROR,
    RESP_UNKNOWN_COMMAND,
};
use crate::reading::{fits, ReadEvent, SessionError};
use crate::rules::{hello_text, is_address};
use crate::session::{
    ConversationView, DeliveringView, Next, Outcome, ReadingView, SendOutcome, StepView,
    TargetView,
};
use crate::verb::{admits, Verb};

verus! {

/// Something that a conversation can wait for.
pub enum Event {
    Read(ReadEvent),
    Run,
    Written(bool),
    Sent(SendOutcome),
}

impl StepView {
    /// What follows from an event. One that is not waited for changes nothing, and a command
    /// that is no text is not run.
    pub open spec fn on(self, event: Event) -> StepView {
        match (self, event) {
            (StepView::Read(reading), Event::Read(read)) => reading.next(read),
            (StepView::Run(command), Event::Run) => if command.is_text() {
                command.next()
            } else {
                self
            },
            (StepView::Write(writing), Event::Written(written)) => writing.next(written),
            (StepView::Deliver(delivering), Event::Sent(outcome)) => delivering.next(outcome),
            _ => self,
        }
    }

    /// What follows from several events, one after another.
    pub open spec fn after(self, events: Seq<Event>) -> StepView
        decreases events.len(),
    {
        if events.len() == 0 {
            self
        } else {
            self.after(events.drop_last()).on(events.last())
        }
    }
}

/// The step with which a conversation opens.
pub open spec fn opening(srv_domain: Seq<char>, timeout_ms: u64) -> StepView {
    ConversationView::fresh(srv_domain, timeout_ms).reply(RESP_MAILSERVER_GREET@, Next::Begin)
}

/// No step leads out of the well-formed ones.
pub proof fn law_step_keeps_well_formed(step: StepView, event: Event)
    requires
        step.wf(),
    ensures
        step.on(event).wf(),
{
}

/// Whatever happens, and in whatever order, a conversation stays well-formed. In particular no
/// buffer ever holds [`MAX_SOCKET_READ_BYTES`] bytes.
pub proof fn law_conversations_are_well_formed(
    srv_domain: Seq<char>,
    timeout_ms: u64,
    events: Seq<Event>,
)
    ensures
        opening(srv_domain, timeout_ms).after(events).wf(),
    decreases events.len(),
{
    if events.len() > 0 {
        law_conversations_are_well_formed(srv_domain, timeout_ms, events.drop_last());
        law_step_keeps_well_formed(
            opening(srv_domain, timeout_ms).after(events.drop_last()),
            events.last(),
        );
    }
}

/// Every mail that is handed over is valid, and its sender and recipient are addresses.
pub proof fn law_only_valid_mails_are_delivered(
    srv_domain: Seq<char>,
    timeout_ms: u64,
    events: Seq<Event>,
    delivering: DeliveringView,
)
    requires
        opening(srv_domain, timeout_ms).after(events) == StepView::Deliver(delivering),
    ensures
        delivering.email.valid(),
        is_address(delivering.email.mail_from),
        is_address(delivering.email.mail_to),
{
    law_conversations_are_well_formed(srv_domain, timeout_ms, events);
}

/// Nothing is read before the client has been greeted; then its first command is awaited.
pub proof fn law_clients_are_greeted_first(srv_domain: Seq<char>, timeout_ms: u64, event: Event)
    ensures
        opening(srv_domain, timeout_ms) matches StepView::Write(writing) && writing.bytes
            == encode_utf8(RESP_MAILSERVER_GREET@),
        opening(srv_domain, timeout_ms).on(event) is Read ==> event == Event::Written(true),
        opening(srv_domain, timeout_ms).on(Event::Written(true)) == ConversationView::fresh(
            srv_domain,
            timeout_ms,
        ).await_command(),
{
}

/// Every command is answered, and by itself hands nothing over.
pub proof fn law_commands_are_answered(talk: ConversationView, text: Seq<char>)
    requires
        talk.wf(),
    ensures
        talk.hear(text) is Write,
{
}

/// A mail that is handed over is answered, whatever becomes of it.
pub proof fn law_mails_are_answered(delivering: DeliveringView, outcome: SendOutcome)
    ensures
        delivering.next(outcome) is Write,
{
}

/// `QUIT` is answered, and ends the conversation without handing anything over.
pub proof fn law_quit_ends(talk: ConversationView, argument: Option<Seq<char>>)
    requires
        talk.wf(),
    ensures
        talk.obey(Verb::Quit, argument) == talk.reply(RESP_BYE@, Next::Close(Ok(()))),
        talk.obey(Verb::Quit, argument).on(Event::Written(true)) == StepView::End(
            Outcome::Closed(Ok(())),
        ),
{
}

/// After `RSET` the conversation is as it was right after the greeting.
pub proof fn law_rset_starts_over(talk: ConversationView, argument: Option<Seq<char>>)
    ensures
        talk.obey(Verb::Rset, argument) == talk.reset().reply(RESP_OK@, Next::Listen),
        talk.obey(Verb::Rset, argument).on(Event::Written(true)) == ConversationView::fresh(
            talk.srv_domain,
            talk.timeout_ms,
        ).await_command(),
{
    assert(talk.reset().with_buf(Seq::empty()) == ConversationView::fresh(
        talk.srv_domain,
        talk.timeout_ms,
    ));
}

/// A verb out of its turn is refused, and changes nothing.
pub proof fn law_out_of_turn_is_refused(
    talk: ConversationView,
    verb: Verb,
    argument: Option<Seq<char>>,
)
    requires
        !admits(talk.state, verb),
    ensures
        talk.obey(verb, argument) == talk.reply(RESP_UNKNOWN_COMMAND@, Next::Listen),
{
}

/// The verbs that only ask for an answer change nothing.
pub proof fn law_answers_change_nothing(
    talk: ConversationView,
    verb: Verb,
    argument: Option<Seq<char>>,
)
    requires
        verb == Verb::Auth || verb == Verb::Noop,
    ensures
        talk.obey(verb, argument) matches StepView::Write(writing) && writing.talk == talk
            && writing.next is Listen,
{
}

/// A command whose operand is missing or malformed is refused, and changes nothing.
pub proof fn law_syntax_errors_change_nothing(
    talk: ConversationView,
    verb: Verb,
    argument: Option<Seq<char>>,
)
    requires
        talk.obey(verb, argument) matches StepView::Write(writing) && writing.bytes == encode_utf8(
            RESP_SYNTAX_ERROR@,
        ),
    ensures
        talk.obey(verb, argument) matches StepView::Write(writing) && writing.talk == talk && (
        writing.next is Listen || writing.next is ListenOn),
{
    broadcast use encode_utf8_decode_utf8;

    reveal_strlit("500 Syntax error\r\n");
    reveal_strlit("500 Command not recognized\r\n");
    reveal_strlit("250 Ok\r\n");
    reveal_strlit("235 Ok\n");
    reveal_strlit("221 Bye\r\n");
    reveal_strlit("354 End data with <CR><LF>.<CR><LF>\r\n");
    reveal_strlit("250-");
    let bytes = talk.obey(verb, argument)->Write_0.bytes;
    assert(decode_utf8(bytes) == RESP_SYNTAX_ERROR@);
    assert(RESP_SYNTAX_ERROR@[0] == '5' && RESP_SYNTAX_ERROR@[4] == 'S');
    assert(RESP_UNKNOWN_COMMAND@[4] == 'C');
    if verb == Verb::Ehlo && argument is Some {
        assert(hello_text(talk.srv_domain, argument->0)[0] == '2');
    }
}

/// Once a recipient is known, `RCPT` does not change who gets the mail.
pub proof fn law_first_recipient_stays(talk: ConversationView, argument: Option<Seq<char>>)
    requires
        talk.wf(),
        talk.state == SmtpState::SmtpStateAwaitDataOrRcpt,
    ensures
        talk.obey(Verb::Rcpt, argument) matches StepView::Write(writing) && writing.talk == talk,
{
}

/// The outcomes after which a conversation goes on.
pub open spec fn serves_on(outcome: SendOutcome) -> bool {
    outcome == SendOutcome::Sent || outcome == SendOutcome::TimedOut
}

/// Once the content of a mail is there, the conversation is as it was right after the greeting,
/// unless nobody takes mails any more or the answer cannot be sent.
pub proof fn law_mail_starts_over(talk: ConversationView, bytes: Seq<u8>, outcome: SendOutcome)
    requires
        serves_on(outcome),
    ensures
        talk.content(bytes).on(Event::Sent(outcome)).on(Event::Written(true))
            == ConversationView::fresh(talk.srv_domain, talk.timeout_ms).await_command(),
{
    assert(talk.reset().with_buf(Seq::empty()) == ConversationView::fresh(
        talk.srv_domain,
        talk.timeout_ms,
    ));
}

/// A mail for which there is no room is refused for now; where nobody takes mails any more, the
/// client is told so and the conversation ends.
pub proof fn law_refused_mails(delivering: DeliveringView, outcome: SendOutcome)
    requires
        outcome != SendOutcome::Sent,
    ensures
        outcome == SendOutcome::TimedOut ==> delivering.next(outcome) == delivering.talk.reply(
            RESP_BUSY_ERROR@,
            delivering.next,
        ),
        outcome != SendOutcome::TimedOut ==> {
            &&& delivering.next(outcome) == delivering.talk.reply(
                RESP_SERVICE_UNAVAILABLE@,
                Next::Close(Err(SessionError::Smtp(SmtpError::ServerShutdown))),
            )
            &&& delivering.next(outcome).on(Event::Written(true)) == StepView::End(
                Outcome::Closed(Err(SessionError::Smtp(SmtpError::ServerShutdown))),
            )
        },
{
}

/// A client that sends nothing at all is dropped.
pub proof fn law_silent_clients_are_dropped(reading: ReadingView, event: ReadEvent)
    requires
        reading.target == TargetView::Command(0),
        reading.total_read == 0,
        event is TimedOut || event == ReadEvent::Bytes(Seq::empty()),
    ensures
        reading.next(event) == StepView::End(
            Outcome::Closed(Err(SessionError::Smtp(SmtpError::NoContentError))),
        ),
{
}

/// When the server goes down, a conversation that waits for bytes ends.
pub proof fn law_shutdown_ends_reading(reading: ReadingView)
    ensures
        reading.next(ReadEvent::Cancelled) == StepView::End(
            Outcome::Closed(Err(SessionError::Smtp(SmtpError::ServerShutdown))),
        ),
{
}

/// All the bytes of several pieces, in order.
pub open spec fn joined(pieces: Seq<Seq<u8>>) -> Seq<u8>
    decreases pieces.len(),
{
    if pieces.len() == 0 {
        Seq::empty()
    } else {
        joined(pieces.drop_last()) + pieces.last()
    }
}

/// What follows when the pieces arrive one after another, without a pause.
pub open spec fn fed(step: StepView, pieces: Seq<Seq<u8>>) -> StepView
    decreases pieces.len(),
{
    if pieces.len() == 0 {
        step
    } else {
        fed(step, pieces.drop_last()).on(Event::Read(ReadEvent::Bytes(pieces.last())))
    }
}

/// The pieces hold something each.
pub open spec fn none_empty(pieces: Seq<Seq<u8>>) -> bool {
    forall|i: int| 0 <= i < pieces.len() ==> (#[trigger] pieces[i]).len() > 0
}

/// Whether pieces fit that follow one another without a pause. All but the last are in the
/// buffer when the last one comes, and so count twice.
pub open spec fn pieces_fit(total_read: nat, held: nat, pieces: Seq<Seq<u8>>) -> bool {
    fits(
        total_read,
        joined(pieces).len(),
        held + joined(pieces.drop_last()).len(),
        MAX_SOCKET_READ_BYTES as nat,
    )
}

proof fn lemma_fewer_pieces(pieces: Seq<Seq<u8>>)
    requires
        pieces.len() > 0,
        none_empty(pieces),
    ensures
        none_empty(pieces.drop_last()),
        pieces.last().len() > 0,
{
    let fewer = pieces.drop_last();
    assert(pieces[pieces.len() - 1] == pieces.last());
    assert forall|i: int| 0 <= i < fewer.len() implies (#[trigger] fewer[i]).len() > 0 by {
        assert(fewer[i] == pieces[i]);
    }
}

/// Where a read goes on, every byte of every piece is in the buffer, in order.
pub proof fn law_nothing_is_lost(reading: ReadingView, pieces: Seq<Seq<u8>>, after: ReadingView)
    requires
        none_empty(pieces),
        fed(StepView::Read(reading), pieces) == StepView::Read(after),
    ensures
        after.buffer() == reading.buffer() + joined(pieces),
        after.total_read == reading.total_read + joined(pieces).len(),
    decreases pieces.len(),
{
    if pieces.len() == 0 {
        assert(reading.buffer() + joined(pieces) == reading.buffer());
    } else {
        lemma_fewer_pieces(pieces);
        law_nothing_is_lost(
            reading,
            pieces.drop_last(),
            fed(StepView::Read(reading), pieces.drop_last())->Read_0,
        );
    }
}

/// A read goes on as long as the pieces fit; once they do not, the client is dropped.
pub proof fn law_pieces_fit_or_are_refused(reading: ReadingView, pieces: Seq<Seq<u8>>)
    requires
        pieces.len() > 0,
        none_empty(pieces),
    ensures
        pieces_fit(reading.total_read, reading.buffer().len(), pieces) ==> fed(
            StepView::Read(reading),
            pieces,
        ) is Read,
        !pieces_fit(reading.total_read, reading.buffer().len(), pieces) ==> fed(
            StepView::Read(reading),
            pieces,
        ) == StepView::End(
            Outcome::Closed(Err(SessionError::Smtp(SmtpError::PayloadTooLargeError))),
        ),
    decreases pieces.len(),
{
    let fewer = pieces.drop_last();
    let before = fed(StepView::Read(reading), fewer);
    lemma_fewer_pieces(pieces);
    if fewer.len() == 0 {
        assert(joined(fewer) == Seq::<u8>::empty());
        assert(before == StepView::Read(reading));
    } else {
        law_pieces_fit_or_are_refused(reading, fewer);
        if before is Read {
            law_nothing_is_lost(reading, fewer, before->Read_0);
        }
    }
}

/// A client that sends too much at once is dropped, however the bytes are cut into pieces.
pub proof fn law_too_much_is_refused(reading: ReadingView, pieces: Seq<Seq<u8>>)
    requires
        pieces.len() > 0,
        none_empty(pieces),
        reading.buffer().len() + joined(pieces).len() >= MAX_SOCKET_READ_BYTES,
    ensures
        fed(StepView::Read(reading), pieces) == StepView::End(
            Outcome::Closed(Err(SessionError::Smtp(SmtpError::PayloadTooLargeError))),
        ),
{
    law_pieces_fit_or_are_refused(reading, pieces);
}

/// It does not matter into how many pieces the bytes are cut, unless they fit at once but not in
/// these pieces.
pub proof fn law_pieces_do_not_matter(reading: ReadingView, pieces: Seq<Seq<u8>>)
    requires
        pieces.len() > 0,
        none_empty(pieces),
        pieces_fit(reading.total_read, reading.buffer().len(), pieces) || !pieces_fit(
            reading.total_read,
            reading.buffer().len(),
            seq![joined(pieces)],
        ),
    ensures
        fed(StepView::Read(reading), pieces) == reading.next(ReadEvent::Bytes(joined(pieces))),
    decreases pieces.len(),
{
    let fewer = pieces.drop_last();
    let last = pieces.last();
    let whole = seq![joined(pieces)];
    lemma_fewer_pieces(pieces);
    assert(joined(pieces).len() > 0);
    assert(whole.drop_last() == Seq::<Seq<u8>>::empty());
    assert(joined(whole.drop_last()) == Seq::<u8>::empty());
    assert(joined(whole) == Seq::<u8>::empty() + joined(pieces));
    law_pieces_fit_or_are_refused(reading, pieces);
    if pieces_fit(reading.total_read, reading.buffer().len(), pieces) {
        if fewer.len() == 0 {
            assert(joined(fewer) == Seq::<u8>::empty());
            assert(joined(pieces) == last);
            assert(fed(StepView::Read(reading), fewer) == StepView::Read(reading));
        } else {
            lemma_fewer_pieces(fewer);
            law_pieces_do_not_matter(reading, fewer);
            assert(joined(fewer).len() > 0);
            assert(reading.buffer() + joined(fewer) + last == reading.buffer() + joined(pieces));
        }
    }
}

/// What follows when bursts arrive one after another, each in pieces and with a pause behind it.
pub open spec fn fed_with_pauses(step: StepView, bursts: Seq<Seq<Seq<u8>>>) -> StepView
    decreases bursts.len(),
{
    if bursts.len() == 0 {
        step
    } else {
        fed(fed_with_pauses(step, bursts.drop_last()), bursts.last()).on(
            Event::Read(ReadEvent::TimedOut),
        )
    }
}

/// All the bytes of several bursts, in order.
pub open spec fn all_of(bursts: Seq<Seq<Seq<u8>>>) -> Seq<u8>
    decreases bursts.len(),
{
    if bursts.len() == 0 {
        Seq::empty()
    } else {
        all_of(bursts.drop_last()) + joined(bursts.last())
    }
}

/// The bursts are made of pieces that hold something.
pub open spec fn none_hollow(bursts: Seq<Seq<Seq<u8>>>) -> bool {
    forall|i: int|
        0 <= i < bursts.len() ==> (#[trigger] bursts[i]).len() > 0 && none_empty(bursts[i])
}

/// Every burst fits behind those before it and the bytes that the buffer held at first.
pub open spec fn bursts_fit(held: nat, bursts: Seq<Seq<Seq<u8>>>) -> bool {
    forall|k: int|
        0 <= k < bursts.len() ==> pieces_fit(
            0,
            held + all_of(bursts.take(k)).len(),
            #[trigger] bursts[k],
        )
}

/// No burst but the last one makes what has come so far end with `end`.
pub open spec fn ends_late(before: Seq<u8>, bursts: Seq<Seq<Seq<u8>>>, end: Seq<u8>) -> bool {
    forall|k: int|
        0 < k < bursts.len() ==> !end.is_suffix_of(before + #[trigger] all_of(bursts.take(k)))
}

proof fn lemma_fewer_bursts(before: Seq<u8>, bursts: Seq<Seq<Seq<u8>>>, end: Seq<u8>)
    requires
        bursts.len() > 0,
        none_hollow(bursts),
        bursts_fit(before.len(), bursts),
        ends_late(before, bursts, end),
    ensures
        none_hollow(bursts.drop_last()),
        bursts_fit(before.len(), bursts.drop_last()),
        ends_late(before, bursts.drop_last(), end),
        bursts.len() > 1 ==> !end.is_suffix_of(before + all_of(bursts.drop_last())),
        pieces_fit(0, before.len() + all_of(bursts.drop_last()).len(), bursts.last()),
        bursts.last().len() > 0,
        none_empty(bursts.last()),
        joined(bursts.last()).len() > 0,
{
    let fewer = bursts.drop_last();
    assert(bursts[bursts.len() - 1] == bursts.last());
    assert(bursts.take(bursts.len() - 1) == fewer);
    assert forall|k: int| 0 <= k < fewer.len() implies (#[trigger] fewer[k]).len() > 0
        && none_empty(fewer[k]) by {
        assert(fewer[k] == bursts[k]);
    }
    assert forall|k: int| 0 <= k < fewer.len() implies pieces_fit(
        0,
        before.len() + all_of(fewer.take(k)).len(),
        #[trigger] fewer[k],
    ) by {
        assert(fewer[k] == bursts[k]);
        assert(fewer.take(k) == bursts.take(k));
    }
    assert forall|k: int| 0 < k < fewer.len() implies !end.is_suffix_of(
        before + #[trigger] all_of(fewer.take(k)),
    ) by {
        assert(fewer.take(k) == bursts.take(k));
    }
    lemma_fewer_pieces(bursts.last());
}

/// A content that comes in pieces and with pauses, none of which falls where the content seems
/// complete, is taken as if it had come at once.
pub proof fn law_content_with_pauses(talk: ConversationView, bursts: Seq<Seq<Seq<u8>>>)
    requires
        bursts.len() > 0,
        none_hollow(bursts),
        bursts_fit(0, bursts),
        ends_late(Seq::empty(), bursts, EMAIL_TERM.spec_bytes()),
    ensures
        fed_with_pauses(talk.await_data(), bursts) == talk.data(
            all_of(bursts),
            joined(bursts.last()).len(),
        ),
    decreases bursts.len(),
{
    let fewer = bursts.drop_last();
    let before = fed_with_pauses(talk.await_data(), fewer);
    lemma_fewer_bursts(Seq::empty(), bursts, EMAIL_TERM.spec_bytes());
    assert(Seq::<u8>::empty() + all_of(fewer) == all_of(fewer));
    if fewer.len() == 0 {
        assert(all_of(fewer) == Seq::<u8>::empty());
        assert(before == talk.await_data());
    } else {
        lemma_fewer_bursts(Seq::empty(), fewer, EMAIL_TERM.spec_bytes());
        law_content_with_pauses(talk, fewer);
    }
    law_pieces_do_not_matter(before->Read_0, bursts.last());
}

/// A command that comes in pieces and with pauses, none of which falls where the command seems
/// complete, is put together from all that has come.
pub proof fn law_command_with_pauses(talk: ConversationView, bursts: Seq<Seq<Seq<u8>>>)
    requires
        bursts.len() > 0,
        none_hollow(bursts),
        bursts_fit(talk.buf.len(), bursts),
        ends_late(talk.buf, bursts, COMMAND_TERM.spec_bytes()),
    ensures
        fed_with_pauses(talk.await_command(), bursts) == talk.with_buf(
            talk.buf + all_of(bursts),
        ).command(all_of(bursts.drop_last()).len(), joined(bursts.last()).len()),
    decreases bursts.len(),
{
    let fewer = bursts.drop_last();
    let before = fed_with_pauses(talk.await_command(), fewer);
    lemma_fewer_bursts(talk.buf, bursts, COMMAND_TERM.spec_bytes());
    assert(talk.buf + all_of(fewer) + joined(bursts.last()) == talk.buf + all_of(bursts));
    if fewer.len() == 0 {
        assert(all_of(fewer) == Seq::<u8>::empty());
        assert(talk.buf + all_of(fewer) == talk.buf);
        assert(before == talk.await_command());
    } else {
        lemma_fewer_bursts(talk.buf, fewer, COMMAND_TERM.spec_bytes());
        law_command_with_pauses(talk, fewer);
    }
    law_pieces_do_not_matter(before->Read_0, bursts.last());
}

} // verus!
