//! What the server does besides talking: taking in clients, and passing mails on.

use vstd::prelude::*;
use vstd::string::*;

use crate::email::Email;

verus! {

/// The line with which the server says that it is up.
pub open spec fn started_text(addr: Seq<char>, domain: Seq<char>) -> Seq<char> {
    "SMTP Server started. Listening to "@ + addr + " ("@ + domain + ")"@
}

/// Makes the line with which the server says that it is up.
pub fn started_message(addr: &str, domain: &str) -> (message: String)
    ensures
        message@ == started_text(addr@, domain@),
{
    let mut message = "SMTP Server started. Listening to ".to_owned();
    message.append(addr);
    message.append(" (");
    message.append(domain);
    message.append(")");
    message
}

/// What the server waits for.
#[derive(Debug, Clone, Copy, PartialEq, Eq, Structural)]
pub enum ServerEvent {
    /// The server is to go down.
    Cancelled,
    /// A client has connected.
    Accepted,
}

/// What the server does next.
#[derive(Debug, Clone, Copy, PartialEq, Eq, Structural)]
pub enum ServerStep {
    /// Talks to the client, and takes in others meanwhile.
    Serve,
    /// Takes in nobody any more.
    Stop,
}

/// Decides what the server does next.
pub fn server_step(event: ServerEvent) -> (step: ServerStep)
    ensures
        step == ServerStep::Stop <==> event == ServerEvent::Cancelled,
        step == ServerStep::Serve <==> event == ServerEvent::Accepted,
{
    match event {
        ServerEvent::Cancelled => ServerStep::Stop,
        ServerEvent::Accepted => ServerStep::Serve,
    }
}

/// What the worker that passes mails on waits for.
#[derive(Debug)]
pub enum WorkerEvent {
    /// The server is to go down.
    Cancelled,
    /// A mail has come in.
    Received(Email),
    /// No mail will come in any more.
    Dropped,
}

/// What the worker does next.
#[derive(Debug)]
pub enum WorkerStep {
    /// Passes the mail on, and waits for the next.
    Publish(Email),
    /// Says that the channel is gone, and stops.
    ReportDropped,
    /// Stops.
    Stop,
}

/// Decides what the worker does next.
pub fn worker_step(event: WorkerEvent) -> (step: WorkerStep)
    ensures
        match event {
            WorkerEvent::Cancelled => step == WorkerStep::Stop,
            WorkerEvent::Received(email) => step == WorkerStep::Publish(email),
            WorkerEvent::Dropped => step == WorkerStep::ReportDropped,
        },
{
    match event {
        WorkerEvent::Cancelled => WorkerStep::Stop,
        WorkerEvent::Received(email) => WorkerStep::Publish(email),
        WorkerEvent::Dropped => WorkerStep::ReportDropped,
    }
}

/// Whatever the server is told, it serves a client that has connected, and stops only when it is
/// to go down.
pub proof fn law_server_serves_until_told(event: ServerEvent, step: ServerStep)
    requires
        call_ensures(server_step, (event,), step),
    ensures
        event is Accepted ==> step is Serve,
        event is Cancelled ==> step is Stop,
{
}

/// Every mail that the worker gets is passed on as it is; the worker stops only when there will
/// be no more, or when the server is to go down.
pub proof fn law_worker_passes_every_mail_on(event: WorkerEvent, step: WorkerStep)
    requires
        call_ensures(worker_step, (event,), step),
    ensures
        event matches WorkerEvent::Received(email) ==> step == WorkerStep::Publish(email),
        event is Cancelled ==> step is Stop,
        event is Dropped ==> step is ReportDropped,
{
}

} // verus!
