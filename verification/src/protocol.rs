//! The words of the protocol: the replies, the states of a conversation and its errors.

use vstd::prelude::*;
use vstd::string::*;

verus! {

/// The most bytes that one read may leave in a buffer, plus one.
pub const MAX_SOCKET_READ_BYTES: usize = 512_000;

/// How long a client may pause inside the content of a mail, in milliseconds.
pub const DATA_TIMEOUT_MS: u64 = 5_000;

/// How long a read waits for more once something has arrived, in milliseconds.
pub const DRAIN_TIMEOUT_MS: u64 = 10;

/// What ends a command.
pub const COMMAND_TERM: &'static str = "\r\n";

/// What ends the content of a mail.
pub const EMAIL_TERM: &'static str = "\r\n.\r\n";

/// The first thing a client hears.
pub const RESP_MAILSERVER_GREET: &'static str = "220 rs-mailserver\r\n";

/// The content may come.
pub const RESP_END_DATA_WITH: &'static str = "354 End data with <CR><LF>.<CR><LF>\r\n";

/// The command was obeyed.
pub const RESP_OK: &'static str = "250 Ok\r\n";

/// The client may go on. This one ends without a carriage return.
pub const RESP_AUTH_OK: &'static str = "235 Ok\n";

/// The conversation is over.
pub const RESP_BYE: &'static str = "221 Bye\r\n";

/// The command is not known, or not admitted now.
pub const RESP_UNKNOWN_COMMAND: &'static str = "500 Command not recognized\r\n";

/// The command, or the content, is malformed.
pub const RESP_SYNTAX_ERROR: &'static str = "500 Syntax error\r\n";

/// There is no room for the mail.
pub const RESP_BUSY_ERROR: &'static str = "450 mailbox unavailable\r\n";

/// Nobody takes mails any more.
pub const RESP_SERVICE_UNAVAILABLE: &'static str =
    "421 Service not available, closing transmission channel\r\n";

/// What can go wrong in a conversation, apart from the socket itself.
#[derive(Debug)]
pub enum SmtpError {
    CommandParsingError(String),
    NoContentError,
    PayloadTooLargeError,
    RateLimitError,
    ServerShutdown,
}

impl SmtpError {
    /// The text that [`SmtpError::message`] gives.
    pub open spec fn text(self) -> Seq<char> {
        match self {
            SmtpError::CommandParsingError(command_name) => "invalid syntax for command \""@
                + command_name@ + "\""@,
            SmtpError::NoContentError => "no content received before timeout"@,
            SmtpError::PayloadTooLargeError => "socket payload too large"@,
            SmtpError::RateLimitError => "rate limited, channel is too busy"@,
            SmtpError::ServerShutdown => "server shutting down"@,
        }
    }

    /// The error in words.
    pub fn message(&self) -> (message: String)
        ensures
            message@ == self.text(),
    {
        match self {
            SmtpError::CommandParsingError(command_name) => {
                let mut message = "invalid syntax for command \"".to_owned();
                message.append(command_name.as_str());
                message.append("\"");
                message
            },
            SmtpError::NoContentError => "no content received before timeout".to_owned(),
            SmtpError::PayloadTooLargeError => "socket payload too large".to_owned(),
            SmtpError::RateLimitError => "rate limited, channel is too busy".to_owned(),
            SmtpError::ServerShutdown => "server shutting down".to_owned(),
        }
    }
}

/// What a conversation waits for.
#[derive(Debug, Clone, Copy, PartialEq, Eq, Structural)]
pub enum SmtpState {
    SmtpStateAwaitGreet,
    SmtpStateAwaitFrom,
    SmtpStateAwaitRcpt,
    SmtpStateAwaitDataOrRcpt,
    SmtpStateAwaitData,
}

impl SmtpState {
    /// The text that [`SmtpState::name`] gives.
    pub open spec fn text(self) -> Seq<char> {
        match self {
            SmtpState::SmtpStateAwaitGreet => "SmtpStateAwaitGreet"@,
            SmtpState::SmtpStateAwaitFrom => "SmtpStateAwaitFrom"@,
            SmtpState::SmtpStateAwaitRcpt => "SmtpStateAwaitRcpt"@,
            SmtpState::SmtpStateAwaitDataOrRcpt => "SmtpStateAwaitDataOrRcpt"@,
            SmtpState::SmtpStateAwaitData => "SmtpStateAwaitData"@,
        }
    }

    /// The state's name.
    pub fn name(&self) -> (name: &'static str)
        ensures
            name@ == self.text(),
    {
        match self {
            SmtpState::SmtpStateAwaitGreet => "SmtpStateAwaitGreet",
            SmtpState::SmtpStateAwaitFrom => "SmtpStateAwaitFrom",
            SmtpState::SmtpStateAwaitRcpt => "SmtpStateAwaitRcpt",
            SmtpState::SmtpStateAwaitDataOrRcpt => "SmtpStateAwaitDataOrRcpt",
            SmtpState::SmtpStateAwaitData => "SmtpStateAwaitData",
        }
    }
}

} // verus!
