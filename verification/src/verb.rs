//! The commands of the protocol and their operands.

use vstd::prelude::*;
use vstd::string::*;

use crate::protocol::{SmtpError, SmtpState};
use crate::text::{behind, same_text, strip_prefix, text_of};

verus! {

/// What a command asks for.
#[derive(Debug, Clone, Copy, PartialEq, Eq, Structural)]
pub enum Verb {
    Helo,
    Ehlo,
    Auth,
    /// One of the commands that are answered and change nothing.
    Noop,
    Mail,
    Rcpt,
    Data,
    Rset,
    Quit,
    Unknown,
}

/// The verb that a word stands for. Case matters.
pub open spec fn verb_named(word: Seq<char>) -> Verb {
    if word == "HELO"@ {
        Verb::Helo
    } else if word == "EHLO"@ {
        Verb::Ehlo
    } else if word == "AUTH"@ {
        Verb::Auth
    } else if word == "NOOP"@ || word == "HELP"@ || word == "INFO"@ || word == "VRFY"@ || word
        == "EXPN"@ {
        Verb::Noop
    } else if word == "MAIL"@ {
        Verb::Mail
    } else if word == "RCPT"@ {
        Verb::Rcpt
    } else if word == "DATA"@ {
        Verb::Data
    } else if word == "RSET"@ {
        Verb::Rset
    } else if word == "QUIT"@ {
        Verb::Quit
    } else {
        Verb::Unknown
    }
}

/// Whether a verb may be used in a state.
pub open spec fn admits(state: SmtpState, verb: Verb) -> bool {
    match verb {
        Verb::Helo | Verb::Ehlo => state == SmtpState::SmtpStateAwaitGreet,
        Verb::Mail => state == SmtpState::SmtpStateAwaitFrom,
        Verb::Rcpt => state == SmtpState::SmtpStateAwaitRcpt || state
            == SmtpState::SmtpStateAwaitDataOrRcpt,
        Verb::Data => state == SmtpState::SmtpStateAwaitDataOrRcpt,
        Verb::Auth | Verb::Noop | Verb::Rset | Verb::Quit => true,
        Verb::Unknown => false,
    }
}

/// What stands behind the keyword of an operand, unless there is nothing.
pub open spec fn operand(argument: Option<Seq<char>>, keyword: Seq<char>) -> Option<Seq<char>> {
    match argument {
        Some(text) => match behind(text, keyword) {
            Some(rest) => if rest.len() > 0 {
                Some(rest)
            } else {
                None
            },
            None => None,
        },
        None => None,
    }
}

/// Finds the verb that a word stands for.
pub fn verb_of(word: &str) -> (verb: Verb)
    ensures
        verb == verb_named(word@),
{
    if same_text(word, "HELO") {
        Verb::Helo
    } else if same_text(word, "EHLO") {
        Verb::Ehlo
    } else if same_text(word, "AUTH") {
        Verb::Auth
    } else if same_text(word, "NOOP") || same_text(word, "HELP") || same_text(word, "INFO")
        || same_text(word, "VRFY") || same_text(word, "EXPN") {
        Verb::Noop
    } else if same_text(word, "MAIL") {
        Verb::Mail
    } else if same_text(word, "RCPT") {
        Verb::Rcpt
    } else if same_text(word, "DATA") {
        Verb::Data
    } else if same_text(word, "RSET") {
        Verb::Rset
    } else if same_text(word, "QUIT") {
        Verb::Quit
    } else {
        Verb::Unknown
    }
}

/// Decides whether a verb may be used in a state.
pub fn is_admitted(state: SmtpState, verb: Verb) -> (admitted: bool)
    ensures
        admitted == admits(state, verb),
{
    match verb {
        Verb::Helo | Verb::Ehlo => state == SmtpState::SmtpStateAwaitGreet,
        Verb::Mail => state == SmtpState::SmtpStateAwaitFrom,
        Verb::Rcpt => state == SmtpState::SmtpStateAwaitRcpt || state
            == SmtpState::SmtpStateAwaitDataOrRcpt,
        Verb::Data => state == SmtpState::SmtpStateAwaitDataOrRcpt,
        Verb::Auth | Verb::Noop | Verb::Rset | Verb::Quit => true,
        Verb::Unknown => false,
    }
}

/// Takes the keyword off an operand. Where there is no such operand, or nothing behind the
/// keyword, the command called `command_name` is malformed.
pub fn parse_operand(argument: &Option<String>, keyword: &str, command_name: &str) -> (parsed:
    Result<String, SmtpError>)
    ensures
        match parsed {
            Ok(rest) => operand(text_of(*argument), keyword@) == Some(rest@),
            Err(error) => operand(text_of(*argument), keyword@) is None && (error matches
                SmtpError::CommandParsingError(name) && name@ == command_name@),
        },
{
    match argument {
        Some(text) => match strip_prefix(text.as_str(), keyword) {
            Some(rest) => if !rest.as_str().is_empty() {
                Ok(rest)
            } else {
                Err(SmtpError::CommandParsingError(command_name.to_owned()))
            },
            None => Err(SmtpError::CommandParsingError(command_name.to_owned())),
        },
        None => Err(SmtpError::CommandParsingError(command_name.to_owned())),
    }
}

} // verus!
