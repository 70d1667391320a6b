//! The command line.

use vstd::prelude::*;
use vstd::string::*;

use crate::text::same_text;

verus! {

/// Where the server listens unless it is told otherwise.
pub const DEFAULT_LISTEN_ADDRESS: &'static str = "0.0.0.0:25";

/// What the program is asked to do.
#[derive(Debug)]
pub enum Invocation {
    /// `send <srv_addr> <mail_from> <mail_to> <mail_content>`
    Send { srv_addr: String, mail_from: String, mail_to: String, mail_content: String },
    /// `recv <server_domain> [redis_addr] [listen_address]`
    Recv { domain: String, redis_addr: Option<String>, listen_addr: String },
    /// `recv` without a domain.
    DomainRequired,
    /// Anything else.
    Help,
}

/// Whether an invocation is the one that the arguments behind the program's name ask for.
/// Arguments behind the last operand are passed over.
pub open spec fn asked_for(args: Seq<String>, invocation: Invocation) -> bool {
    if args.len() >= 5 && args[0]@ == "send"@ {
        invocation matches Invocation::Send { srv_addr, mail_from, mail_to, mail_content }
            && srv_addr@ == args[1]@ && mail_from@ == args[2]@ && mail_to@ == args[3]@
            && mail_content@ == args[4]@
    } else if args.len() == 1 && args[0]@ == "recv"@ {
        invocation is DomainRequired
    } else if args.len() >= 2 && args[0]@ == "recv"@ {
        invocation matches Invocation::Recv { domain, redis_addr, listen_addr } && domain@
            == args[1]@ && (if args.len() > 2 {
            redis_addr matches Some(addr) && addr@ == args[2]@
        } else {
            redis_addr is None
        }) && listen_addr@ == (if args.len() > 3 {
            args[3]@
        } else {
            DEFAULT_LISTEN_ADDRESS@
        })
    } else {
        invocation is Help
    }
}

/// Reads the arguments behind the program's name.
pub fn parse_args(args: &Vec<String>) -> (invocation: Invocation)
    ensures
        asked_for(args@, invocation),
{
    let count: usize = args.len();
    if count >= 5 && same_text(args[0].as_str(), "send") {
        Invocation::Send {
            srv_addr: args[1].clone(),
            mail_from: args[2].clone(),
            mail_to: args[3].clone(),
            mail_content: args[4].clone(),
        }
    } else if count >= 1 && same_text(args[0].as_str(), "recv") {
        if count == 1 {
            return Invocation::DomainRequired;
        }
        Invocation::Recv {
            domain: args[1].clone(),
            redis_addr: if count > 2 {
                Some(args[2].clone())
            } else {
                None
            },
            listen_addr: if count > 3 {
                args[3].clone()
            } else {
                DEFAULT_LISTEN_ADDRESS.to_owned()
            },
        }
    } else {
        Invocation::Help
    }
}

} // verus!
