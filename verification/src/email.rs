//! A mail as it is collected during one conversation.

use vstd::prelude::*;
use vstd::string::*;

verus! {

/// A mail: who it is from, who it is for, and what it says.
#[derive(Debug)]
pub struct Email {
    pub mail_from: String,
    pub mail_to: String,
    pub mail_content: String,
}

/// What an [`Email`] holds, as character sequences.
#[verifier::ext_equal]
pub struct EmailView {
    pub mail_from: Seq<char>,
    pub mail_to: Seq<char>,
    pub mail_content: Seq<char>,
}

impl EmailView {
    /// The mail of which nothing is known yet.
    pub open spec fn blank() -> EmailView {
        EmailView {
            mail_from: Seq::empty(),
            mail_to: Seq::empty(),
            mail_content: Seq::empty(),
        }
    }

    /// A mail is valid once it has a sender, a recipient and a content.
    pub open spec fn valid(self) -> bool {
        &&& self.mail_from.len() > 0
        &&& self.mail_to.len() > 0
        &&& self.mail_content.len() > 0
    }
}

impl View for Email {
    type V = EmailView;

    open spec fn view(&self) -> EmailView {
        EmailView {
            mail_from: self.mail_from@,
            mail_to: self.mail_to@,
            mail_content: self.mail_content@,
        }
    }
}

impl Clone for Email {
    fn clone(&self) -> (res: Email)
        ensures
            res@ == self@,
    {
        Email {
            mail_from: self.mail_from.clone(),
            mail_to: self.mail_to.clone(),
            mail_content: self.mail_content.clone(),
        }
    }
}

impl Email {
    /// A mail with neither sender nor recipient nor content.
    pub fn new() -> (email: Email)
        ensures
            email@ == EmailView::blank(),
    {
        Email { mail_from: String::new(), mail_to: String::new(), mail_content: String::new() }
    }

    /// Whether sender, recipient and content are all there.
    pub fn is_valid(&self) -> (valid: bool)
        ensures
            valid == self@.valid(),
    {
        !self.mail_content.as_str().is_empty() && !self.mail_from.as_str().is_empty()
            && !self.mail_to.as_str().is_empty()
    }
}

/// A new mail is not valid.
pub proof fn law_new_mail_is_not_valid()
    ensures
        !EmailView::blank().valid(),
{
}

} // verus!
