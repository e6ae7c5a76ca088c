//! The mail record.

use vstd::prelude::*;

verus! {

/// Identifier of a mail: the value of the mail counter when the mail was created.
pub type EmailId = u128;

/// One stored mail.
#[derive(Debug, PartialEq, Eq)]
pub struct Email {
    pub title_email: String,
    pub content: String,
    /// Block time at which the mail was created.
    pub timestamp: u64,
    /// What was attached to the mail, in yoctoNEAR.
    pub amount: Option<u128>,
}

/// What a mail says, as a mathematical value.
pub struct EmailView {
    pub title: Seq<char>,
    pub content: Seq<char>,
    pub timestamp: u64,
    pub amount: Option<u128>,
}

impl View for Email {
    type V = EmailView;

    open spec fn view(&self) -> EmailView {
        EmailView {
            title: self.title_email@,
            content: self.content@,
            timestamp: self.timestamp,
            amount: self.amount,
        }
    }
}

impl Clone for Email {
    fn clone(&self) -> (copy: Email)
        ensures
            copy@ == self@,
    {
        Email {
            title_email: self.title_email.clone(),
            content: self.content.clone(),
            timestamp: self.timestamp,
            amount: self.amount,
        }
    }
}

/// The views of a sequence of mails, in the same order.
pub open spec fn views(mails: Seq<Email>) -> Seq<EmailView> {
    mails.map_values(|mail: Email| mail@)
}

} // verus!
