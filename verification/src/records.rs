//! The record store: the mails themselves, by identifier.

use crate::error::ContractError;
use crate::message::{views, Email, EmailId, EmailView};
use std::collections::HashMap;
use vstd::prelude::*;

verus! {

/// The mails that `ids` lead to, in the order of `ids`. An identifier under which nothing
/// is stored is passed over.
pub open spec fn stored_mails(ids: Seq<EmailId>, emails: Map<EmailId, EmailView>) -> Seq<EmailView>
    decreases ids.len(),
{
    if ids.len() == 0 {
        Seq::empty()
    } else {
        let earlier = stored_mails(ids.drop_last(), emails);
        if emails.contains_key(ids.last()) {
            earlier.push(emails[ids.last()])
        } else {
            earlier
        }
    }
}

/// Passing over what is gone can only shorten the list, and does not where every mail is
/// still stored.
pub proof fn lemma_stored_mails_len(ids: Seq<EmailId>, emails: Map<EmailId, EmailView>)
    ensures
        stored_mails(ids, emails).len() <= ids.len(),
        (forall|i: int| 0 <= i < ids.len() ==> emails.contains_key(#[trigger] ids[i]))
            ==> stored_mails(ids, emails).len() == ids.len(),
        (exists|i: int| 0 <= i < ids.len() && !emails.contains_key(#[trigger] ids[i]))
            ==> stored_mails(ids, emails).len() < ids.len(),
    decreases ids.len(),
{
    if ids.len() > 0 {
        let earlier = ids.drop_last();
        lemma_stored_mails_len(earlier, emails);
        if forall|i: int| 0 <= i < ids.len() ==> emails.contains_key(#[trigger] ids[i]) {
            assert forall|i: int| 0 <= i < earlier.len() implies emails.contains_key(
                #[trigger] earlier[i],
            ) by {
                assert(earlier[i] == ids[i]);
            }
            assert(emails.contains_key(ids[ids.len() - 1]));
        }
        if exists|i: int| 0 <= i < ids.len() && !emails.contains_key(#[trigger] ids[i]) {
            let gone = choose|i: int| 0 <= i < ids.len() && !emails.contains_key(#[trigger] ids[i]);
            if gone < earlier.len() {
                assert(earlier[gone] == ids[gone]);
            }
        }
    }
}

/// A mail stored under an identifier that is not among `ids` does not show in their list.
pub proof fn lemma_stored_mails_insert(
    ids: Seq<EmailId>,
    emails: Map<EmailId, EmailView>,
    id: EmailId,
    mail: EmailView,
)
    requires
        !ids.contains(id),
    ensures
        stored_mails(ids, emails.insert(id, mail)) == stored_mails(ids, emails),
    decreases ids.len(),
{
    if ids.len() > 0 {
        let earlier = ids.drop_last();
        assert(!earlier.contains(id)) by {
            if earlier.contains(id) {
                let at = choose|i: int| 0 <= i < earlier.len() && earlier[i] == id;
                assert(ids[at] == id);
            }
        }
        assert(ids[ids.len() - 1] != id);
        lemma_stored_mails_insert(earlier, emails, id, mail);
    }
}

/// The stored mails and the counter that numbers them.
///
/// A mail gets the value of the counter as its identifier and the counter then goes up by
/// one, so an identifier is never given out twice, also not after its mail was removed.
pub struct RecordStore {
    emails: HashMap<EmailId, Email>,
    email_count: u128,
}

impl RecordStore {
    /// The stored mails by identifier.
    pub closed spec fn emails(&self) -> Map<EmailId, EmailView> {
        self.emails@.map_values(|mail: Email| mail@)
    }

    /// How many mails were ever created.
    pub closed spec fn email_count(&self) -> u128 {
        self.email_count
    }

    /// Every stored mail was numbered by the counter, and there are no more stored mails
    /// than the counter has numbered.
    pub closed spec fn wf(&self) -> bool {
        &&& forall|id: EmailId| #[trigger] self.emails@.contains_key(id) ==> id < self.email_count
        &&& self.emails@.len() <= self.email_count
    }

    /// A store without mails whose counter stands at zero.
    pub fn new() -> (store: Self)
        ensures
            store.wf(),
            store.emails() == Map::<EmailId, EmailView>::empty(),
            store.email_count() == 0,
    {
        let store = RecordStore { emails: HashMap::new(), email_count: 0 };
        assert(store.emails() =~= Map::<EmailId, EmailView>::empty());
        store
    }

    /// Stores a new mail under the next identifier and returns that identifier.
    pub fn create(
        &mut self,
        title: String,
        content: String,
        timestamp: u64,
        amount: Option<u128>,
    ) -> (id: EmailId)
        requires
            old(self).wf(),
            old(self).email_count() < u128::MAX,
        ensures
            final(self).wf(),
            id == old(self).email_count(),
            final(self).email_count() == id + 1,
            final(self).emails() == old(self).emails().insert(
                id,
                EmailView { title: title@, content: content@, timestamp, amount },
            ),
    {
        let id = self.email_count;
        let mail = Email { title_email: title, content, timestamp, amount };
        self.emails.insert(id, mail);
        self.email_count = id + 1;
        proof {
            assert(!old(self).emails@.contains_key(id));
            assert(self.emails() =~= old(self).emails().insert(id, mail@));
        }
        id
    }

    /// The mail stored under `id`.
    pub fn get(&self, id: EmailId) -> (found: Result<Email, ContractError>)
        ensures
            match found {
                Ok(mail) => self.emails().contains_key(id) && mail@ == self.emails()[id],
                Err(error) => error == ContractError::NotFound && !self.emails().contains_key(id),
            },
    {
        match self.emails.get(&id) {
            Some(mail) => Ok(mail.clone()),
            None => Err(ContractError::NotFound),
        }
    }

    /// Whether a mail is stored under `id`.
    pub fn contains(&self, id: EmailId) -> (found: bool)
        ensures
            found == self.emails().contains_key(id),
    {
        self.emails.contains_key(&id)
    }

    /// Takes the mail stored under `id` out of the store. The counter stays as it is.
    /// Returns whether there was such a mail.
    pub fn remove(&mut self, id: EmailId) -> (removed: bool)
        requires
            old(self).wf(),
        ensures
            final(self).wf(),
            removed == old(self).emails().contains_key(id),
            final(self).emails() == old(self).emails().remove(id),
            final(self).email_count() == old(self).email_count(),
    {
        let taken = self.emails.remove(&id);
        proof {
            assert(self.emails() =~= old(self).emails().remove(id));
        }
        taken.is_some()
    }

    /// The mails stored under `ids`, in the order of `ids`. An identifier whose mail is
    /// gone is skipped.
    pub fn get_all(&self, ids: &Vec<EmailId>) -> (mails: Vec<Email>)
        ensures
            views(mails@) == stored_mails(ids@, self.emails()),
    {
        let mut mails: Vec<Email> = Vec::new();
        let mut i: usize = 0;
        assert(views(mails@) =~= stored_mails(ids@.take(0), self.emails()));
        while i < ids.len()
            invariant
                i <= ids.len(),
                views(mails@) == stored_mails(ids@.take(i as int), self.emails()),
            decreases ids.len() - i,
        {
            let ghost before = mails@;
            proof {
                assert(ids@.take(i + 1).drop_last() =~= ids@.take(i as int));
                assert(ids@.take(i + 1).last() == ids@[i as int]);
            }
            match self.get(ids[i]) {
                Ok(mail) => {
                    mails.push(mail);
                    assert(views(mails@) =~= views(before).push(mail@));
                },
                Err(_) => {},
            }
            i += 1;
        }
        assert(ids@.take(ids.len() as int) =~= ids@);
        mails
    }

    /// How many mails are stored.
    pub fn stored(&self) -> (count: u64)
        requires
            self.wf(),
        ensures
            count == self.emails().len(),
    {
        proof {
            assert(self.emails().dom() =~= self.emails@.dom());
        }
        self.emails.len() as u64
    }

    /// How many mails were ever created.
    pub fn created(&self) -> (count: u128)
        ensures
            count == self.email_count(),
    {
        self.email_count
    }

    /// How many mails were created and are no longer stored.
    pub fn deleted(&self) -> (count: u128)
        requires
            self.wf(),
        ensures
            count == self.email_count() - self.emails().len(),
    {
        proof {
            assert(self.emails().dom() =~= self.emails@.dom());
        }
        self.email_count - (self.emails.len() as u128)
    }
}

} // verus!
