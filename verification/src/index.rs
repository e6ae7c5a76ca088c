//! The index store: which mails each account has sent and which it has received.

use crate::account_map::AccountMap;
use crate::message::EmailId;
use vstd::prelude::*;

verus! {

/// The identifiers indexed under `account`: none for an account the index does not know.
pub open spec fn ids_of(index: Map<Seq<char>, Seq<EmailId>>, account: Seq<char>) -> Seq<EmailId> {
    if index.contains_key(account) {
        index[account]
    } else {
        Seq::empty()
    }
}

/// `ids` with `id` in it: unchanged where it is there already, else with `id` at the end.
pub open spec fn with_id(ids: Seq<EmailId>, id: EmailId) -> Seq<EmailId> {
    if ids.contains(id) {
        ids
    } else {
        ids.push(id)
    }
}

/// Putting an identifier into a set a second time changes nothing, and a set without
/// duplicates stays one.
pub proof fn law_with_id_is_set_insert(ids: Seq<EmailId>, id: EmailId)
    ensures
        with_id(ids, id).contains(id),
        with_id(with_id(ids, id), id) == with_id(ids, id),
        ids.no_duplicates() ==> with_id(ids, id).no_duplicates(),
        forall|other: EmailId| ids.contains(other) ==> with_id(ids, id).contains(other),
{
    if !ids.contains(id) {
        let grown = ids.push(id);
        assert(grown[ids.len() as int] == id);
        assert forall|other: EmailId| ids.contains(other) implies grown.contains(other) by {
            let at = choose|i: int| 0 <= i < ids.len() && ids[i] == other;
            assert(grown[at] == other);
        }
        if ids.no_duplicates() {
            assert forall|i: int, j: int|
                0 <= i < grown.len() && 0 <= j < grown.len() && i != j implies grown[i]
                != grown[j] by {
                if i < ids.len() {
                    assert(ids.contains(ids[i]));
                }
                if j < ids.len() {
                    assert(ids.contains(ids[j]));
                }
            }
        }
    }
}

/// Whether `id` occurs in `ids`.
pub fn contains_id(ids: &Vec<EmailId>, id: EmailId) -> (found: bool)
    ensures
        found == ids@.contains(id),
{
    let mut i: usize = 0;
    while i < ids.len()
        invariant
            i <= ids.len(),
            forall|j: int| 0 <= j < i ==> ids@[j] != id,
        decreases ids.len() - i,
    {
        if ids[i] == id {
            return true;
        }
        i += 1;
    }
    false
}

/// One direction of the index: for each account a set of mail identifiers, kept in the
/// order in which they were added.
pub struct Index {
    entries: AccountMap<Vec<EmailId>>,
}

impl View for Index {
    type V = Map<Seq<char>, Seq<EmailId>>;

    closed spec fn view(&self) -> Map<Seq<char>, Seq<EmailId>> {
        self.entries@.map_values(|ids: Vec<EmailId>| ids@)
    }
}

impl Index {
    /// The entries are a well-formed map.
    pub closed spec fn wf(&self) -> bool {
        self.entries.wf()
    }

    /// An index that knows no account.
    pub fn new() -> (index: Self)
        ensures
            index.wf(),
            index@ == Map::<Seq<char>, Seq<EmailId>>::empty(),
    {
        let index = Index { entries: AccountMap::new() };
        assert(index@ =~= Map::<Seq<char>, Seq<EmailId>>::empty());
        index
    }

    /// Puts `id` into the set of `account`. An account without a set gets one; an
    /// identifier that is in the set already is not added again.
    pub fn add(&mut self, account: &String, id: EmailId)
        requires
            old(self).wf(),
        ensures
            final(self).wf(),
            final(self)@ == old(self)@.insert(account@, with_id(ids_of(old(self)@, account@), id)),
    {
        let mut ids: Vec<EmailId> = match self.entries.remove(account) {
            Some(found) => found,
            None => Vec::new(),
        };
        assert(ids@ == ids_of(old(self)@, account@));
        if !contains_id(&ids, id) {
            ids.push(id);
        }
        assert(ids@ == with_id(ids_of(old(self)@, account@), id));
        self.entries.insert(account.clone(), ids);
        proof {
            assert(self.entries@ =~= old(self).entries@.insert(account@, ids));
            assert(self@ =~= old(self)@.insert(account@, ids@));
        }
    }

    /// How many identifiers are indexed under `account`: zero for an unknown account.
    pub fn count(&self, account: &String) -> (count: u64)
        requires
            self.wf(),
        ensures
            count == ids_of(self@, account@).len(),
    {
        match self.entries.get(account) {
            Some(ids) => ids.len() as u64,
            None => 0,
        }
    }

    /// The identifiers indexed under `account`, in the order in which they were added.
    pub fn ids(&self, account: &String) -> (ids: Option<&Vec<EmailId>>)
        requires
            self.wf(),
        ensures
            match ids {
                Some(found) => self@.contains_key(account@) && found@ == self@[account@],
                None => !self@.contains_key(account@),
            },
    {
        self.entries.get(account)
    }

    /// Whether `id` is indexed under `account`.
    pub fn contains(&self, account: &String, id: EmailId) -> (found: bool)
        requires
            self.wf(),
        ensures
            found == ids_of(self@, account@).contains(id),
    {
        match self.entries.get(account) {
            Some(ids) => contains_id(ids, id),
            None => false,
        }
    }
}

/// The index store: one index by sender and one by receiver.
pub struct IndexStore {
    senders: Index,
    receivers: Index,
}

impl IndexStore {
    /// For each account, the mails it sent.
    pub closed spec fn sent(&self) -> Map<Seq<char>, Seq<EmailId>> {
        self.senders@
    }

    /// For each account, the mails it received.
    pub closed spec fn received(&self) -> Map<Seq<char>, Seq<EmailId>> {
        self.receivers@
    }

    /// Both indexes are well-formed.
    pub closed spec fn wf(&self) -> bool {
        self.senders.wf() && self.receivers.wf()
    }

    /// A store that knows no account.
    pub fn new() -> (store: Self)
        ensures
            store.wf(),
            store.sent() == Map::<Seq<char>, Seq<EmailId>>::empty(),
            store.received() == Map::<Seq<char>, Seq<EmailId>>::empty(),
    {
        IndexStore { senders: Index::new(), receivers: Index::new() }
    }

    /// Records that `account` sent the mail `id`.
    pub fn add_sent(&mut self, account: &String, id: EmailId)
        requires
            old(self).wf(),
        ensures
            final(self).wf(),
            final(self).sent() == old(self).sent().insert(
                account@,
                with_id(ids_of(old(self).sent(), account@), id),
            ),
            final(self).received() == old(self).received(),
    {
        self.senders.add(account, id);
    }

    /// Records that `account` received the mail `id`.
    pub fn add_received(&mut self, account: &String, id: EmailId)
        requires
            old(self).wf(),
        ensures
            final(self).wf(),
            final(self).received() == old(self).received().insert(
                account@,
                with_id(ids_of(old(self).received(), account@), id),
            ),
            final(self).sent() == old(self).sent(),
    {
        self.receivers.add(account, id);
    }

    /// How many mails `account` has sent: zero for an unknown account.
    pub fn count_sent(&self, account: &String) -> (count: u64)
        requires
            self.wf(),
        ensures
            count == ids_of(self.sent(), account@).len(),
    {
        self.senders.count(account)
    }

    /// How many mails `account` has received: zero for an unknown account.
    pub fn count_received(&self, account: &String) -> (count: u64)
        requires
            self.wf(),
        ensures
            count == ids_of(self.received(), account@).len(),
    {
        self.receivers.count(account)
    }

    /// The mails that `account` sent, oldest first.
    pub fn sent_ids(&self, account: &String) -> (ids: Option<&Vec<EmailId>>)
        requires
            self.wf(),
        ensures
            match ids {
                Some(found) => self.sent().contains_key(account@) && found@ == self.sent()[account@],
                None => !self.sent().contains_key(account@),
            },
    {
        self.senders.ids(account)
    }

    /// The mails that `account` received, oldest first.
    pub fn received_ids(&self, account: &String) -> (ids: Option<&Vec<EmailId>>)
        requires
            self.wf(),
        ensures
            match ids {
                Some(found) => self.received().contains_key(account@) && found@
                    == self.received()[account@],
                None => !self.received().contains_key(account@),
            },
    {
        self.receivers.ids(account)
    }

    /// Whether `account` is on record as the sender of the mail `id`.
    pub fn is_sender(&self, account: &String, id: EmailId) -> (found: bool)
        requires
            self.wf(),
        ensures
            found == ids_of(self.sent(), account@).contains(id),
    {
        self.senders.contains(account, id)
    }
}

} // verus!
