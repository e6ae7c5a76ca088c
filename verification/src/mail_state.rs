//! What the mail contract holds, as a mathematical value, and what each request does to it.
//!
//! The executable contract states its results over these functions, and the laws in the
//! second half of the file are proved of them.

use crate::error::ContractError;
use crate::index::{ids_of, with_id};
use crate::message::{EmailId, EmailView};
use crate::records::{lemma_stored_mails_insert, lemma_stored_mails_len, stored_mails};
use crate::storage_imp::{storage_cost, STORAGE_PER_MAIL};
use vstd::prelude::*;

verus! {

/// The state of the mail contract.
#[verifier::ext_equal]
pub struct MailState {
    /// The stored mails by identifier.
    pub emails: Map<EmailId, EmailView>,
    /// How many mails were ever created: the identifier that the next mail gets.
    pub email_count: u128,
    /// For each account the mails it sent, oldest first.
    pub senders: Map<Seq<char>, Seq<EmailId>>,
    /// For each account the mails it received, oldest first.
    pub receivers: Map<Seq<char>, Seq<EmailId>>,
    /// For each provisioned account the storage cost charged to it.
    pub accounts: Map<Seq<char>, u128>,
}

/// Every indexed identifier was given out by a counter that stands at `count`, no account
/// has an identifier twice, no identifier is with two accounts, and each identifier that
/// was given out is with some account.
pub open spec fn index_inv(index: Map<Seq<char>, Seq<EmailId>>, count: u128) -> bool {
    &&& forall|account: Seq<char>, id: EmailId| #[trigger]
        ids_of(index, account).contains(id) ==> id < count
    &&& forall|account: Seq<char>| (#[trigger] ids_of(index, account)).no_duplicates()
    &&& forall|first: Seq<char>, second: Seq<char>, id: EmailId|
        #[trigger] ids_of(index, first).contains(id) && #[trigger] ids_of(index, second).contains(
            id,
        ) ==> first == second
    &&& forall|id: EmailId| id < count ==> #[trigger] indexed(index, id)
}

/// Some account has `id` in the index.
pub open spec fn indexed(index: Map<Seq<char>, Seq<EmailId>>, id: EmailId) -> bool {
    exists|account: Seq<char>| #[trigger] ids_of(index, account).contains(id)
}

/// What one mail costs its sender in storage.
pub open spec fn mail_cost() -> int {
    storage_cost(STORAGE_PER_MAIL)
}

impl MailState {
    /// The state of a new contract: no mail, no account, the counter at zero.
    pub open spec fn init() -> MailState {
        MailState {
            emails: Map::empty(),
            email_count: 0,
            senders: Map::empty(),
            receivers: Map::empty(),
            accounts: Map::empty(),
        }
    }

    /// What holds of every state that the contract can reach.
    pub open spec fn inv(self) -> bool {
        &&& self.emails.dom().finite()
        &&& self.emails.len() <= self.email_count
        &&& forall|id: EmailId| #[trigger] self.emails.contains_key(id) ==> id < self.email_count
        &&& index_inv(self.senders, self.email_count)
        &&& index_inv(self.receivers, self.email_count)
    }

    /// Whether `account` has a ledger entry.
    pub open spec fn provisioned(self, account: Seq<char>) -> bool {
        self.accounts.contains_key(account)
    }

    /// The state after `account` was provisioned: an account that has an entry keeps it.
    pub open spec fn provision(self, account: Seq<char>) -> MailState {
        if self.provisioned(account) {
            self
        } else {
            MailState { accounts: self.accounts.insert(account, 0), ..self }
        }
    }

    /// The counter and the sender's accumulator can take one more mail.
    pub open spec fn has_room(self, sender: Seq<char>) -> bool {
        &&& self.email_count < u128::MAX
        &&& self.provisioned(sender) ==> self.accounts[sender] + mail_cost() <= u128::MAX
    }

    /// The state after `sender` asked to send `mail` to `receiver`.
    ///
    /// Where the sender is provisioned, the mail is stored under the counter's value, that
    /// identifier is indexed under both accounts, the sender is charged and the counter
    /// goes up. Where it is not, nothing changes.
    pub open spec fn send(self, sender: Seq<char>, receiver: Seq<char>, mail: EmailView) -> MailState {
        if self.provisioned(sender) {
            MailState {
                emails: self.emails.insert(self.email_count, mail),
                email_count: (self.email_count + 1) as u128,
                senders: self.senders.insert(
                    sender,
                    with_id(ids_of(self.senders, sender), self.email_count),
                ),
                receivers: self.receivers.insert(
                    receiver,
                    with_id(ids_of(self.receivers, receiver), self.email_count),
                ),
                accounts: self.accounts.insert(
                    sender,
                    (self.accounts[sender] + mail_cost()) as u128,
                ),
            }
        } else {
            self
        }
    }

    /// What asking for the mail `id` gives.
    pub open spec fn get(self, id: EmailId) -> Result<EmailView, ContractError> {
        if self.emails.contains_key(id) {
            Ok(self.emails[id])
        } else {
            Err(ContractError::NotFound)
        }
    }

    /// Whether `account` is on record as the sender of the mail `id`.
    pub open spec fn is_sender(self, account: Seq<char>, id: EmailId) -> bool {
        ids_of(self.senders, account).contains(id)
    }

    /// Whether `account` is on record as the receiver of the mail `id`.
    pub open spec fn is_receiver(self, account: Seq<char>, id: EmailId) -> bool {
        ids_of(self.receivers, account).contains(id)
    }

    /// The state after `requester` asked to delete the mail `id`.
    ///
    /// Where the requester is on record as its sender, the mail is no longer stored. The
    /// indexes and the counter stay as they are. For anyone else nothing changes.
    pub open spec fn delete(self, requester: Seq<char>, id: EmailId) -> MailState {
        if self.is_sender(requester, id) {
            MailState { emails: self.emails.remove(id), ..self }
        } else {
            self
        }
    }

    /// What asking to delete the mail `id` gives `requester`.
    pub open spec fn delete_result(self, requester: Seq<char>, id: EmailId) -> Result<
        (),
        ContractError,
    > {
        if self.is_sender(requester, id) {
            Ok(())
        } else {
            Err(ContractError::PermissionDenied)
        }
    }

    /// How many mails are indexed as sent by `account`.
    pub open spec fn count_sent(self, account: Seq<char>) -> nat {
        ids_of(self.senders, account).len()
    }

    /// How many mails are indexed as received by `account`.
    pub open spec fn count_received(self, account: Seq<char>) -> nat {
        ids_of(self.receivers, account).len()
    }

    /// The stored mails that `account` sent, oldest first.
    pub open spec fn list_sent(self, account: Seq<char>) -> Seq<EmailView> {
        stored_mails(ids_of(self.senders, account), self.emails)
    }

    /// The stored mails that `account` received, oldest first.
    pub open spec fn list_received(self, account: Seq<char>) -> Seq<EmailView> {
        stored_mails(ids_of(self.receivers, account), self.emails)
    }

    /// How many mails were created and are no longer stored.
    pub open spec fn count_deleted(self) -> int {
        self.email_count - self.emails.len()
    }

    /// A new contract is in a state that the invariant allows.
    pub proof fn lemma_init_inv()
        ensures
            MailState::init().inv(),
    {
        let state = MailState::init();
        assert forall|account: Seq<char>| (#[trigger] ids_of(state.senders, account))
            =~= Seq::<EmailId>::empty() by {}
        assert forall|account: Seq<char>| (#[trigger] ids_of(state.receivers, account))
            =~= Seq::<EmailId>::empty() by {}
    }

    /// Provisioning an account keeps the invariant.
    pub proof fn lemma_provision_inv(self, account: Seq<char>)
        requires
            self.inv(),
        ensures
            self.provision(account).inv(),
    {
    }

    /// Deleting a mail keeps the invariant.
    pub proof fn lemma_delete_inv(self, requester: Seq<char>, id: EmailId)
        requires
            self.inv(),
        ensures
            self.delete(requester, id).inv(),
    {
    }

    /// Sending a mail keeps the invariant.
    pub proof fn lemma_send_inv(self, sender: Seq<char>, receiver: Seq<char>, mail: EmailView)
        requires
            self.inv(),
            self.has_room(sender),
        ensures
            self.send(sender, receiver, mail).inv(),
    {
        if self.provisioned(sender) {
            lemma_index_add(self.senders, self.email_count, sender);
            lemma_index_add(self.receivers, self.email_count, receiver);
        }
    }
}

/// Indexing the counter's value under `account` and moving the counter on keeps the index
/// invariant, and appends the identifier to what the account had.
pub proof fn lemma_index_add(index: Map<Seq<char>, Seq<EmailId>>, count: u128, account: Seq<char>)
    requires
        index_inv(index, count),
        count < u128::MAX,
    ensures
        with_id(ids_of(index, account), count) == ids_of(index, account).push(count),
        index_inv(
            index.insert(account, with_id(ids_of(index, account), count)),
            (count + 1) as u128,
        ),
{
    let before = ids_of(index, account);
    let grown = index.insert(account, with_id(before, count));
    let next = (count + 1) as u128;
    assert(!before.contains(count)) by {
        if before.contains(count) {
            assert(ids_of(index, account).contains(count));
        }
    }
    assert(ids_of(grown, account) == before.push(count));
    assert forall|other: Seq<char>| other != account implies #[trigger] ids_of(grown, other)
        == ids_of(index, other) by {}
    assert forall|other: Seq<char>, id: EmailId| #[trigger]
        ids_of(grown, other).contains(id) implies id < next && (id == count ==> other == account)
        && (id != count ==> ids_of(index, other).contains(id)) by {
        if other == account {
            let at = choose|i: int| 0 <= i < before.push(count).len() && before.push(count)[i] == id;
            if at < before.len() {
                assert(before[at] == id);
                assert(ids_of(index, account).contains(id));
            }
        } else {
            assert(ids_of(index, other).contains(id));
        }
    }
    assert forall|other: Seq<char>| (#[trigger] ids_of(grown, other)).no_duplicates() by {
        if other == account {
            assert(ids_of(index, account).no_duplicates());
            let ids = before.push(count);
            assert forall|i: int, j: int| 0 <= i < ids.len() && 0 <= j < ids.len() && i != j implies ids[i]
                != ids[j] by {
                if i < before.len() {
                    assert(before.contains(before[i]));
                }
                if j < before.len() {
                    assert(before.contains(before[j]));
                }
            }
        } else {
            assert(ids_of(index, other).no_duplicates());
        }
    }
    assert forall|first: Seq<char>, second: Seq<char>, id: EmailId|
        #[trigger] ids_of(grown, first).contains(id) && #[trigger] ids_of(grown, second).contains(
            id,
        ) implies first == second by {
        if id != count {
            assert(ids_of(index, first).contains(id));
            assert(ids_of(index, second).contains(id));
        }
    }
    assert forall|id: EmailId| id < next implies #[trigger] indexed(grown, id) by {
        if id == count {
            assert(before.push(count)[before.len() as int] == count);
            assert(ids_of(grown, account).contains(id));
        } else {
            assert(indexed(index, id));
            let other = choose|other: Seq<char>| #[trigger] ids_of(index, other).contains(id);
            if other == account {
                let at = choose|i: int| 0 <= i < before.len() && before[i] == id;
                assert(before.push(count)[at] == id);
            }
            assert(ids_of(grown, other).contains(id));
        }
    }
}

/// One request to the mail contract.
pub enum MailRequest {
    /// Provision an account.
    Provision { account: Seq<char> },
    /// Send a mail.
    Send { sender: Seq<char>, receiver: Seq<char>, mail: EmailView },
    /// Delete a mail.
    Delete { requester: Seq<char>, id: EmailId },
}

impl MailState {
    /// The state after `request`.
    pub open spec fn apply(self, request: MailRequest) -> MailState {
        match request {
            MailRequest::Provision { account } => self.provision(account),
            MailRequest::Send { sender, receiver, mail } => self.send(sender, receiver, mail),
            MailRequest::Delete { requester, id } => self.delete(requester, id),
        }
    }

    /// The state after `requests`, served one after the other.
    pub open spec fn run(self, requests: Seq<MailRequest>) -> MailState
        decreases requests.len(),
    {
        if requests.len() == 0 {
            self
        } else {
            self.run(requests.drop_last()).apply(requests.last())
        }
    }

    /// `request` is a send that goes through.
    pub open spec fn creates(self, request: MailRequest) -> bool {
        request matches MailRequest::Send { sender, .. } && self.provisioned(sender)
    }

    /// `request` is a delete that goes through.
    pub open spec fn deletes(self, request: MailRequest) -> bool {
        request matches MailRequest::Delete { requester, id } && self.is_sender(requester, id)
    }

    /// How many sends go through when `requests` are served one after the other.
    pub open spec fn creates_in(self, requests: Seq<MailRequest>) -> nat
        decreases requests.len(),
    {
        if requests.len() == 0 {
            0
        } else {
            let earlier = requests.drop_last();
            self.creates_in(earlier) + if self.run(earlier).creates(requests.last()) {
                1nat
            } else {
                0nat
            }
        }
    }

    /// How many deletes go through when `requests` are served one after the other.
    pub open spec fn deletes_in(self, requests: Seq<MailRequest>) -> nat
        decreases requests.len(),
    {
        if requests.len() == 0 {
            0
        } else {
            let earlier = requests.drop_last();
            self.deletes_in(earlier) + if self.run(earlier).deletes(requests.last()) {
                1nat
            } else {
                0nat
            }
        }
    }

    /// Every send among `requests` finds room when its turn comes.
    pub open spec fn all_have_room(self, requests: Seq<MailRequest>) -> bool
        decreases requests.len(),
    {
        requests.len() > 0 ==> {
            let earlier = requests.drop_last();
            &&& self.all_have_room(earlier)
            &&& requests.last() matches MailRequest::Send { sender, .. } ==> self.run(
                earlier,
            ).has_room(sender)
        }
    }

    /// No delete among `requests` goes through for a mail that is gone when its turn
    /// comes.
    pub open spec fn no_delete_repeats(self, requests: Seq<MailRequest>) -> bool
        decreases requests.len(),
    {
        requests.len() > 0 ==> {
            let earlier = requests.drop_last();
            &&& self.no_delete_repeats(earlier)
            &&& requests.last() matches MailRequest::Delete { requester, id } ==> (self.run(
                earlier,
            ).is_sender(requester, id) ==> self.run(earlier).emails.contains_key(id))
        }
    }

    /// The invariant holds after any run of requests that find room.
    pub proof fn lemma_run_inv(self, requests: Seq<MailRequest>)
        requires
            self.inv(),
            self.all_have_room(requests),
        ensures
            self.run(requests).inv(),
        decreases requests.len(),
    {
        if requests.len() > 0 {
            let earlier = requests.drop_last();
            self.lemma_run_inv(earlier);
            let before = self.run(earlier);
            match requests.last() {
                MailRequest::Provision { account } => before.lemma_provision_inv(account),
                MailRequest::Send { sender, receiver, mail } => before.lemma_send_inv(
                    sender,
                    receiver,
                    mail,
                ),
                MailRequest::Delete { requester, id } => before.lemma_delete_inv(requester, id),
            }
        }
    }

    /// A mail that was sent can be read back as it was sent. Its identifier is the value
    /// that the counter had, it is indexed exactly once under the sender and exactly once
    /// under the receiver, and the mail comes last in the sender's list of sent mails and
    /// in the receiver's list of received mails, which are otherwise as before.
    pub proof fn law_sent_mail_is_stored_and_indexed(
        self,
        sender: Seq<char>,
        receiver: Seq<char>,
        mail: EmailView,
    )
        requires
            self.inv(),
            self.has_room(sender),
            self.provisioned(sender),
        ensures
            ({
                let after = self.send(sender, receiver, mail);
                let id = self.email_count;
                &&& after.get(id) == Ok::<EmailView, ContractError>(mail)
                &&& ids_of(after.senders, sender).to_multiset().count(id) == 1
                &&& ids_of(after.receivers, receiver).to_multiset().count(id) == 1
                &&& after.list_sent(sender) == self.list_sent(sender).push(mail)
                &&& after.list_received(receiver) == self.list_received(receiver).push(mail)
            }),
    {
        let after = self.send(sender, receiver, mail);
        let id = self.email_count;
        self.lemma_send_inv(sender, receiver, mail);
        lemma_index_add(self.senders, id, sender);
        lemma_index_add(self.receivers, id, receiver);
        lemma_grown_list(ids_of(self.senders, sender), self.emails, id, mail);
        lemma_grown_list(ids_of(self.receivers, receiver), self.emails, id, mail);
        lemma_last_occurs_once(ids_of(self.senders, sender), id);
        lemma_last_occurs_once(ids_of(self.receivers, receiver), id);
    }

    /// As long as every mail that `account` sent is stored, the number of mails it has
    /// sent is the length of its list of sent mails; likewise for the mails it received.
    /// The list is never the longer of the two, and it is the shorter once one of the
    /// mails is gone.
    pub proof fn law_count_is_list_length(self, account: Seq<char>)
        ensures
            self.list_sent(account).len() <= self.count_sent(account),
            self.list_received(account).len() <= self.count_received(account),
            (forall|id: EmailId| self.is_sender(account, id) ==> self.emails.contains_key(id))
                <==> self.count_sent(account) == self.list_sent(account).len(),
            (forall|id: EmailId| self.is_receiver(account, id) ==> self.emails.contains_key(id))
                <==> self.count_received(account) == self.list_received(account).len(),
    {
        let sent = ids_of(self.senders, account);
        let received = ids_of(self.receivers, account);
        lemma_all_stored(sent, self.emails);
        lemma_all_stored(received, self.emails);
        assert((forall|id: EmailId| self.is_sender(account, id) ==> self.emails.contains_key(id))
            <==> (forall|id: EmailId| sent.contains(id) ==> self.emails.contains_key(id))) by {
            if forall|id: EmailId| self.is_sender(account, id) ==> self.emails.contains_key(id) {
                assert forall|id: EmailId| sent.contains(id) implies self.emails.contains_key(
                    id,
                ) by {
                    assert(self.is_sender(account, id));
                }
            }
            if forall|id: EmailId| sent.contains(id) ==> self.emails.contains_key(id) {
                assert forall|id: EmailId| self.is_sender(account, id) implies self.emails.contains_key(
                    id,
                ) by {
                    assert(sent.contains(id));
                }
            }
        }
        assert((forall|id: EmailId| self.is_receiver(account, id) ==> self.emails.contains_key(id))
            <==> (forall|id: EmailId| received.contains(id) ==> self.emails.contains_key(id))) by {
            if forall|id: EmailId| self.is_receiver(account, id) ==> self.emails.contains_key(id) {
                assert forall|id: EmailId| received.contains(id) implies self.emails.contains_key(
                    id,
                ) by {
                    assert(self.is_receiver(account, id));
                }
            }
            if forall|id: EmailId| received.contains(id) ==> self.emails.contains_key(id) {
                assert forall|id: EmailId| self.is_receiver(account, id) implies self.emails.contains_key(
                    id,
                ) by {
                    assert(received.contains(id));
                }
            }
        }
    }

    /// When the account on record as the sender of a mail deletes it, the request goes
    /// through and the mail can no longer be read: asking for it gives `NotFound`.
    pub proof fn law_sender_deletes(self, sender: Seq<char>, id: EmailId)
        requires
            self.is_sender(sender, id),
        ensures
            self.delete_result(sender, id) is Ok,
            self.delete(sender, id).get(id) == Err::<EmailView, ContractError>(
                ContractError::NotFound,
            ),
    {
    }

    /// When any account but the sender of a mail asks to delete it, the answer is
    /// `PermissionDenied`, nothing changes, and the mail reads as before.
    pub proof fn law_others_cannot_delete(self, sender: Seq<char>, other: Seq<char>, id: EmailId)
        requires
            self.inv(),
            self.is_sender(sender, id),
            other != sender,
        ensures
            self.delete_result(other, id) == Err::<(), ContractError>(
                ContractError::PermissionDenied,
            ),
            self.delete(other, id) == self,
            self.delete(other, id).get(id) == self.get(id),
    {
    }

    /// After any run of requests in which no mail is deleted a second time, the number of
    /// deleted mails is the number of deletes that went through, however they were
    /// interleaved with the sends. The counter stands at the number of sends that went
    /// through, and the difference of the two is stored.
    pub proof fn law_deleted_count(requests: Seq<MailRequest>)
        requires
            MailState::init().all_have_room(requests),
            MailState::init().no_delete_repeats(requests),
        ensures
            ({
                let start = MailState::init();
                let after = start.run(requests);
                &&& after.count_deleted() == start.deletes_in(requests)
                &&& after.email_count == start.creates_in(requests)
                &&& after.emails.len() == start.creates_in(requests) - start.deletes_in(requests)
            }),
        decreases requests.len(),
    {
        let start = MailState::init();
        if requests.len() > 0 {
            let earlier = requests.drop_last();
            MailState::law_deleted_count(earlier);
            MailState::lemma_init_inv();
            start.lemma_run_inv(earlier);
        }
    }
}

/// With the new mail stored under a new identifier at the end, the list of stored mails
/// is the list as it was with the new mail at the end.
proof fn lemma_grown_list(
    ids: Seq<EmailId>,
    emails: Map<EmailId, EmailView>,
    id: EmailId,
    mail: EmailView,
)
    requires
        !ids.contains(id),
    ensures
        stored_mails(ids.push(id), emails.insert(id, mail)) == stored_mails(ids, emails).push(mail),
{
    assert(ids.push(id).drop_last() =~= ids);
    lemma_stored_mails_insert(ids, emails, id, mail);
}

/// An identifier that is put at the end of a sequence without duplicates in which it
/// does not occur, occurs once in the result.
proof fn lemma_last_occurs_once(ids: Seq<EmailId>, id: EmailId)
    requires
        ids.no_duplicates(),
        !ids.contains(id),
    ensures
        ids.push(id).to_multiset().count(id) == 1,
{
    let grown = ids.push(id);
    assert(grown[ids.len() as int] == id);
    assert(grown.contains(id));
    assert(grown.no_duplicates()) by {
        assert forall|i: int, j: int| 0 <= i < grown.len() && 0 <= j < grown.len() && i != j implies grown[i]
            != grown[j] by {
            if i < ids.len() {
                assert(ids.contains(ids[i]));
            }
            if j < ids.len() {
                assert(ids.contains(ids[j]));
            }
        }
    }
    vstd::seq_lib::to_multiset_contains(grown, id);
    grown.lemma_multiset_has_no_duplicates();
}

/// The list of stored mails is as long as the list of identifiers just when every one of
/// them leads to a stored mail.
proof fn lemma_all_stored(ids: Seq<EmailId>, emails: Map<EmailId, EmailView>)
    ensures
        stored_mails(ids, emails).len() <= ids.len(),
        (forall|id: EmailId| ids.contains(id) ==> emails.contains_key(id)) <==> stored_mails(
            ids,
            emails,
        ).len() == ids.len(),
{
    lemma_stored_mails_len(ids, emails);
    if forall|id: EmailId| ids.contains(id) ==> emails.contains_key(id) {
        assert forall|i: int| 0 <= i < ids.len() implies emails.contains_key(#[trigger] ids[i]) by {
            assert(ids.contains(ids[i]));
        }
    } else {
        let gone = choose|id: EmailId| ids.contains(id) && !emails.contains_key(id);
        let at = choose|i: int| 0 <= i < ids.len() && ids[i] == gone;
        assert(!emails.contains_key(ids[at]));
    }
}

} // verus!
