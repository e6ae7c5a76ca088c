//! The mail contract: it stores mails, indexes them by sender and by receiver, and charges
//! the sender for the storage.
//!
//! The contract reads nothing from its surroundings. Who is calling and what time it is
//! are arguments, and money that has to move is handed back as a [`Transfer`] for the
//! caller to carry out.

use crate::error::ContractError;
use crate::index::IndexStore;
use crate::mail_state::MailState;
use crate::message::{views, Email, EmailId, EmailView};
use crate::records::RecordStore;
use crate::storage_imp::{AccountLedger, VAccount, STORAGE_PER_MAIL};
use vstd::bytes::{
    lemma_auto_spec_u128_to_from_le_bytes, spec_u128_from_le_bytes, spec_u128_to_le_bytes,
    u128_to_le_bytes,
};
use vstd::prelude::*;

verus! {

/// The partitions of the contract's persistent state.
#[allow(non_snake_case)]
#[derive(Clone, Copy, Debug, PartialEq, Eq, Structural)]
pub enum StorateKeys {
    /// The index of mails by sender.
    SenderKey,
    /// The index of mails by receiver.
    ReceiverKey,
    /// The mails.
    Email,
    /// The account ledger.
    Account,
    /// The set of one sender, named by the mail that opened it.
    SenderMail { emailId: EmailId },
    /// The set of one receiver, named by the mail that opened it.
    ReceiverMail { emailId: EmailId },
}

impl StorateKeys {
    /// The first byte of the key: the place of the variant in the list.
    pub open spec fn tag(self) -> u8 {
        match self {
            StorateKeys::SenderKey => 0,
            StorateKeys::ReceiverKey => 1,
            StorateKeys::Email => 2,
            StorateKeys::Account => 3,
            StorateKeys::SenderMail { .. } => 4,
            StorateKeys::ReceiverMail { .. } => 5,
        }
    }

    /// The bytes under which the partition is kept: the tag, followed for the set of one
    /// account by the sixteen bytes of the mail identifier, lowest first.
    pub open spec fn storage_key(self) -> Seq<u8> {
        match self {
            StorateKeys::SenderMail { emailId } => seq![self.tag()] + spec_u128_to_le_bytes(
                emailId,
            ),
            StorateKeys::ReceiverMail { emailId } => seq![self.tag()] + spec_u128_to_le_bytes(
                emailId,
            ),
            _ => seq![self.tag()],
        }
    }

    /// The bytes under which the partition is kept.
    pub fn into_storage_key(&self) -> (key: Vec<u8>)
        ensures
            key@ == self.storage_key(),
    {
        let mut key: Vec<u8> = Vec::new();
        match self {
            StorateKeys::SenderKey => {
                key.push(0);
            },
            StorateKeys::ReceiverKey => {
                key.push(1);
            },
            StorateKeys::Email => {
                key.push(2);
            },
            StorateKeys::Account => {
                key.push(3);
            },
            StorateKeys::SenderMail { emailId } => {
                key.push(4);
                let mut id = u128_to_le_bytes(*emailId);
                key.append(&mut id);
            },
            StorateKeys::ReceiverMail { emailId } => {
                key.push(5);
                let mut id = u128_to_le_bytes(*emailId);
                key.append(&mut id);
            },
        }
        assert(key@ =~= self.storage_key());
        key
    }

    /// The partitions do not run into each other: the key of one partition is never the
    /// beginning of the key of another.
    pub proof fn law_partitions_apart(self, other: StorateKeys)
        requires
            self != other,
        ensures
            !self.storage_key().is_prefix_of(other.storage_key()),
    {
        lemma_auto_spec_u128_to_from_le_bytes();
        let mine = self.storage_key();
        let theirs = other.storage_key();
        if mine.is_prefix_of(theirs) {
            assert(mine[0] == theirs[0]);
            assert(self.tag() == other.tag());
            match (self, other) {
                (
                    StorateKeys::SenderMail { emailId: first },
                    StorateKeys::SenderMail { emailId: second },
                ) => {
                    lemma_same_id(4, first, second);
                },
                (
                    StorateKeys::ReceiverMail { emailId: first },
                    StorateKeys::ReceiverMail { emailId: second },
                ) => {
                    lemma_same_id(5, first, second);
                },
                _ => {},
            }
        }
    }
}

/// Two keys with an identifier behind the same tag, of which one begins with the other,
/// hold the same identifier.
proof fn lemma_same_id(tag: u8, first: EmailId, second: EmailId)
    requires
        (seq![tag] + spec_u128_to_le_bytes(first)).is_prefix_of(
            seq![tag] + spec_u128_to_le_bytes(second),
        ),
    ensures
        first == second,
{
    lemma_auto_spec_u128_to_from_le_bytes();
    let mine = spec_u128_to_le_bytes(first);
    let theirs = spec_u128_to_le_bytes(second);
    assert(mine.len() == 16 && theirs.len() == 16);
    assert forall|i: int| 0 <= i < 16 implies mine[i] == theirs[i] by {
        assert((seq![tag] + mine)[i + 1] == mine[i]);
        assert((seq![tag] + theirs)[i + 1] == theirs[i]);
        assert((seq![tag] + theirs).subrange(0, 17)[i + 1] == (seq![tag] + theirs)[i + 1]);
    }
    assert(mine =~= theirs);
    assert(spec_u128_from_le_bytes(mine) == first);
    assert(spec_u128_from_le_bytes(theirs) == second);
}

/// The greeting of every contract.
pub open spec fn default_message() -> Seq<char> {
    "Hello"@
}

/// The account that attached amounts are passed on to.
pub open spec fn donation_account() -> Seq<char> {
    "tutmt.testnet"@
}

/// An amount that is to be moved to an account.
#[derive(Debug, PartialEq, Eq)]
pub struct Transfer {
    pub receiver: String,
    /// In yoctoNEAR.
    pub amount: u128,
}

/// What a successful send hands back.
#[derive(Debug, PartialEq, Eq)]
pub struct SendReceipt {
    /// The identifier of the new mail.
    pub email_id: EmailId,
    /// The payment to make, where an amount was attached to the mail.
    pub transfer: Option<Transfer>,
}

/// The transfer that a mail with `amount` attached calls for: receiver and amount.
pub open spec fn transfer_due(amount: Option<u128>) -> Option<(Seq<char>, u128)> {
    match amount {
        Some(fee) => Some((donation_account(), fee)),
        None => None,
    }
}

impl SendReceipt {
    /// The receiver and the amount of the payment to make, if there is one.
    pub open spec fn transfer_view(self) -> Option<(Seq<char>, u128)> {
        match self.transfer {
            Some(transfer) => Some((transfer.receiver@, transfer.amount)),
            None => None,
        }
    }
}

/// What looking up a mail gave, as a mathematical value.
pub open spec fn lookup_view(found: Result<Email, ContractError>) -> Result<
    EmailView,
    ContractError,
> {
    match found {
        Ok(mail) => Ok(mail@),
        Err(error) => Err(error),
    }
}

/// The mail contract.
pub struct Contract {
    message: String,
    index: IndexStore,
    emails: RecordStore,
    accounts: AccountLedger,
    donation_account: String,
}

impl View for Contract {
    type V = MailState;

    closed spec fn view(&self) -> MailState {
        MailState {
            emails: self.emails.emails(),
            email_count: self.emails.email_count(),
            senders: self.index.sent(),
            receivers: self.index.received(),
            accounts: self.accounts@,
        }
    }
}

impl Contract {
    /// The stores are well-formed and the greeting and the donation account are the
    /// fixed ones.
    pub closed spec fn stores_wf(&self) -> bool {
        &&& self.index.wf()
        &&& self.emails.wf()
        &&& self.accounts.wf()
        &&& self.message@ == default_message()
        &&& self.donation_account@ == donation_account()
    }

    /// The contract is in order: its stores are, and its state meets the invariant.
    pub open spec fn wf(&self) -> bool {
        self.stores_wf() && self@.inv()
    }

    /// A contract without mails and without provisioned accounts.
    pub fn new() -> (contract: Self)
        ensures
            contract.wf(),
            contract@ == MailState::init(),
    {
        let contract = Contract {
            message: "Hello".to_string(),
            index: IndexStore::new(),
            emails: RecordStore::new(),
            accounts: AccountLedger::new(),
            donation_account: "tutmt.testnet".to_string(),
        };
        proof {
            MailState::lemma_init_inv();
            assert(contract@ =~= MailState::init());
        }
        contract
    }

    /// The greeting.
    pub fn get_greeting(&self) -> (greeting: String)
        requires
            self.wf(),
        ensures
            greeting@ == default_message(),
    {
        return self.message.clone();
    }

    /// Gives `account` a ledger entry with nothing charged, unless it has one.
    /// Returns whether an entry was made.
    pub fn provision_account(&mut self, account: String) -> (created: bool)
        requires
            old(self).wf(),
        ensures
            final(self).wf(),
            created == !old(self)@.provisioned(account@),
            final(self)@ == old(self)@.provision(account@),
    {
        let created = self.accounts.provision(account);
        proof {
            old(self)@.lemma_provision_inv(account@);
            assert(self@ =~= old(self)@.provision(account@));
        }
        created
    }

    /// The ledger entry of `account`, if it is provisioned.
    pub fn get_account(&self, account: &String) -> (entry: Option<VAccount>)
        requires
            self.wf(),
        ensures
            match entry {
                Some(found) => self@.provisioned(account@) && found.used == self@.accounts[account@],
                None => !self@.provisioned(account@),
            },
    {
        self.accounts.get(account)
    }

    /// Whether the counter and the accumulator of `sender` can take one more mail.
    pub fn has_room(&self, sender: &String) -> (room: bool)
        requires
            self.wf(),
        ensures
            room == self@.has_room(sender@),
    {
        self.emails.created() < u128::MAX && self.accounts.charge_fits(sender, STORAGE_PER_MAIL)
    }

    /// Sends a mail from `sender` to `receiver`.
    ///
    /// The sender is charged for the storage, the mail is stored under the next identifier
    /// with `timestamp` as its time of creation, and the identifier is indexed under both
    /// accounts. A sender that was never provisioned is turned down and nothing changes.
    /// Where an amount is attached, the receipt says what to pay to the donation account.
    pub fn send_email(
        &mut self,
        sender: String,
        receiver: String,
        title: String,
        content: String,
        amount: Option<u128>,
        timestamp: u64,
    ) -> (sent: Result<SendReceipt, ContractError>)
        requires
            old(self).wf(),
            old(self)@.has_room(sender@),
        ensures
            final(self).wf(),
            final(self)@ == old(self)@.send(
                sender@,
                receiver@,
                EmailView { title: title@, content: content@, timestamp, amount },
            ),
            sent is Ok <==> old(self)@.provisioned(sender@),
            match sent {
                Ok(receipt) => receipt.email_id == old(self)@.email_count
                    && receipt.transfer_view() == transfer_due(amount),
                Err(error) => error == ContractError::AccountNotProvisioned,
            },
    {
        let ghost mail = EmailView { title: title@, content: content@, timestamp, amount };
        match self.accounts.charge_storage(&sender, STORAGE_PER_MAIL) {
            Ok(()) => {},
            Err(error) => {
                assert(self@ =~= old(self)@);
                return Err(error);
            },
        }
        let email_id = self.emails.create(title, content, timestamp, amount);
        self.index.add_sent(&sender, email_id);
        self.index.add_received(&receiver, email_id);
        let transfer = match amount {
            Some(fee) => Some(Transfer { receiver: self.donation_account.clone(), amount: fee }),
            None => None,
        };
        proof {
            old(self)@.lemma_send_inv(sender@, receiver@, mail);
            assert(self@ =~= old(self)@.send(sender@, receiver@, mail));
        }
        Ok(SendReceipt { email_id, transfer })
    }

    /// The mail stored under `email_id`, or `NotFound` where there is none: for an
    /// identifier that was never given out and for one whose mail was deleted.
    pub fn get_email(&self, email_id: EmailId) -> (found: Result<Email, ContractError>)
        ensures
            lookup_view(found) == self@.get(email_id),
    {
        self.emails.get(email_id)
    }

    /// Deletes the mail `email_id` on behalf of `requester`.
    ///
    /// Only the account on record as the sender of the mail may do so: anyone else gets
    /// `PermissionDenied` and nothing changes. The identifier stays in the indexes.
    pub fn delete_mail(&mut self, requester: String, email_id: EmailId) -> (deleted: Result<
        (),
        ContractError,
    >)
        requires
            old(self).wf(),
        ensures
            final(self).wf(),
            final(self)@ == old(self)@.delete(requester@, email_id),
            deleted == old(self)@.delete_result(requester@, email_id),
    {
        if !self.index.is_sender(&requester, email_id) {
            return Err(ContractError::PermissionDenied);
        }
        self.emails.remove(email_id);
        proof {
            old(self)@.lemma_delete_inv(requester@, email_id);
            assert(self@ =~= old(self)@.delete(requester@, email_id));
        }
        Ok(())
    }

    /// How many mails are stored.
    pub fn mail_exist(&self) -> (count: u64)
        requires
            self.wf(),
        ensures
            count == self@.emails.len(),
    {
        self.emails.stored()
    }

    /// The stored mails that `receiver` received, oldest first. Mails that were deleted
    /// are left out.
    pub fn get_mail_receive(&self, receiver: String) -> (mails: Vec<Email>)
        requires
            self.wf(),
        ensures
            views(mails@) == self@.list_received(receiver@),
    {
        let mut email_vec: Vec<Email> = Vec::new();
        if let Some(receiver_vec) = self.index.received_ids(&receiver) {
            email_vec = self.emails.get_all(receiver_vec);
        } else {
            assert(views(email_vec@) =~= self@.list_received(receiver@));
        }
        return email_vec;
    }

    /// The stored mails that `sender` sent, oldest first. Mails that were deleted are
    /// left out.
    pub fn get_mail_send(&self, sender: String) -> (mails: Vec<Email>)
        requires
            self.wf(),
        ensures
            views(mails@) == self@.list_sent(sender@),
    {
        let mut email_vec: Vec<Email> = Vec::new();
        if let Some(sender_vec) = self.index.sent_ids(&sender) {
            email_vec = self.emails.get_all(sender_vec);
        } else {
            assert(views(email_vec@) =~= self@.list_sent(sender@));
        }
        return email_vec;
    }

    /// How many mails are indexed as received by `receiver`: zero for an unknown account.
    pub fn get_mail_receive_num(&self, receiver: String) -> (count: u64)
        requires
            self.wf(),
        ensures
            count == self@.count_received(receiver@),
    {
        self.index.count_received(&receiver)
    }

    /// How many mails are indexed as sent by `sender`: zero for an unknown account.
    pub fn get_mail_send_num(&self, sender: String) -> (count: u64)
        requires
            self.wf(),
        ensures
            count == self@.count_sent(sender@),
    {
        self.index.count_sent(&sender)
    }

    /// How many mails were created and are no longer stored.
    pub fn mail_delete(&self) -> (count: u128)
        requires
            self.wf(),
        ensures
            count == self@.count_deleted(),
    {
        self.emails.deleted()
    }
}

impl Default for Contract {
    fn default() -> (contract: Self)
        ensures
            contract.wf(),
            contract@ == MailState::init(),
    {
        Contract::new()
    }
}

} // verus!
