//! The donation contract: it sends a mail with the donated amount attached, has the mail
//! service notified, and books the donation once the service has confirmed.
//!
//! A donation goes through three steps. [`Contract::send_donation`] writes the mail to the
//! local stores and hands back the call to make: the call is issued. Whoever drives the
//! contract makes the call and the donation is pending until the call has settled. Then
//! [`Contract::callback_after_send`] is given what came back and either commits the
//! donation to the ledger or aborts. What `send_donation` wrote stays either way.

use crate::account_map::AccountMap;
use crate::error::ContractError;
use crate::mail::{transfer_due, SendReceipt};
use crate::mail_state::MailState;
use crate::message::EmailView;
use vstd::prelude::*;

verus! {

/// The partitions of the contract's persistent state.
#[derive(Clone, Copy, Debug, PartialEq, Eq)]
pub enum StorateKeys {
    /// The donation ledger.
    DonateKey,
}

impl StorateKeys {
    /// The bytes under which the partition is kept.
    pub open spec fn storage_key(self) -> Seq<u8> {
        seq![0u8]
    }

    /// The bytes under which the partition is kept.
    pub fn into_storage_key(&self) -> (key: Vec<u8>)
        ensures
            key@ == self.storage_key(),
    {
        let mut key: Vec<u8> = Vec::new();
        key.push(0);
        assert(key@ =~= self.storage_key());
        key
    }
}

/// Gas that goes with the call to the mail service.
pub const XCC_GAS: u64 = 10_000_000_000_000;

/// What is attached to the call to the mail service, in yoctoNEAR.
pub const CALL_DEPOSIT: u128 = 1;

/// The account of the mail service.
pub open spec fn message_contract_account() -> Seq<char> {
    "dev-1662200438205-38513402844676"@
}

/// How a call to another contract ended, as the callback finds it.
#[derive(Debug, PartialEq, Eq)]
pub enum PromiseResult {
    /// The call has not settled.
    NotReady,
    /// The call went through and returned these bytes.
    Successful(Vec<u8>),
    /// The call failed.
    Failed,
}

/// A call to the mail service, with what the callback is to be given afterwards.
#[derive(Debug, PartialEq, Eq)]
pub struct RemoteCall {
    /// The account of the mail service.
    pub contract: String,
    pub receiver: String,
    pub title: String,
    pub content: String,
    /// The donated amount, in yoctoNEAR.
    pub amount: Option<u128>,
    /// What to attach to the call, in yoctoNEAR.
    pub attached_deposit: u128,
    /// Gas to give the call.
    pub gas: u64,
    /// The donor, for the callback.
    pub sender_id: String,
    /// The donated amount, for the callback.
    pub fee: u128,
}

/// A call to the mail service as a mathematical value.
pub struct RemoteCallView {
    pub contract: Seq<char>,
    pub receiver: Seq<char>,
    pub title: Seq<char>,
    pub content: Seq<char>,
    pub amount: Option<u128>,
    pub attached_deposit: u128,
    pub gas: u64,
    pub sender_id: Seq<char>,
    pub fee: u128,
}

impl View for RemoteCall {
    type V = RemoteCallView;

    open spec fn view(&self) -> RemoteCallView {
        RemoteCallView {
            contract: self.contract@,
            receiver: self.receiver@,
            title: self.title@,
            content: self.content@,
            amount: self.amount,
            attached_deposit: self.attached_deposit,
            gas: self.gas,
            sender_id: self.sender_id@,
            fee: self.fee,
        }
    }
}

/// The call that notifies the mail service of a donation of `fee` by `sender`.
pub open spec fn notification(
    sender: Seq<char>,
    receiver: Seq<char>,
    title: Seq<char>,
    content: Seq<char>,
    fee: u128,
) -> RemoteCallView {
    RemoteCallView {
        contract: message_contract_account(),
        receiver,
        title,
        content,
        amount: Some(fee),
        attached_deposit: CALL_DEPOSIT,
        gas: XCC_GAS,
        sender_id: sender,
        fee,
    }
}

/// What an issued donation hands back.
#[derive(Debug, PartialEq, Eq)]
pub struct Issued {
    /// The identifier of the mail that was written, and the payment of the donated amount.
    pub receipt: SendReceipt,
    /// The call to make.
    pub call: RemoteCall,
}

/// What the results that a callback finds mean for its donation.
///
/// The donation is confirmed by exactly one result that says the call went through. A
/// call that failed was turned down by the service. Anything else must not happen: no
/// result, more than one, or one that has not settled.
pub open spec fn resolution(results: Seq<PromiseResult>) -> Result<(), ContractError> {
    if results.len() != 1 {
        Err(ContractError::ProtocolViolation)
    } else {
        match results[0] {
            PromiseResult::NotReady => Err(ContractError::ProtocolViolation),
            PromiseResult::Successful(_) => Ok(()),
            PromiseResult::Failed => Err(ContractError::ExternalCallFailed),
        }
    }
}

/// The ledger after the callback for a donation of `fee` by `sender` has found `results`:
/// with the donation booked where it is confirmed, as it was where it is not.
pub open spec fn settled(
    ledger: Map<Seq<char>, u128>,
    sender: Seq<char>,
    fee: u128,
    results: Seq<PromiseResult>,
) -> Map<Seq<char>, u128> {
    if resolution(results) is Ok {
        ledger.insert(sender, fee)
    } else {
        ledger
    }
}

/// Decides what the results that a callback finds mean for its donation.
pub fn resolve(results: &Vec<PromiseResult>) -> (resolved: Result<(), ContractError>)
    ensures
        resolved == resolution(results@),
{
    if results.len() != 1 {
        return Err(ContractError::ProtocolViolation);
    }
    match &results[0] {
        PromiseResult::NotReady => Err(ContractError::ProtocolViolation),
        PromiseResult::Successful(_) => Ok(()),
        PromiseResult::Failed => Err(ContractError::ExternalCallFailed),
    }
}

/// The donation contract.
///
/// Its view is the donation ledger: for each account the amount of its last confirmed
/// donation.
pub struct Contract {
    donation: AccountMap<u128>,
    message_contract_account: String,
}

impl View for Contract {
    type V = Map<Seq<char>, u128>;

    closed spec fn view(&self) -> Map<Seq<char>, u128> {
        self.donation@
    }
}

impl Contract {
    /// The ledger is a well-formed map and the mail service is the fixed one.
    pub closed spec fn wf(&self) -> bool {
        &&& self.donation.wf()
        &&& self.message_contract_account@ == message_contract_account()
    }

    /// A contract with an empty ledger.
    pub fn new() -> (contract: Self)
        ensures
            contract.wf(),
            contract@ == Map::<Seq<char>, u128>::empty(),
    {
        Self {
            donation: AccountMap::new(),
            message_contract_account: "dev-1662200438205-38513402844676".to_string(),
        }
    }

    /// The last confirmed donation of `account`.
    pub fn get_donation(&self, account: &String) -> (amount: Option<u128>)
        requires
            self.wf(),
        ensures
            match amount {
                Some(fee) => self@.contains_key(account@) && self@[account@] == fee,
                None => !self@.contains_key(account@),
            },
    {
        match self.donation.get(account) {
            Some(fee) => Some(*fee),
            None => None,
        }
    }

    /// Issues a donation of `fee` by `sender`.
    ///
    /// The mail is written to `mailbox` with `fee` attached, as
    /// [`crate::mail::Contract::send_email`] does it, and the call that notifies the mail
    /// service is handed back. The ledger is not touched: the donation counts only when
    /// the callback finds it confirmed. A sender without a ledger entry in `mailbox` is
    /// turned down, and then nothing is written and no call is to be made.
    pub fn send_donation(
        &mut self,
        mailbox: &mut crate::mail::Contract,
        sender: String,
        receiver: String,
        title: String,
        content: String,
        fee: u128,
        timestamp: u64,
    ) -> (issued: Result<Issued, ContractError>)
        requires
            old(self).wf(),
            old(mailbox).wf(),
            old(mailbox)@.has_room(sender@),
        ensures
            final(self).wf(),
            final(mailbox).wf(),
            final(self)@ == old(self)@,
            final(mailbox)@ == old(mailbox)@.send(
                sender@,
                receiver@,
                EmailView { title: title@, content: content@, timestamp, amount: Some(fee) },
            ),
            issued is Ok <==> old(mailbox)@.provisioned(sender@),
            match issued {
                Ok(issue) => {
                    &&& issue.receipt.email_id == old(mailbox)@.email_count
                    &&& issue.receipt.transfer_view() == transfer_due(Some(fee))
                    &&& issue.call@ == notification(sender@, receiver@, title@, content@, fee)
                },
                Err(error) => error == ContractError::AccountNotProvisioned,
            },
    {
        let amount = Some(fee);
        let call = RemoteCall {
            contract: self.message_contract_account.clone(),
            receiver: receiver.clone(),
            title: title.clone(),
            content: content.clone(),
            amount,
            attached_deposit: CALL_DEPOSIT,
            gas: XCC_GAS,
            sender_id: sender.clone(),
            fee,
        };
        match mailbox.send_email(sender, receiver, title, content, amount, timestamp) {
            Ok(receipt) => Ok(Issued { receipt, call }),
            Err(error) => Err(error),
        }
    }

    /// Settles a donation of `fee` by `sender_id`, given the results that the callback
    /// finds.
    ///
    /// Where exactly one result says that the call went through, the donation is booked
    /// under `sender_id`, in place of what was booked there before. In every other case
    /// the ledger stays as it is and the error says why: `ExternalCallFailed` where the
    /// one result is a failure, `ProtocolViolation` for anything else.
    pub fn callback_after_send(
        &mut self,
        sender_id: String,
        fee: u128,
        results: Vec<PromiseResult>,
    ) -> (resolved: Result<(), ContractError>)
        requires
            old(self).wf(),
        ensures
            final(self).wf(),
            resolved == resolution(results@),
            final(self)@ == settled(old(self)@, sender_id@, fee, results@),
    {
        match resolve(&results) {
            Ok(()) => {
                self.donation.insert(sender_id, fee);
                Ok(())
            },
            Err(error) => Err(error),
        }
    }
}

/// A donation whose notification fails leaves the mail and its index entries where
/// `send_donation` put them and leaves the ledger as it was, so that a donor without an
/// entry still has none. A donation whose notification goes through changes the ledger
/// in one place: the donor's entry, which then holds the donated amount.
pub proof fn law_donation_settles(
    mailbox: MailState,
    ledger: Map<Seq<char>, u128>,
    sender: Seq<char>,
    receiver: Seq<char>,
    mail: EmailView,
    fee: u128,
    results: Seq<PromiseResult>,
)
    requires
        mailbox.inv(),
        mailbox.has_room(sender),
        mailbox.provisioned(sender),
        mail.amount == Some(fee),
    ensures
        ({
            let written = mailbox.send(sender, receiver, mail);
            let id = mailbox.email_count;
            let after = settled(ledger, sender, fee, results);
            &&& written.get(id) == Ok::<EmailView, ContractError>(mail)
            &&& written.is_sender(sender, id)
            &&& written.is_receiver(receiver, id)
            &&& resolution(results) is Err ==> {
                &&& after == ledger
                &&& !ledger.contains_key(sender) ==> !after.contains_key(sender)
            }
            &&& resolution(results) is Ok ==> {
                &&& after.contains_key(sender)
                &&& after[sender] == fee
                &&& after.remove(sender) == ledger.remove(sender)
            }
            &&& resolution(results) is Ok <==> results.len() == 1 && results[0] is Successful
        }),
{
    mailbox.law_sent_mail_is_stored_and_indexed(sender, receiver, mail);
    let id = mailbox.email_count;
    let written = mailbox.send(sender, receiver, mail);
    vstd::seq_lib::to_multiset_contains(crate::index::ids_of(written.senders, sender), id);
    vstd::seq_lib::to_multiset_contains(crate::index::ids_of(written.receivers, receiver), id);
    assert(ledger.insert(sender, fee).remove(sender) =~= ledger.remove(sender));
}

} // verus!
