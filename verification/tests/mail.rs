use near_mail::error::ContractError;
use near_mail::mail::{Contract, SendReceipt, StorateKeys, Transfer};
use near_mail::message::Email;
use near_mail::storage_imp::{VAccount, STORAGE_PER_MAIL};

const MAIL_COST: u128 = 10_000_000_000_000_000_000_000;

fn name(text: &str) -> String {
    text.to_string()
}

fn provisioned(accounts: &[&str]) -> Contract {
    let mut contract = Contract::new();
    for account in accounts {
        assert!(contract.provision_account(name(account)));
    }
    contract
}

fn send(contract: &mut Contract, sender: &str, receiver: &str, title: &str) -> u128 {
    assert!(contract.has_room(&name(sender)));
    let receipt = contract
        .send_email(name(sender), name(receiver), name(title), name("content"), None, 5)
        .unwrap();
    receipt.email_id
}

#[test]
fn new_contract_is_empty() {
    let contract = Contract::new();
    assert_eq!(contract.mail_exist(), 0);
    assert_eq!(contract.mail_delete(), 0);
    assert_eq!(contract.get_mail_send_num(name("alice")), 0);
    assert_eq!(contract.get_mail_receive_num(name("alice")), 0);
    assert_eq!(contract.get_mail_send(name("alice")), Vec::<Email>::new());
    assert_eq!(contract.get_mail_receive(name("alice")), Vec::<Email>::new());
    assert_eq!(contract.get_email(0), Err(ContractError::NotFound));
    assert_eq!(contract.get_account(&name("alice")), None);
}

#[test]
fn alice_sends_to_bob_and_deletes() {
    let mut contract = provisioned(&["alice"]);
    assert!(contract.has_room(&name("alice")));
    let sent = contract.send_email(name("alice"), name("bob"), name("hi"), name("content"), None, 42);
    assert_eq!(sent, Ok(SendReceipt { email_id: 0, transfer: None }));
    assert_eq!(
        contract.get_email(0),
        Ok(Email { title_email: name("hi"), content: name("content"), timestamp: 42, amount: None })
    );
    assert_eq!(contract.get_mail_send_num(name("alice")), 1);
    assert_eq!(contract.get_mail_receive_num(name("bob")), 1);
    assert_eq!(contract.delete_mail(name("alice"), 0), Ok(()));
    assert_eq!(contract.get_email(0), Err(ContractError::NotFound));
    assert_eq!(contract.mail_delete(), 1);
}

#[test]
fn sent_mail_reads_back_and_is_indexed_once() {
    let mut contract = provisioned(&["alice", "carol"]);
    send(&mut contract, "carol", "alice", "earlier");
    let sent = contract
        .send_email(name("alice"), name("bob"), name("title"), name("body"), None, 9)
        .unwrap();
    assert_eq!(sent.email_id, 1);
    let mail = Email { title_email: name("title"), content: name("body"), timestamp: 9, amount: None };
    assert_eq!(contract.get_email(1), Ok(mail.clone()));
    assert_eq!(contract.get_mail_send(name("alice")), vec![mail.clone()]);
    assert_eq!(contract.get_mail_receive(name("bob")), vec![mail]);
    assert_eq!(contract.get_mail_send_num(name("alice")), 1);
    assert_eq!(contract.get_mail_receive_num(name("bob")), 1);
    assert_eq!(contract.get_mail_send_num(name("bob")), 0);
    assert_eq!(contract.get_mail_receive_num(name("alice")), 1);
}

#[test]
fn mail_to_oneself_is_in_both_lists() {
    let mut contract = provisioned(&["alice"]);
    let id = send(&mut contract, "alice", "alice", "note");
    assert_eq!(id, 0);
    assert_eq!(contract.get_mail_send_num(name("alice")), 1);
    assert_eq!(contract.get_mail_receive_num(name("alice")), 1);
    assert_eq!(contract.get_mail_send(name("alice")), contract.get_mail_receive(name("alice")));
}

#[test]
fn identifiers_count_up_and_are_not_reused() {
    let mut contract = provisioned(&["alice"]);
    assert_eq!(send(&mut contract, "alice", "bob", "a"), 0);
    assert_eq!(send(&mut contract, "alice", "bob", "b"), 1);
    assert_eq!(contract.delete_mail(name("alice"), 1), Ok(()));
    assert_eq!(send(&mut contract, "alice", "bob", "c"), 2);
    assert_eq!(contract.get_email(1), Err(ContractError::NotFound));
    assert_eq!(contract.get_email(2).unwrap().title_email, name("c"));
}

#[test]
fn unprovisioned_sender_is_turned_down() {
    let mut contract = provisioned(&["alice"]);
    assert!(contract.has_room(&name("mallory")));
    let sent = contract.send_email(name("mallory"), name("bob"), name("hi"), name("content"), None, 1);
    assert_eq!(sent, Err(ContractError::AccountNotProvisioned));
    assert_eq!(contract.mail_exist(), 0);
    assert_eq!(contract.mail_delete(), 0);
    assert_eq!(contract.get_mail_send_num(name("mallory")), 0);
    assert_eq!(contract.get_mail_receive_num(name("bob")), 0);
    assert_eq!(contract.get_account(&name("mallory")), None);
    assert_eq!(send(&mut contract, "alice", "bob", "next"), 0);
}

#[test]
fn provisioning_twice_keeps_the_entry() {
    let mut contract = Contract::new();
    assert!(contract.provision_account(name("alice")));
    assert_eq!(contract.get_account(&name("alice")), Some(VAccount { used: 0 }));
    send(&mut contract, "alice", "bob", "hi");
    assert!(!contract.provision_account(name("alice")));
    assert_eq!(contract.get_account(&name("alice")), Some(VAccount { used: MAIL_COST }));
}

#[test]
fn each_mail_is_charged_to_its_sender() {
    assert_eq!(STORAGE_PER_MAIL, 1000);
    let mut contract = provisioned(&["alice", "bob"]);
    send(&mut contract, "alice", "bob", "one");
    assert_eq!(contract.get_account(&name("alice")), Some(VAccount { used: MAIL_COST }));
    assert_eq!(contract.get_account(&name("bob")), Some(VAccount { used: 0 }));
    send(&mut contract, "alice", "bob", "two");
    send(&mut contract, "bob", "alice", "three");
    assert_eq!(contract.get_account(&name("alice")), Some(VAccount { used: 2 * MAIL_COST }));
    assert_eq!(contract.get_account(&name("bob")), Some(VAccount { used: MAIL_COST }));
    contract.delete_mail(name("alice"), 0).unwrap();
    assert_eq!(contract.get_account(&name("alice")), Some(VAccount { used: 2 * MAIL_COST }));
}

#[test]
fn attached_amount_is_stored_and_passed_on() {
    let mut contract = provisioned(&["alice"]);
    let sent = contract.send_email(name("alice"), name("bob"), name("gift"), name("for you"), Some(250), 3);
    assert_eq!(
        sent,
        Ok(SendReceipt {
            email_id: 0,
            transfer: Some(Transfer { receiver: name("tutmt.testnet"), amount: 250 }),
        })
    );
    assert_eq!(contract.get_email(0).unwrap().amount, Some(250));
}

#[test]
fn only_the_sender_may_delete() {
    let mut contract = provisioned(&["alice", "bob"]);
    let id = send(&mut contract, "alice", "bob", "hi");
    assert_eq!(contract.delete_mail(name("bob"), id), Err(ContractError::PermissionDenied));
    assert_eq!(contract.delete_mail(name("carol"), id), Err(ContractError::PermissionDenied));
    assert_eq!(contract.get_email(id).unwrap().title_email, name("hi"));
    assert_eq!(contract.mail_exist(), 1);
    assert_eq!(contract.mail_delete(), 0);
    assert_eq!(contract.delete_mail(name("alice"), id), Ok(()));
    assert_eq!(contract.get_email(id), Err(ContractError::NotFound));
}

#[test]
fn nobody_may_delete_what_was_never_sent() {
    let mut contract = provisioned(&["alice"]);
    send(&mut contract, "alice", "bob", "hi");
    assert_eq!(contract.delete_mail(name("alice"), 7), Err(ContractError::PermissionDenied));
    assert_eq!(contract.mail_exist(), 1);
}

#[test]
fn deleting_again_changes_nothing() {
    let mut contract = provisioned(&["alice"]);
    let id = send(&mut contract, "alice", "bob", "hi");
    send(&mut contract, "alice", "bob", "again");
    assert_eq!(contract.delete_mail(name("alice"), id), Ok(()));
    assert_eq!(contract.mail_delete(), 1);
    assert_eq!(contract.delete_mail(name("alice"), id), Ok(()));
    assert_eq!(contract.mail_delete(), 1);
    assert_eq!(contract.mail_exist(), 1);
}

#[test]
fn deleted_count_follows_the_deletes() {
    let mut contract = provisioned(&["alice", "bob"]);
    let first = send(&mut contract, "alice", "bob", "1");
    assert_eq!(contract.mail_delete(), 0);
    let second = send(&mut contract, "bob", "alice", "2");
    assert_eq!(contract.delete_mail(name("alice"), first), Ok(()));
    assert_eq!(contract.mail_delete(), 1);
    let third = send(&mut contract, "alice", "alice", "3");
    let fourth = send(&mut contract, "bob", "bob", "4");
    assert_eq!(contract.delete_mail(name("alice"), second), Err(ContractError::PermissionDenied));
    assert_eq!(contract.mail_delete(), 1);
    assert_eq!(contract.delete_mail(name("bob"), fourth), Ok(()));
    assert_eq!(contract.delete_mail(name("alice"), third), Ok(()));
    assert_eq!(contract.mail_delete(), 3);
    assert_eq!(contract.mail_exist(), 1);
    assert_eq!(contract.get_email(second).unwrap().title_email, name("2"));
}

#[test]
fn count_is_list_length_while_nothing_is_deleted() {
    let mut contract = provisioned(&["alice", "bob"]);
    send(&mut contract, "alice", "bob", "1");
    send(&mut contract, "alice", "carol", "2");
    send(&mut contract, "bob", "alice", "3");
    send(&mut contract, "alice", "bob", "4");
    for account in ["alice", "bob", "carol", "dave"] {
        assert_eq!(
            contract.get_mail_send_num(name(account)),
            contract.get_mail_send(name(account)).len() as u64
        );
        assert_eq!(
            contract.get_mail_receive_num(name(account)),
            contract.get_mail_receive(name(account)).len() as u64
        );
    }
    assert_eq!(contract.get_mail_send_num(name("alice")), 3);
    assert_eq!(contract.get_mail_receive_num(name("bob")), 2);
}

#[test]
fn lists_skip_deleted_mail_and_counts_do_not() {
    let mut contract = provisioned(&["alice"]);
    send(&mut contract, "alice", "bob", "first");
    send(&mut contract, "alice", "bob", "second");
    send(&mut contract, "alice", "bob", "third");
    contract.delete_mail(name("alice"), 1).unwrap();
    let titles: Vec<String> =
        contract.get_mail_send(name("alice")).into_iter().map(|mail| mail.title_email).collect();
    assert_eq!(titles, vec![name("first"), name("third")]);
    let received: Vec<String> =
        contract.get_mail_receive(name("bob")).into_iter().map(|mail| mail.title_email).collect();
    assert_eq!(received, vec![name("first"), name("third")]);
    assert_eq!(contract.get_mail_send_num(name("alice")), 3);
    assert_eq!(contract.get_mail_receive_num(name("bob")), 3);
}

#[test]
fn timestamp_is_kept_as_given() {
    let mut contract = provisioned(&["alice"]);
    contract
        .send_email(name("alice"), name("bob"), name("t"), name("c"), None, u64::MAX)
        .unwrap();
    assert_eq!(contract.get_email(0).unwrap().timestamp, u64::MAX);
}

#[test]
fn storage_keys_tell_the_partitions_apart() {
    assert_ne!(StorateKeys::SenderKey, StorateKeys::ReceiverKey);
    assert_ne!(StorateKeys::Email, StorateKeys::Account);
    assert_ne!(StorateKeys::SenderMail { emailId: 1 }, StorateKeys::SenderMail { emailId: 2 });
    assert_ne!(StorateKeys::SenderMail { emailId: 1 }, StorateKeys::ReceiverMail { emailId: 1 });
}

#[test]
fn error_messages() {
    assert_eq!(ContractError::PermissionDenied.message(), "Caller is not sender");
    assert_eq!(ContractError::ExternalCallFailed.message(), "ERR_CALL_FAILED");
    assert_eq!(ContractError::ProtocolViolation.message(), "ERR_TOO_MANY_RESULTS");
    assert_eq!(ContractError::NotFound.message(), "ERR_NOT_FOUND");
    assert_eq!(ContractError::AccountNotProvisioned.message(), "ERR_ACCOUNT_NOT_FOUND");
}

#[test]
fn storage_keys_are_a_tag_and_the_identifier() {
    assert_eq!(StorateKeys::SenderKey.into_storage_key(), vec![0]);
    assert_eq!(StorateKeys::ReceiverKey.into_storage_key(), vec![1]);
    assert_eq!(StorateKeys::Email.into_storage_key(), vec![2]);
    assert_eq!(StorateKeys::Account.into_storage_key(), vec![3]);
    let mut sender = vec![4, 2, 1];
    sender.extend(vec![0u8; 14]);
    assert_eq!(StorateKeys::SenderMail { emailId: 0x0102 }.into_storage_key(), sender);
    let mut receiver = vec![5];
    receiver.extend(vec![0xffu8; 16]);
    assert_eq!(StorateKeys::ReceiverMail { emailId: u128::MAX }.into_storage_key(), receiver);
}
