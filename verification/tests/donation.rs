use near_mail::donation::{
    resolve, Contract, Issued, PromiseResult, RemoteCall, StorateKeys, CALL_DEPOSIT, XCC_GAS,
};
use near_mail::error::ContractError;
use near_mail::mail::{SendReceipt, Transfer};
use near_mail::message::Email;

fn name(text: &str) -> String {
    text.to_string()
}

fn mailbox(accounts: &[&str]) -> near_mail::mail::Contract {
    let mut contract = near_mail::mail::Contract::new();
    for account in accounts {
        contract.provision_account(name(account));
    }
    contract
}

fn donate(
    contract: &mut Contract,
    mail: &mut near_mail::mail::Contract,
    sender: &str,
    fee: u128,
) -> Result<Issued, ContractError> {
    assert!(mail.has_room(&name(sender)));
    contract.send_donation(mail, name(sender), name("bob"), name("gift"), name("enjoy"), fee, 11)
}

#[test]
fn new_ledger_is_empty() {
    let contract = Contract::new();
    assert_eq!(contract.get_donation(&name("alice")), None);
    assert_eq!(XCC_GAS, 10_000_000_000_000);
    assert_eq!(CALL_DEPOSIT, 1);
    assert_eq!(StorateKeys::DonateKey.into_storage_key(), vec![0]);
}

#[test]
fn issuing_writes_the_mail_and_describes_the_call() {
    let mut mail = mailbox(&["alice"]);
    let mut contract = Contract::new();
    let issued = donate(&mut contract, &mut mail, "alice", 500);
    assert_eq!(
        issued,
        Ok(Issued {
            receipt: SendReceipt {
                email_id: 0,
                transfer: Some(Transfer { receiver: name("tutmt.testnet"), amount: 500 }),
            },
            call: RemoteCall {
                contract: name("dev-1662200438205-38513402844676"),
                receiver: name("bob"),
                title: name("gift"),
                content: name("enjoy"),
                amount: Some(500),
                attached_deposit: 1,
                gas: 10_000_000_000_000,
                sender_id: name("alice"),
                fee: 500,
            },
        })
    );
    assert_eq!(
        mail.get_email(0),
        Ok(Email {
            title_email: name("gift"),
            content: name("enjoy"),
            timestamp: 11,
            amount: Some(500),
        })
    );
    assert_eq!(contract.get_donation(&name("alice")), None);
}

#[test]
fn failed_call_keeps_the_mail_and_books_nothing() {
    let mut mail = mailbox(&["alice"]);
    let mut contract = Contract::new();
    let issued = donate(&mut contract, &mut mail, "alice", 500).unwrap();
    let resolved = contract.callback_after_send(
        issued.call.sender_id,
        issued.call.fee,
        vec![PromiseResult::Failed],
    );
    assert_eq!(resolved, Err(ContractError::ExternalCallFailed));
    assert_eq!(contract.get_donation(&name("alice")), None);
    assert_eq!(mail.get_email(0).unwrap().amount, Some(500));
    assert_eq!(mail.get_mail_send_num(name("alice")), 1);
    assert_eq!(mail.get_mail_receive_num(name("bob")), 1);
    assert_eq!(mail.get_mail_send(name("alice")).len(), 1);
    assert_eq!(mail.mail_exist(), 1);
}

#[test]
fn confirmed_call_books_the_donation() {
    let mut mail = mailbox(&["alice", "carol"]);
    let mut contract = Contract::new();
    let issued = donate(&mut contract, &mut mail, "alice", 500).unwrap();
    let resolved = contract.callback_after_send(
        issued.call.sender_id,
        issued.call.fee,
        vec![PromiseResult::Successful(Vec::new())],
    );
    assert_eq!(resolved, Ok(()));
    assert_eq!(contract.get_donation(&name("alice")), Some(500));
    assert_eq!(contract.get_donation(&name("carol")), None);
    assert_eq!(contract.get_donation(&name("bob")), None);
    assert_eq!(mail.get_email(0).unwrap().amount, Some(500));
}

#[test]
fn later_donation_replaces_the_earlier_one() {
    let mut mail = mailbox(&["alice", "carol"]);
    let mut contract = Contract::new();
    for (sender, fee) in [("alice", 5u128), ("carol", 7), ("alice", 9)] {
        let issued = donate(&mut contract, &mut mail, sender, fee).unwrap();
        let resolved = contract.callback_after_send(
            issued.call.sender_id,
            issued.call.fee,
            vec![PromiseResult::Successful(vec![1, 2, 3])],
        );
        assert_eq!(resolved, Ok(()));
    }
    assert_eq!(contract.get_donation(&name("alice")), Some(9));
    assert_eq!(contract.get_donation(&name("carol")), Some(7));
    assert_eq!(mail.mail_exist(), 3);
}

#[test]
fn failed_call_keeps_an_earlier_donation() {
    let mut mail = mailbox(&["alice"]);
    let mut contract = Contract::new();
    let first = donate(&mut contract, &mut mail, "alice", 5).unwrap();
    contract
        .callback_after_send(first.call.sender_id, first.call.fee, vec![PromiseResult::Successful(vec![])])
        .unwrap();
    let second = donate(&mut contract, &mut mail, "alice", 8).unwrap();
    assert_eq!(second.receipt.email_id, 1);
    let resolved =
        contract.callback_after_send(second.call.sender_id, second.call.fee, vec![PromiseResult::Failed]);
    assert_eq!(resolved, Err(ContractError::ExternalCallFailed));
    assert_eq!(contract.get_donation(&name("alice")), Some(5));
    assert_eq!(mail.mail_exist(), 2);
}

#[test]
fn anything_but_one_settled_result_is_a_violation() {
    let mut contract = Contract::new();
    let cases: Vec<Vec<PromiseResult>> = vec![
        vec![],
        vec![PromiseResult::NotReady],
        vec![PromiseResult::Successful(vec![]), PromiseResult::Successful(vec![])],
        vec![PromiseResult::Successful(vec![]), PromiseResult::Failed],
        vec![PromiseResult::Failed, PromiseResult::Failed],
    ];
    for results in cases {
        assert_eq!(
            contract.callback_after_send(name("alice"), 3, results),
            Err(ContractError::ProtocolViolation)
        );
        assert_eq!(contract.get_donation(&name("alice")), None);
    }
}

#[test]
fn resolve_reads_the_results() {
    assert_eq!(resolve(&vec![PromiseResult::Successful(vec![9])]), Ok(()));
    assert_eq!(resolve(&vec![PromiseResult::Failed]), Err(ContractError::ExternalCallFailed));
    assert_eq!(resolve(&vec![PromiseResult::NotReady]), Err(ContractError::ProtocolViolation));
    assert_eq!(resolve(&vec![]), Err(ContractError::ProtocolViolation));
}

#[test]
fn unprovisioned_donor_is_turned_down() {
    let mut mail = mailbox(&["alice"]);
    let mut contract = Contract::new();
    let issued = donate(&mut contract, &mut mail, "mallory", 500);
    assert_eq!(issued, Err(ContractError::AccountNotProvisioned));
    assert_eq!(mail.mail_exist(), 0);
    assert_eq!(mail.get_mail_receive_num(name("bob")), 0);
    assert_eq!(contract.get_donation(&name("mallory")), None);
}
