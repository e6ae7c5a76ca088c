use near_mail::account_map::AccountMap;
use near_mail::error::ContractError;
use near_mail::index::{contains_id, Index, IndexStore};
use near_mail::message::Email;
use near_mail::records::RecordStore;
use near_mail::storage_imp::{AccountLedger, VAccount};

fn name(text: &str) -> String {
    text.to_string()
}

#[test]
fn account_map_inserts_replaces_and_removes() {
    let mut map: AccountMap<u32> = AccountMap::new();
    assert!(!map.contains_key(&name("alice")));
    assert_eq!(map.get(&name("alice")), None);
    map.insert(name("alice"), 1);
    map.insert(name("bob"), 2);
    map.insert(name("alice"), 3);
    assert_eq!(map.get(&name("alice")), Some(&3));
    assert_eq!(map.get(&name("bob")), Some(&2));
    assert_eq!(map.remove(&name("alice")), Some(3));
    assert_eq!(map.remove(&name("alice")), None);
    assert!(!map.contains_key(&name("alice")));
    assert_eq!(map.get(&name("bob")), Some(&2));
    map.insert(name("carol"), 4);
    assert_eq!(map.remove(&name("bob")), Some(2));
    assert_eq!(map.get(&name("carol")), Some(&4));
}

#[test]
fn index_add_is_a_set_insert() {
    let mut index = Index::new();
    assert_eq!(index.count(&name("alice")), 0);
    assert_eq!(index.ids(&name("alice")), None);
    index.add(&name("alice"), 4);
    index.add(&name("alice"), 4);
    index.add(&name("alice"), 2);
    index.add(&name("bob"), 4);
    assert_eq!(index.count(&name("alice")), 2);
    assert_eq!(index.ids(&name("alice")), Some(&vec![4, 2]));
    assert_eq!(index.ids(&name("bob")), Some(&vec![4]));
    assert!(index.contains(&name("alice"), 2));
    assert!(!index.contains(&name("bob"), 2));
    assert!(!index.contains(&name("carol"), 4));
}

#[test]
fn index_store_keeps_the_directions_apart() {
    let mut store = IndexStore::new();
    store.add_sent(&name("alice"), 0);
    store.add_received(&name("bob"), 0);
    store.add_sent(&name("alice"), 1);
    store.add_received(&name("alice"), 1);
    assert_eq!(store.count_sent(&name("alice")), 2);
    assert_eq!(store.count_received(&name("alice")), 1);
    assert_eq!(store.count_sent(&name("bob")), 0);
    assert_eq!(store.count_received(&name("bob")), 1);
    assert_eq!(store.sent_ids(&name("alice")), Some(&vec![0, 1]));
    assert_eq!(store.received_ids(&name("alice")), Some(&vec![1]));
    assert_eq!(store.sent_ids(&name("bob")), None);
    assert!(store.is_sender(&name("alice"), 1));
    assert!(!store.is_sender(&name("bob"), 0));
}

#[test]
fn contains_id_searches_the_whole_vector() {
    assert!(!contains_id(&vec![], 0));
    assert!(contains_id(&vec![3, 1, 2], 2));
    assert!(contains_id(&vec![3, 1, 2], 3));
    assert!(!contains_id(&vec![3, 1, 2], 0));
}

#[test]
fn record_store_numbers_its_mails() {
    let mut store = RecordStore::new();
    assert_eq!(store.created(), 0);
    assert_eq!(store.create(name("a"), name("x"), 1, None), 0);
    assert_eq!(store.create(name("b"), name("y"), 2, Some(6)), 1);
    assert_eq!(store.created(), 2);
    assert_eq!(store.stored(), 2);
    assert_eq!(store.deleted(), 0);
    assert!(store.contains(1));
    assert!(!store.contains(2));
    assert_eq!(
        store.get(1),
        Ok(Email { title_email: name("b"), content: name("y"), timestamp: 2, amount: Some(6) })
    );
    assert_eq!(store.get(2), Err(ContractError::NotFound));
    assert!(store.remove(0));
    assert!(!store.remove(0));
    assert!(!store.remove(5));
    assert_eq!(store.created(), 2);
    assert_eq!(store.stored(), 1);
    assert_eq!(store.deleted(), 1);
    assert_eq!(store.create(name("c"), name("z"), 3, None), 2);
    let titles: Vec<String> =
        store.get_all(&vec![2, 0, 1, 9, 2]).into_iter().map(|mail| mail.title_email).collect();
    assert_eq!(titles, vec![name("c"), name("b"), name("c")]);
}

#[test]
fn ledger_charges_only_provisioned_accounts() {
    let mut ledger = AccountLedger::new();
    assert!(ledger.charge_fits(&name("alice"), 3));
    assert_eq!(ledger.charge_storage(&name("alice"), 3), Err(ContractError::AccountNotProvisioned));
    assert_eq!(ledger.get(&name("alice")), None);
    assert!(ledger.provision(name("alice")));
    assert!(!ledger.provision(name("alice")));
    assert!(ledger.charge_fits(&name("alice"), 3));
    assert_eq!(ledger.charge_storage(&name("alice"), 3), Ok(()));
    assert_eq!(ledger.get(&name("alice")), Some(VAccount { used: 30_000_000_000_000_000_000 }));
    assert!(ledger.charge_fits(&name("alice"), 0));
    assert_eq!(ledger.charge_storage(&name("alice"), 0), Ok(()));
    assert_eq!(ledger.get(&name("alice")), Some(VAccount { used: 30_000_000_000_000_000_000 }));
}

#[test]
fn ledger_sees_a_charge_that_does_not_fit() {
    let mut ledger = AccountLedger::new();
    ledger.provision(name("alice"));
    // u128::MAX / 10^19 is 34028236692093846346: one byte more no longer fits.
    assert!(ledger.charge_fits(&name("alice"), 34_028_236_692_093_846_346));
    assert!(!ledger.charge_fits(&name("alice"), 34_028_236_692_093_846_347));
    assert!(!ledger.charge_fits(&name("alice"), u128::MAX));
    assert_eq!(ledger.charge_storage(&name("alice"), 34_028_236_692_093_846_346), Ok(()));
    assert!(ledger.charge_fits(&name("alice"), 0));
    assert!(!ledger.charge_fits(&name("alice"), 1));
    assert!(ledger.charge_fits(&name("bob"), u128::MAX));
}
