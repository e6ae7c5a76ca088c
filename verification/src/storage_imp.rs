//! Storage accounting: what each account has been charged for the mail it sent.

use crate::account_map::AccountMap;
use crate::error::ContractError;
use vstd::prelude::*;

verus! {

/// Bytes of contract storage that one stored mail is charged for.
pub const STORAGE_PER_MAIL: u128 = 1000;

/// The price of one byte of contract storage, in yoctoNEAR.
pub open spec fn storage_byte_cost() -> u128 {
    10_000_000_000_000_000_000u128
}

/// `near_sdk::env::storage_byte_cost` reads nothing from the chain: it returns the constant
/// `STORAGE_PRICE_PER_BYTE`, which is 10^19 yoctoNEAR.
pub assume_specification[ near_sdk::env::storage_byte_cost ]() -> (cost: near_sdk::Balance)
    ensures
        cost == storage_byte_cost(),
;

/// What charging `bytes` of storage costs.
pub open spec fn storage_cost(bytes: u128) -> int {
    bytes * storage_byte_cost()
}

/// What an account has used up.
#[derive(Clone, Copy, Debug, PartialEq, Eq, Structural)]
pub struct VAccount {
    /// Storage cost charged so far, in yoctoNEAR. It only ever grows.
    pub used: u128,
}

/// The ledger of provisioned accounts.
///
/// Its view maps the name of each provisioned account to the storage cost charged to it.
pub struct AccountLedger {
    accounts: AccountMap<VAccount>,
}

impl View for AccountLedger {
    type V = Map<Seq<char>, u128>;

    closed spec fn view(&self) -> Map<Seq<char>, u128> {
        self.accounts@.map_values(|account: VAccount| account.used)
    }
}

impl AccountLedger {
    /// The entries are a well-formed map.
    pub closed spec fn wf(&self) -> bool {
        self.accounts.wf()
    }

    /// The charge stays within what the accumulator can hold.
    pub open spec fn can_charge(&self, account: Seq<char>, bytes: u128) -> bool {
        self@.contains_key(account) ==> self@[account] + storage_cost(bytes) <= u128::MAX
    }

    /// A ledger in which no account is provisioned.
    pub fn new() -> (ledger: Self)
        ensures
            ledger.wf(),
            ledger@ == Map::<Seq<char>, u128>::empty(),
    {
        let ledger = AccountLedger { accounts: AccountMap::new() };
        assert(ledger@ =~= Map::<Seq<char>, u128>::empty());
        ledger
    }

    /// Provisions `account` with nothing used, unless it is provisioned already.
    /// Returns whether an entry was made.
    pub fn provision(&mut self, account: String) -> (created: bool)
        requires
            old(self).wf(),
        ensures
            final(self).wf(),
            created == !old(self)@.contains_key(account@),
            created ==> final(self)@ == old(self)@.insert(account@, 0),
            !created ==> final(self)@ == old(self)@,
    {
        if self.accounts.contains_key(&account) {
            false
        } else {
            self.accounts.insert(account, VAccount { used: 0 });
            assert(self@ =~= old(self)@.insert(account@, 0));
            true
        }
    }

    /// What has been charged to `account`, if it is provisioned.
    pub fn get(&self, account: &String) -> (entry: Option<VAccount>)
        requires
            self.wf(),
        ensures
            match entry {
                Some(found) => self@.contains_key(account@) && found.used == self@[account@],
                None => !self@.contains_key(account@),
            },
    {
        match self.accounts.get(account) {
            Some(found) => Some(*found),
            None => None,
        }
    }

    /// Whether charging `bytes` to `account` stays within what the accumulator can hold.
    pub fn charge_fits(&self, account: &String, bytes: u128) -> (fits: bool)
        requires
            self.wf(),
        ensures
            fits == self.can_charge(account@, bytes),
    {
        match self.accounts.get(account) {
            Some(found) => {
                let unit: u128 = near_sdk::env::storage_byte_cost();
                match bytes.checked_mul(unit) {
                    Some(cost) => found.used.checked_add(cost).is_some(),
                    None => false,
                }
            },
            None => true,
        }
    }

    /// Adds the cost of `bytes` of storage to what `account` has used.
    ///
    /// An account that was never provisioned is not created on the way: the charge is
    /// refused and the ledger stays as it was.
    pub fn charge_storage(&mut self, account: &String, bytes: u128) -> (charged: Result<
        (),
        ContractError,
    >)
        requires
            old(self).wf(),
            old(self).can_charge(account@, bytes),
        ensures
            final(self).wf(),
            charged is Ok <==> old(self)@.contains_key(account@),
            charged is Ok ==> final(self)@ == old(self)@.insert(
                account@,
                (old(self)@[account@] + storage_cost(bytes)) as u128,
            ),
            charged is Err ==> charged == Err::<(), ContractError>(
                ContractError::AccountNotProvisioned,
            ) && final(self)@ == old(self)@,
    {
        match self.accounts.get(account) {
            Some(found) => {
                let cost: u128 = bytes * near_sdk::env::storage_byte_cost();
                let charged = VAccount { used: found.used + cost };
                self.accounts.insert(account.clone(), charged);
                assert(self@ =~= old(self)@.insert(account@, charged.used));
                Ok(())
            },
            None => Err(ContractError::AccountNotProvisioned),
        }
    }
}

} // verus!
