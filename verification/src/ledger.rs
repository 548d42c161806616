//! The ledger store: the balance of every account, and the administrator's
//! secret.

use crate::fault::LedgerError;
use vstd::hash_map::StringHashMap;
use vstd::prelude::*;

verus! {

/// What a ledger holds, as mathematics: the balance of each account under
/// its identifier, and the administrator's secret.
#[verifier::ext_equal]
pub struct LedgerView {
    pub accounts: Map<Seq<char>, i64>,
    pub admin_secret: Seq<char>,
}

impl LedgerView {
    /// A ledger without accounts.
    pub open spec fn empty(admin_secret: Seq<char>) -> LedgerView {
        LedgerView { accounts: Map::empty(), admin_secret }
    }

    /// The same ledger with `balance` under `id`.
    pub open spec fn with_balance(self, id: Seq<char>, balance: i64) -> LedgerView {
        LedgerView { accounts: self.accounts.insert(id, balance), ..self }
    }

    /// The same ledger without `id`.
    pub open spec fn without(self, id: Seq<char>) -> LedgerView {
        LedgerView { accounts: self.accounts.remove(id), ..self }
    }

    /// `key` passes where it is the secret, character for character.
    pub open spec fn verify_admin(self, key: Seq<char>) -> Result<(), LedgerError> {
        if key == self.admin_secret {
            Ok(())
        } else {
            Err(LedgerError::Unauthorized)
        }
    }

    /// A new account starts at zero; one that is there already stays as it is.
    pub open spec fn create_account(self, id: Seq<char>) -> (LedgerView, Result<(), LedgerError>) {
        if self.accounts.contains_key(id) {
            (self, Err(LedgerError::AccountExists))
        } else {
            (self.with_balance(id, 0), Ok(()))
        }
    }

    /// The balance of an account that is there.
    pub open spec fn read_balance(self, id: Seq<char>) -> Result<i64, LedgerError> {
        if self.accounts.contains_key(id) {
            Ok(self.accounts[id])
        } else {
            Err(LedgerError::AccountNotFound)
        }
    }

    /// An account that is there leaves, and its last balance is handed out.
    pub open spec fn remove_account(self, id: Seq<char>) -> (LedgerView, Result<i64, LedgerError>) {
        if self.accounts.contains_key(id) {
            (self.without(id), Ok(self.accounts[id]))
        } else {
            (self, Err(LedgerError::AccountNotFound))
        }
    }

    /// The balance of an account that is there moves by `delta`, unless the
    /// sum leaves the signed 64-bit range: then nothing changes.
    pub open spec fn adjust_balance(self, id: Seq<char>, delta: i64) -> (
        LedgerView,
        Result<(), LedgerError>,
    ) {
        if !self.accounts.contains_key(id) {
            (self, Err(LedgerError::AccountNotFound))
        } else if i64::MIN <= self.accounts[id] + delta <= i64::MAX {
            (self.with_balance(id, (self.accounts[id] + delta) as i64), Ok(()))
        } else {
            (self, Err(LedgerError::BalanceOverflow))
        }
    }
}

/// The shared store. Every operation takes the store by reference for its
/// whole duration, so the test for an account and the change that follows
/// are one step: whoever holds the store exclusively sees no state between
/// them.
pub struct Ledger {
    accounts: StringHashMap<i64>,
    admin_secret: String,
}

impl View for Ledger {
    type V = LedgerView;

    closed spec fn view(&self) -> LedgerView {
        LedgerView { accounts: self.accounts@, admin_secret: self.admin_secret@ }
    }
}

impl Ledger {
    /// A ledger without accounts, whose administrator proves itself by
    /// `admin_secret`.
    pub fn new(admin_secret: String) -> (ledger: Ledger)
        ensures
            ledger@ == LedgerView::empty(admin_secret@),
    {
        Ledger { accounts: StringHashMap::new(), admin_secret }
    }

    /// Accepts `key` where it equals the secret.
    pub fn verify_admin(&self, key: &str) -> (out: Result<(), LedgerError>)
        ensures
            out == self@.verify_admin(key@),
    {
        if self.admin_secret == key.to_owned() {
            Ok(())
        } else {
            Err(LedgerError::Unauthorized)
        }
    }

    /// Opens the account `id` with a balance of zero.
    pub fn create_account(&mut self, id: &str) -> (out: Result<(), LedgerError>)
        ensures
            (final(self)@, out) == old(self)@.create_account(id@),
    {
        if self.accounts.contains_key(id) {
            Err(LedgerError::AccountExists)
        } else {
            self.accounts.insert(id.to_owned(), 0);
            Ok(())
        }
    }

    /// The balance of the account `id`.
    pub fn read_balance(&self, id: &str) -> (out: Result<i64, LedgerError>)
        ensures
            out == self@.read_balance(id@),
    {
        match self.accounts.get(id) {
            Some(balance) => Ok(*balance),
            None => Err(LedgerError::AccountNotFound),
        }
    }

    /// Closes the account `id` and hands out its last balance.
    pub fn remove_account(&mut self, id: &str) -> (out: Result<i64, LedgerError>)
        ensures
            (final(self)@, out) == old(self)@.remove_account(id@),
    {
        let found = match self.accounts.get(id) {
            Some(balance) => Some(*balance),
            None => None,
        };
        match found {
            Some(balance) => {
                self.accounts.remove(id);
                Ok(balance)
            },
            None => Err(LedgerError::AccountNotFound),
        }
    }

    /// Moves the balance of the account `id` by `delta`.
    pub fn adjust_balance(&mut self, id: &str, delta: i64) -> (out: Result<(), LedgerError>)
        ensures
            (final(self)@, out) == old(self)@.adjust_balance(id@, delta),
    {
        let found = match self.accounts.get(id) {
            Some(balance) => Some(*balance),
            None => None,
        };
        match found {
            Some(balance) => match balance.checked_add(delta) {
                Some(sum) => {
                    self.accounts.insert(id.to_owned(), sum);
                    Ok(())
                },
                None => Err(LedgerError::BalanceOverflow),
            },
            None => Err(LedgerError::AccountNotFound),
        }
    }
}

} // verus!
