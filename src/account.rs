use vstd::prelude::*;
use crate::error::LedgerError;

verus! {

/// The mathematical value of an account: its identifier and its balance.
pub ghost struct AccountView {
    pub id: Seq<char>,
    pub balance: u128,
}

/// A named account. Its balance is unsigned, so it is never negative.
#[derive(Debug)]
pub struct Account {
    id: String,
    balance: u128,
}

impl View for Account {
    type V = AccountView;

    closed spec fn view(&self) -> AccountView {
        AccountView { id: self.id@, balance: self.balance }
    }
}

impl Account {
    pub fn new(id: String, balance: u128) -> (r: Account)
        ensures
            r@ == (AccountView { id: id@, balance }),
    {
        Account { id, balance }
    }

    pub fn get_id(&self) -> (r: &String)
        ensures
            r@ == self@.id,
    {
        &self.id
    }

    pub fn get_balance(&self) -> (r: &u128)
        ensures
            *r == self@.balance,
    {
        &self.balance
    }

    /// Takes `amount` off the balance, or fails with `InsufficientFunds` and
    /// leaves the account as it was when the balance is smaller than `amount`.
    pub fn withdraw(&mut self, amount: u128) -> (r: Result<(), LedgerError>)
        ensures
            final(self)@.id == old(self)@.id,
            old(self)@.balance < amount ==> r == Err::<(), LedgerError>(LedgerError::InsufficientFunds)
                && final(self)@ == old(self)@,
            old(self)@.balance >= amount ==> r is Ok
                && final(self)@.balance == old(self)@.balance - amount,
    {
        if self.balance < amount {
            return Err(LedgerError::InsufficientFunds);
        }
        self.balance = self.balance - amount;
        Ok(())
    }

    /// Adds `amount` to the balance.
    pub fn deposit(&mut self, amount: u128)
        requires
            old(self)@.balance + amount <= u128::MAX,
        ensures
            final(self)@.id == old(self)@.id,
            final(self)@.balance == old(self)@.balance + amount,
    {
        self.balance = self.balance + amount;
    }
}

} // verus!
