use vstd::prelude::*;
use crate::account::{Account, AccountView};
use crate::error::{result_view, ErrorView, LedgerError};

verus! {

/// No identifier occurs twice.
pub open spec fn unique_ids(s: Seq<AccountView>) -> bool {
    forall|i: int, j: int| 0 <= i < s.len() && 0 <= j < s.len() && i != j ==> s[i].id != s[j].id
}

/// Some account carries the identifier `id`.
pub open spec fn has_id(s: Seq<AccountView>, id: Seq<char>) -> bool {
    exists|i: int| 0 <= i < s.len() && s[i].id == id
}

/// The position of the account named `id`.
pub open spec fn index_of(s: Seq<AccountView>, id: Seq<char>) -> int {
    choose|i: int| 0 <= i < s.len() && s[i].id == id
}

/// The balance of the account named `id`.
pub open spec fn balance_of(s: Seq<AccountView>, id: Seq<char>) -> u128 {
    s[index_of(s, id)].balance
}

/// The accounts with the balance of `id` replaced by `balance`.
pub open spec fn with_balance(s: Seq<AccountView>, id: Seq<char>, balance: u128) -> Seq<AccountView> {
    s.update(index_of(s, id), AccountView { id, balance })
}

/// The sum of all balances.
pub open spec fn total(s: Seq<AccountView>) -> int
    decreases s.len(),
{
    if s.len() == 0 {
        0
    } else {
        total(s.drop_last()) + s.last().balance
    }
}

/// Why a transfer of `amount` from `sender` to `receiver` is refused, checked in
/// this order; `None` when it goes through.
pub open spec fn transfer_error(
    s: Seq<AccountView>,
    sender: Seq<char>,
    receiver: Seq<char>,
    amount: u128,
) -> Option<ErrorView> {
    if amount == 0 {
        Some(ErrorView::InvalidAmount)
    } else if !has_id(s, sender) {
        Some(ErrorView::AccountNotFound(sender))
    } else if !has_id(s, receiver) {
        Some(ErrorView::AccountNotFound(receiver))
    } else if balance_of(s, sender) < amount {
        Some(ErrorView::InsufficientFunds)
    } else if sender != receiver && balance_of(s, receiver) + amount > u128::MAX {
        Some(ErrorView::BalanceOverflow)
    } else {
        None
    }
}

/// The accounts after `amount` is taken from `sender` and then given to
/// `receiver`.
pub open spec fn moved(
    s: Seq<AccountView>,
    sender: Seq<char>,
    receiver: Seq<char>,
    amount: u128,
) -> Seq<AccountView> {
    let debited = with_balance(s, sender, (balance_of(s, sender) - amount) as u128);
    with_balance(debited, receiver, (balance_of(debited, receiver) + amount) as u128)
}

/// The position found by `index_of` is the only one with that identifier.
pub proof fn lemma_index_of(s: Seq<AccountView>, i: int)
    requires
        unique_ids(s),
        0 <= i < s.len(),
    ensures
        has_id(s, s[i].id),
        index_of(s, s[i].id) == i,
{
    assert(0 <= i < s.len() && s[i].id == s[i].id);
}

/// Replacing one balance changes the total by the difference.
pub proof fn lemma_total_update(s: Seq<AccountView>, i: int, a: AccountView)
    requires
        0 <= i < s.len(),
    ensures
        total(s.update(i, a)) == total(s) - s[i].balance + a.balance,
    decreases s.len(),
{
    let t = s.update(i, a);
    if i == s.len() - 1 {
        assert(t.drop_last() =~= s.drop_last());
    } else {
        lemma_total_update(s.drop_last(), i, a);
        assert(t.drop_last() =~= s.drop_last().update(i, a));
    }
}

/// A transfer that goes through keeps the identifiers, their uniqueness, and the
/// total of all balances.
pub proof fn lemma_moved(s: Seq<AccountView>, sender: Seq<char>, receiver: Seq<char>, amount: u128)
    requires
        unique_ids(s),
        transfer_error(s, sender, receiver, amount) is None,
    ensures
        unique_ids(moved(s, sender, receiver, amount)),
        moved(s, sender, receiver, amount).len() == s.len(),
        forall|i: int| 0 <= i < s.len() ==> #[trigger] moved(s, sender, receiver, amount)[i].id == s[i].id,
        total(moved(s, sender, receiver, amount)) == total(s),
{
    let si = index_of(s, sender);
    let debited = with_balance(s, sender, (balance_of(s, sender) - amount) as u128);
    lemma_total_update(s, si, AccountView { id: sender, balance: (balance_of(s, sender) - amount) as u128 });
    assert(forall|i: int| 0 <= i < s.len() ==> #[trigger] debited[i].id == s[i].id);
    let ri = index_of(debited, receiver);
    assert(has_id(debited, receiver)) by {
        let k = index_of(s, receiver);
        assert(debited[k].id == receiver);
    }
    lemma_total_update(debited, ri, AccountView { id: receiver, balance: (balance_of(debited, receiver) + amount) as u128 });
    if sender != receiver {
        let k = index_of(s, receiver);
        assert(debited[k].id == receiver);
        assert(balance_of(debited, receiver) == balance_of(s, receiver));
    }
}

/// The Account Store: every account, each identifier at most once.
pub struct AccountStore {
    accounts: Vec<Account>,
}

impl View for AccountStore {
    type V = Seq<AccountView>;

    closed spec fn view(&self) -> Seq<AccountView> {
        self.accounts@.map_values(|a: Account| a@)
    }
}

impl AccountStore {
    /// The identifiers are unique.
    pub open spec fn wf(&self) -> bool {
        unique_ids(self@)
    }

    pub fn new() -> (r: AccountStore)
        ensures
            r.wf(),
            r@ == Seq::<AccountView>::empty(),
    {
        let r = AccountStore { accounts: Vec::new() };
        assert(r@ =~= Seq::<AccountView>::empty());
        r
    }

    /// The position of the account named `id`, if any.
    fn find(&self, id: &String) -> (r: Option<usize>)
        requires
            self.wf(),
        ensures
            r is None <==> !has_id(self@, id@),
            r matches Some(i) ==> i == index_of(self@, id@) && i < self@.len(),
    {
        let mut i: usize = 0;
        while i < self.accounts.len()
            invariant
                self.wf(),
                i <= self.accounts@.len(),
                self@.len() == self.accounts@.len(),
                forall|j: int| 0 <= j < i ==> self@[j].id != id@,
            decreases self.accounts.len() - i,
        {
            if *self.accounts[i].get_id() == *id {
                proof {
                    lemma_index_of(self@, i as int);
                }
                return Some(i);
            }
            i = i + 1;
        }
        None
    }

    /// Adds an account named `id` with balance `starting_balance`, or fails
    /// with `AccountExists`, changing nothing, when the name is taken.
    pub fn create(&mut self, id: String, starting_balance: u128) -> (r: Result<(), LedgerError>)
        requires
            old(self).wf(),
        ensures
            final(self).wf(),
            has_id(old(self)@, id@) ==> r == Err::<(), LedgerError>(LedgerError::AccountExists)
                && final(self)@ == old(self)@,
            !has_id(old(self)@, id@) ==> r is Ok
                && final(self)@ == old(self)@.push(AccountView { id: id@, balance: starting_balance }),
    {
        if self.find(&id).is_some() {
            return Err(LedgerError::AccountExists);
        }
        let ghost before = self@;
        self.accounts.push(Account::new(id, starting_balance));
        assert(self@ =~= before.push(AccountView { id: id@, balance: starting_balance }));
        Ok(())
    }

    /// The balance of the account named `id`.
    pub fn get_balance(&self, id: &String) -> (r: Result<u128, LedgerError>)
        requires
            self.wf(),
        ensures
            has_id(self@, id@) ==> r == Ok::<u128, LedgerError>(balance_of(self@, id@)),
            !has_id(self@, id@) ==> result_view(r) == Err::<u128, ErrorView>(ErrorView::AccountNotFound(id@)),
    {
        match self.find(id) {
            Some(i) => Ok(*self.accounts[i].get_balance()),
            None => Err(LedgerError::AccountNotFound(id.clone())),
        }
    }

    /// Takes `amount` from the account named `id`. Fails, changing nothing,
    /// with `AccountNotFound` when there is no such account and with
    /// `InsufficientFunds` when its balance is smaller than `amount`.
    pub fn withdraw(&mut self, id: &String, amount: u128) -> (r: Result<(), LedgerError>)
        requires
            old(self).wf(),
        ensures
            final(self).wf(),
            !has_id(old(self)@, id@) ==> result_view(r) == Err::<(), ErrorView>(ErrorView::AccountNotFound(id@))
                && final(self)@ == old(self)@,
            has_id(old(self)@, id@) && balance_of(old(self)@, id@) < amount
                ==> r == Err::<(), LedgerError>(LedgerError::InsufficientFunds) && final(self)@ == old(self)@,
            has_id(old(self)@, id@) && balance_of(old(self)@, id@) >= amount ==> r is Ok
                && final(self)@ == with_balance(old(self)@, id@, (balance_of(old(self)@, id@) - amount) as u128),
    {
        match self.find(id) {
            None => Err(LedgerError::AccountNotFound(id.clone())),
            Some(i) => {
                let ghost before = self@;
                let r = self.accounts[i].withdraw(amount);
                proof {
                    if r is Ok {
                        assert(self@ =~= with_balance(before, id@, (balance_of(before, id@) - amount) as u128));
                    } else {
                        assert(self@ =~= before);
                    }
                }
                r
            },
        }
    }

    /// Adds `amount` to the account named `id`.
    pub fn deposit(&mut self, id: &String, amount: u128)
        requires
            old(self).wf(),
            has_id(old(self)@, id@),
            balance_of(old(self)@, id@) + amount <= u128::MAX,
        ensures
            final(self).wf(),
            final(self)@ == with_balance(old(self)@, id@, (balance_of(old(self)@, id@) + amount) as u128),
    {
        let i = self.find(id).unwrap();
        let ghost before = self@;
        self.accounts[i].deposit(amount);
        assert(self@ =~= with_balance(before, id@, (balance_of(before, id@) + amount) as u128));
    }

    /// Moves `amount` from `sender` to `receiver` after checking, in order, that
    /// the amount is positive, that both accounts exist, that the sender can pay,
    /// and that the receiver's balance stays representable. A refused transfer
    /// changes nothing.
    pub fn transfer(&mut self, sender: &String, receiver: &String, amount: u128) -> (r: Result<(), LedgerError>)
        requires
            old(self).wf(),
        ensures
            final(self).wf(),
            result_view(r) == match transfer_error(old(self)@, sender@, receiver@, amount) {
                Some(e) => Err::<(), ErrorView>(e),
                None => Ok(()),
            },
            r is Err ==> final(self)@ == old(self)@,
            r is Ok ==> final(self)@ == moved(old(self)@, sender@, receiver@, amount),
            total(final(self)@) == total(old(self)@),
    {
        if amount == 0 {
            return Err(LedgerError::InvalidAmount);
        }
        let from = match self.get_balance(sender) {
            Ok(b) => b,
            Err(e) => return Err(e),
        };
        let to = match self.get_balance(receiver) {
            Ok(b) => b,
            Err(e) => return Err(e),
        };
        if from < amount {
            return Err(LedgerError::InsufficientFunds);
        }
        if *sender != *receiver && to > u128::MAX - amount {
            return Err(LedgerError::BalanceOverflow);
        }
        proof {
            lemma_moved(self@, sender@, receiver@, amount);
        }
        let ghost before = self@;
        let w = self.withdraw(sender, amount);
        proof {
            let k = index_of(before, receiver@);
            assert(self@[k].id == receiver@);
            if sender@ != receiver@ {
                assert(balance_of(self@, receiver@) == to);
            } else {
                assert(balance_of(self@, receiver@) == from - amount);
            }
        }
        self.deposit(receiver, amount);
        w
    }
}

} // verus!
