use vstd::prelude::*;
use crate::account::AccountView;
use crate::block::{Block, Transfer, TransferView};
use crate::error::{result_view, ErrorView, LedgerError};
use crate::queue::{OpView, PendingOperation, TransactionQueue};
use crate::store::{
    balance_of, has_id, index_of, lemma_index_of, lemma_moved, moved, total, transfer_error, unique_ids,
    with_balance, AccountStore,
};

verus! {

/// The number of time units between two settlement ticks.
pub const SETTLEMENT_INTERVAL: u64 = 10;

/// The state of accounts and current block after the settlement worker applies
/// `op`, with the outcome reported for it.
pub open spec fn settle(
    accounts: Seq<AccountView>,
    block: Seq<TransferView>,
    op: OpView,
) -> (Seq<AccountView>, Seq<TransferView>, Result<(), ErrorView>) {
    match op {
        OpView::CreateAccount { id, starting_balance } => {
            if has_id(accounts, id) {
                (accounts, block, Err(ErrorView::AccountExists))
            } else {
                (accounts.push(AccountView { id, balance: starting_balance }), block, Ok(()))
            }
        },
        OpView::Transfer { sender, receiver, amount } => {
            match transfer_error(accounts, sender, receiver, amount) {
                Some(e) => (accounts, block, Err(e)),
                None => (
                    moved(accounts, sender, receiver, amount),
                    block.push(TransferView { sender, receiver, amount }),
                    Ok(()),
                ),
            }
        },
    }
}

/// The state after the settlement worker applies `ops` in order, with the
/// outcome of each.
pub open spec fn settle_all(
    accounts: Seq<AccountView>,
    block: Seq<TransferView>,
    ops: Seq<OpView>,
) -> (Seq<AccountView>, Seq<TransferView>, Seq<Result<(), ErrorView>>)
    decreases ops.len(),
{
    if ops.len() == 0 {
        (accounts, block, Seq::empty())
    } else {
        let (a, b, r) = settle(accounts, block, ops[0]);
        let (a2, b2, rs) = settle_all(a, b, ops.drop_first());
        (a2, b2, seq![r] + rs)
    }
}

/// The mathematical values of a sequence of outcomes.
pub open spec fn results_view(rs: Seq<Result<(), LedgerError>>) -> Seq<Result<(), ErrorView>> {
    rs.map_values(|r: Result<(), LedgerError>| result_view(r))
}

/// The mathematical values of a sequence of blocks.
pub open spec fn blocks_view(bs: Seq<Block>) -> Seq<Seq<TransferView>> {
    bs.map_values(|b: Block| b@)
}

/// Applying one operation keeps the identifiers unique.
pub proof fn lemma_settle_unique(accounts: Seq<AccountView>, block: Seq<TransferView>, op: OpView)
    requires
        unique_ids(accounts),
    ensures
        unique_ids(settle(accounts, block, op).0),
{
    match op {
        OpView::CreateAccount { id, starting_balance } => {
            if !has_id(accounts, id) {
                let a = accounts.push(AccountView { id, balance: starting_balance });
                assert forall|i: int, j: int| 0 <= i < a.len() && 0 <= j < a.len() && i != j
                    implies a[i].id != a[j].id by {
                    if i == accounts.len() as int {
                        assert(accounts[j].id == a[j].id);
                    } else if j == accounts.len() as int {
                        assert(accounts[i].id == a[i].id);
                    }
                }
            }
        },
        OpView::Transfer { sender, receiver, amount } => {
            if transfer_error(accounts, sender, receiver, amount) is None {
                lemma_moved(accounts, sender, receiver, amount);
            }
        },
    }
}

/// Conservation: settling any sequence of transfers, whichever of them are
/// refused, leaves the total of all balances as it was.
pub proof fn lemma_transfers_conserve_total(accounts: Seq<AccountView>, block: Seq<TransferView>, ops: Seq<OpView>)
    requires
        unique_ids(accounts),
        forall|i: int| 0 <= i < ops.len() ==> #[trigger] ops[i] is Transfer,
    ensures
        total(settle_all(accounts, block, ops).0) == total(accounts),
    decreases ops.len(),
{
    if ops.len() > 0 {
        let (a, b, r) = settle(accounts, block, ops[0]);
        lemma_settle_unique(accounts, block, ops[0]);
        if let OpView::Transfer { sender, receiver, amount } = ops[0] {
            if transfer_error(accounts, sender, receiver, amount) is None {
                lemma_moved(accounts, sender, receiver, amount);
            }
        }
        let rest = ops.drop_first();
        assert forall|i: int| 0 <= i < rest.len() implies #[trigger] rest[i] is Transfer by {
            assert(ops[i + 1] is Transfer);
        }
        lemma_transfers_conserve_total(a, b, rest);
    }
}

/// A transfer of zero is refused with `InvalidAmount` and records nothing.
pub proof fn lemma_zero_amount_rejected(
    accounts: Seq<AccountView>,
    block: Seq<TransferView>,
    sender: Seq<char>,
    receiver: Seq<char>,
)
    ensures
        settle(accounts, block, OpView::Transfer { sender, receiver, amount: 0 })
            == (accounts, block, Err::<(), ErrorView>(ErrorView::InvalidAmount)),
{
}

/// A transfer from an account to itself that the balance covers succeeds and
/// leaves every balance as it was.
pub proof fn lemma_self_transfer_keeps_balances(
    accounts: Seq<AccountView>,
    block: Seq<TransferView>,
    id: Seq<char>,
    amount: u128,
)
    requires
        unique_ids(accounts),
        has_id(accounts, id),
        0 < amount <= balance_of(accounts, id),
    ensures
        settle(accounts, block, OpView::Transfer { sender: id, receiver: id, amount }).0 == accounts,
        settle(accounts, block, OpView::Transfer { sender: id, receiver: id, amount }).2 == Ok::<(), ErrorView>(()),
{
    let k = index_of(accounts, id);
    let debited = with_balance(accounts, id, (balance_of(accounts, id) - amount) as u128);
    lemma_moved(accounts, id, id, amount);
    assert(unique_ids(debited)) by {
        assert forall|i: int| 0 <= i < debited.len() implies #[trigger] debited[i].id == accounts[i].id by {}
    }
    lemma_index_of(debited, k);
    assert(moved(accounts, id, id, amount) =~= accounts);
}

/// Creating an account under a name that is taken fails with `AccountExists`
/// and changes no balance.
pub proof fn lemma_duplicate_create_rejected(
    accounts: Seq<AccountView>,
    block: Seq<TransferView>,
    id: Seq<char>,
    starting_balance: u128,
)
    requires
        has_id(accounts, id),
    ensures
        settle(accounts, block, OpView::CreateAccount { id, starting_balance })
            == (accounts, block, Err::<(), ErrorView>(ErrorView::AccountExists)),
{
}

/// The ledger: the Account Store, the Transaction Queue, the current block
/// that the settlement worker fills, and the chain of sealed blocks.
pub struct Blockchain {
    accounts: AccountStore,
    queue: TransactionQueue,
    current: Block,
    chain: Vec<Block>,
    last_seal: u64,
}

impl Blockchain {
    /// The accounts, each identifier once.
    pub closed spec fn accounts(&self) -> Seq<AccountView> {
        self.accounts@
    }

    /// The operations submitted and not yet applied, oldest first.
    pub closed spec fn pending(&self) -> Seq<OpView> {
        self.queue@
    }

    /// The transfers applied since the last seal.
    pub closed spec fn current_block(&self) -> Seq<TransferView> {
        self.current@
    }

    /// The sealed blocks, oldest first.
    pub closed spec fn history(&self) -> Seq<Seq<TransferView>> {
        blocks_view(self.chain@)
    }

    /// The time of the last seal.
    pub closed spec fn last_seal(&self) -> u64 {
        self.last_seal
    }

    /// The internal invariant: the store's identifiers are unique.
    pub closed spec fn wf(&self) -> bool {
        self.accounts.wf()
    }

    /// An empty ledger whose settlement clock starts at time 0.
    pub fn new() -> (r: Blockchain)
        ensures
            r.wf(),
            r.accounts() == Seq::<AccountView>::empty(),
            r.pending() == Seq::<OpView>::empty(),
            r.current_block() == Seq::<TransferView>::empty(),
            r.history() == Seq::<Seq<TransferView>>::empty(),
            r.last_seal() == 0,
    {
        let r = Blockchain {
            accounts: AccountStore::new(),
            queue: TransactionQueue::new(),
            current: Block::new(),
            chain: Vec::new(),
            last_seal: 0,
        };
        assert(r.history() =~= Seq::<Seq<TransferView>>::empty());
        r
    }

    /// Submits the creation of an account named `id` with balance `balance`.
    /// It is applied later, in submission order.
    pub fn create_account(&mut self, id: String, balance: u128)
        ensures
            final(self).wf() == old(self).wf(),
            final(self).pending() == old(self).pending().push(OpView::CreateAccount { id: id@, starting_balance: balance }),
            final(self).accounts() == old(self).accounts(),
            final(self).current_block() == old(self).current_block(),
            final(self).history() == old(self).history(),
            final(self).last_seal() == old(self).last_seal(),
    {
        self.queue.submit(PendingOperation::CreateAccount { id, starting_balance: balance });
    }

    /// Submits a transfer of `amount` from `from` to `to`. It is validated
    /// and applied later, in submission order.
    pub fn add_transaction(&mut self, from: String, to: String, amount: u128)
        ensures
            final(self).wf() == old(self).wf(),
            final(self).pending() == old(self).pending().push(OpView::Transfer { sender: from@, receiver: to@, amount }),
            final(self).accounts() == old(self).accounts(),
            final(self).current_block() == old(self).current_block(),
            final(self).history() == old(self).history(),
            final(self).last_seal() == old(self).last_seal(),
    {
        self.queue.submit(PendingOperation::Transfer { sender: from, receiver: to, amount });
    }

    /// The balance of the account named `id`, as of the operations applied so far.
    pub fn get_balance(&self, id: &String) -> (r: Result<u128, LedgerError>)
        requires
            self.wf(),
        ensures
            has_id(self.accounts(), id@) ==> r == Ok::<u128, LedgerError>(balance_of(self.accounts(), id@)),
            !has_id(self.accounts(), id@) ==> result_view(r) == Err::<u128, ErrorView>(ErrorView::AccountNotFound(id@)),
    {
        self.accounts.get_balance(id)
    }

    /// Applies one operation to the accounts and the current block.
    fn apply(&mut self, op: PendingOperation) -> (r: Result<(), LedgerError>)
        requires
            old(self).wf(),
        ensures
            final(self).wf(),
            (final(self).accounts(), final(self).current_block(), result_view(r))
                == settle(old(self).accounts(), old(self).current_block(), op@),
            final(self).pending() == old(self).pending(),
            final(self).history() == old(self).history(),
            final(self).last_seal() == old(self).last_seal(),
    {
        match op {
            PendingOperation::CreateAccount { id, starting_balance } => {
                self.accounts.create(id, starting_balance)
            },
            PendingOperation::Transfer { sender, receiver, amount } => {
                let r = self.accounts.transfer(&sender, &receiver, amount);
                if r.is_ok() {
                    self.current.add_transfer(Transfer::new(sender, receiver, amount));
                }
                r
            },
        }
    }

    /// The settlement worker's step: applies the oldest pending operation and
    /// returns its outcome, or returns `None` when nothing is pending.
    pub fn process_next(&mut self) -> (r: Option<Result<(), LedgerError>>)
        requires
            old(self).wf(),
        ensures
            final(self).wf(),
            old(self).pending().len() == 0 ==> r is None,
            old(self).pending().len() == 0 ==> final(self).accounts() == old(self).accounts()
                && final(self).current_block() == old(self).current_block()
                && final(self).pending() == old(self).pending(),
            old(self).pending().len() > 0 ==> (r matches Some(res)
                && (final(self).accounts(), final(self).current_block(), result_view(res))
                    == settle(old(self).accounts(), old(self).current_block(), old(self).pending()[0])),
            old(self).pending().len() > 0 ==> final(self).pending() == old(self).pending().drop_first(),
            final(self).history() == old(self).history(),
            final(self).last_seal() == old(self).last_seal(),
    {
        match self.queue.pop() {
            None => None,
            Some(op) => Some(self.apply(op)),
        }
    }

    /// Applies every pending operation in submission order and returns their
    /// outcomes in that order.
    pub fn process_pending(&mut self) -> (r: Vec<Result<(), LedgerError>>)
        requires
            old(self).wf(),
        ensures
            final(self).wf(),
            (final(self).accounts(), final(self).current_block(), results_view(r@))
                == settle_all(old(self).accounts(), old(self).current_block(), old(self).pending()),
            final(self).pending() == Seq::<OpView>::empty(),
            final(self).history() == old(self).history(),
            final(self).last_seal() == old(self).last_seal(),
    {
        let ghost goal = settle_all(self.accounts(), self.current_block(), self.pending());
        let mut out: Vec<Result<(), LedgerError>> = Vec::new();
        loop
            invariant
                self.wf(),
                goal == settle_all(old(self).accounts(), old(self).current_block(), old(self).pending()),
                settle_all(self.accounts(), self.current_block(), self.pending()).0 == goal.0,
                settle_all(self.accounts(), self.current_block(), self.pending()).1 == goal.1,
                results_view(out@) + settle_all(self.accounts(), self.current_block(), self.pending()).2
                    == goal.2,
                self.history() == old(self).history(),
                self.last_seal() == old(self).last_seal(),
            decreases self.pending().len(),
        {
            match self.process_next() {
                None => {
                    assert(self.pending() =~= Seq::<OpView>::empty());
                    assert(results_view(out@) =~= results_view(out@) + Seq::<Result<(), ErrorView>>::empty());
                    return out;
                },
                Some(res) => {
                    let ghost rest = settle_all(self.accounts(), self.current_block(), self.pending()).2;
                    let ghost prev = out@;
                    out.push(res);
                    assert(results_view(out@) =~= results_view(prev).push(result_view(res)));
                    assert(results_view(out@) + rest =~= results_view(prev) + (seq![result_view(res)] + rest));
                },
            }
        }
    }

    /// The settlement tick at time `now`. Before the interval since the last
    /// seal has elapsed it changes nothing and returns `None`. Otherwise it
    /// applies every pending operation, seals the current block onto the chain
    /// (an empty block too), starts a new empty block, and returns the outcomes
    /// of the operations applied.
    pub fn tick(&mut self, now: u64) -> (r: Option<Vec<Result<(), LedgerError>>>)
        requires
            old(self).wf(),
        ensures
            final(self).wf(),
            now < old(self).last_seal() + SETTLEMENT_INTERVAL ==> r is None && *final(self) == *old(self),
            now >= old(self).last_seal() + SETTLEMENT_INTERVAL ==> ({
                let s = settle_all(old(self).accounts(), old(self).current_block(), old(self).pending());
                &&& r matches Some(rs) && results_view(rs@) == s.2
                &&& final(self).accounts() == s.0
                &&& final(self).history() == old(self).history().push(s.1)
                &&& final(self).current_block() == Seq::<TransferView>::empty()
                &&& final(self).pending() == Seq::<OpView>::empty()
                &&& final(self).last_seal() == now
            }),
    {
        if now < self.last_seal || now - self.last_seal < SETTLEMENT_INTERVAL {
            return None;
        }
        let results = self.process_pending();
        let mut sealed = Block::new();
        std::mem::swap(&mut sealed, &mut self.current);
        let ghost chain_before = self.chain@;
        self.chain.push(sealed);
        assert(blocks_view(self.chain@) =~= blocks_view(chain_before).push(sealed@));
        self.last_seal = now;
        Some(results)
    }

    /// The sealed blocks, oldest first.
    pub fn get_blocks(&self) -> (r: &Vec<Block>)
        ensures
            blocks_view(r@) == self.history(),
    {
        &self.chain
    }

    /// The block being filled since the last seal.
    pub fn get_current_block(&self) -> (r: &Block)
        ensures
            r@ == self.current_block(),
    {
        &self.current
    }

    /// The number of operations submitted and not yet applied.
    pub fn pending_count(&self) -> (r: usize)
        ensures
            r == self.pending().len(),
    {
        self.queue.len()
    }
}

} // verus!
