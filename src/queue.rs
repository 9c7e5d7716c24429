use std::collections::VecDeque;
use vstd::prelude::*;

verus! {

/// An operation waiting to be applied by the settlement worker.
#[derive(Debug)]
pub enum PendingOperation {
    CreateAccount { id: String, starting_balance: u128 },
    Transfer { sender: String, receiver: String, amount: u128 },
}

/// The mathematical value of a pending operation.
pub ghost enum OpView {
    CreateAccount { id: Seq<char>, starting_balance: u128 },
    Transfer { sender: Seq<char>, receiver: Seq<char>, amount: u128 },
}

impl View for PendingOperation {
    type V = OpView;

    open spec fn view(&self) -> OpView {
        match self {
            PendingOperation::CreateAccount { id, starting_balance } => OpView::CreateAccount {
                id: id@,
                starting_balance: *starting_balance,
            },
            PendingOperation::Transfer { sender, receiver, amount } => OpView::Transfer {
                sender: sender@,
                receiver: receiver@,
                amount: *amount,
            },
        }
    }
}

/// The Transaction Queue: operations in the order they were submitted.
pub struct TransactionQueue {
    ops: VecDeque<PendingOperation>,
}

impl View for TransactionQueue {
    type V = Seq<OpView>;

    closed spec fn view(&self) -> Seq<OpView> {
        self.ops@.map_values(|op: PendingOperation| op@)
    }
}

impl TransactionQueue {
    pub fn new() -> (r: TransactionQueue)
        ensures
            r@ == Seq::<OpView>::empty(),
    {
        let r = TransactionQueue { ops: VecDeque::new() };
        assert(r@ =~= Seq::<OpView>::empty());
        r
    }

    /// Places `op` at the back of the queue.
    pub fn submit(&mut self, op: PendingOperation)
        ensures
            final(self)@ == old(self)@.push(op@),
    {
        let ghost before = self.ops@;
        self.ops.push_back(op);
        assert(self@ =~= before.map_values(|op: PendingOperation| op@).push(op@));
    }

    /// Takes the operation at the front of the queue, if there is one.
    pub fn pop(&mut self) -> (r: Option<PendingOperation>)
        ensures
            old(self)@.len() == 0 ==> r is None && final(self)@ == old(self)@,
            old(self)@.len() > 0 ==> (r matches Some(op) && op@ == old(self)@[0]),
            old(self)@.len() > 0 ==> final(self)@ == old(self)@.drop_first(),
    {
        let ghost before = self.ops@;
        let r = self.ops.pop_front();
        assert(self@ =~= before.map_values(|op: PendingOperation| op@).drop_first() || r is None);
        r
    }

    pub fn len(&self) -> (r: usize)
        ensures
            r == self@.len(),
    {
        self.ops.len()
    }
}

} // verus!
