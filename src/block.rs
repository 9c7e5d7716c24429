use vstd::prelude::*;

verus! {

/// The mathematical value of a transfer record.
pub ghost struct TransferView {
    pub sender: Seq<char>,
    pub receiver: Seq<char>,
    pub amount: u128,
}

/// One movement of value between two accounts. Immutable once built.
#[derive(Debug, Clone)]
pub struct Transfer {
    sender: String,
    receiver: String,
    amount: u128,
}

/// The transfers applied during one settlement interval, in the order they were
/// applied.
#[derive(Debug, Clone)]
pub struct Block {
    transfers: Vec<Transfer>,
}

impl View for Transfer {
    type V = TransferView;

    closed spec fn view(&self) -> TransferView {
        TransferView { sender: self.sender@, receiver: self.receiver@, amount: self.amount }
    }
}

/// The records of a sequence of transfers.
pub open spec fn records(ts: Seq<Transfer>) -> Seq<TransferView> {
    ts.map_values(|t: Transfer| t@)
}

impl View for Block {
    type V = Seq<TransferView>;

    closed spec fn view(&self) -> Seq<TransferView> {
        records(self.transfers@)
    }
}

impl Transfer {
    pub fn new(sender: String, receiver: String, amount: u128) -> (r: Transfer)
        ensures
            r@ == (TransferView { sender: sender@, receiver: receiver@, amount }),
    {
        Transfer { sender, receiver, amount }
    }

    pub fn get_sender_id(&self) -> (r: &String)
        ensures
            r@ == self@.sender,
    {
        &self.sender
    }

    pub fn get_receiver_id(&self) -> (r: &String)
        ensures
            r@ == self@.receiver,
    {
        &self.receiver
    }

    pub fn get_amount(&self) -> (r: &u128)
        ensures
            *r == self@.amount,
    {
        &self.amount
    }
}

impl Block {
    pub fn new() -> (r: Block)
        ensures
            r@ == Seq::<TransferView>::empty(),
    {
        let r = Block { transfers: Vec::new() };
        assert(r@ =~= Seq::<TransferView>::empty());
        r
    }

    /// Appends a record at the end of the block.
    pub fn add_transfer(&mut self, transaction: Transfer)
        ensures
            final(self)@ == old(self)@.push(transaction@),
    {
        let ghost before = self.transfers@;
        self.transfers.push(transaction);
        assert(records(self.transfers@) =~= records(before).push(transaction@));
    }

    pub fn get_transfers(&self) -> (r: &Vec<Transfer>)
        ensures
            records(r@) == self@,
    {
        &self.transfers
    }

    /// Removes every record.
    pub fn clear(&mut self)
        ensures
            final(self)@ == Seq::<TransferView>::empty(),
    {
        self.transfers.clear();
        assert(records(self.transfers@) =~= Seq::<TransferView>::empty());
    }
}

} // verus!
