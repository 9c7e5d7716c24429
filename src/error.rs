use vstd::prelude::*;

verus! {

/// The ways a single ledger operation can fail. None of them is fatal: each is
/// reported to the caller that submitted the operation.
#[derive(Debug, Clone, PartialEq, Eq)]
pub enum LedgerError {
    /// An account with the requested identifier already exists.
    AccountExists,
    /// The named account does not exist.
    AccountNotFound(String),
    /// The sender's balance is smaller than the amount.
    InsufficientFunds,
    /// A transfer of zero.
    InvalidAmount,
    /// Crediting the receiver would exceed the largest representable balance.
    BalanceOverflow,
}

/// The mathematical value of a `LedgerError`.
pub ghost enum ErrorView {
    AccountExists,
    AccountNotFound(Seq<char>),
    InsufficientFunds,
    InvalidAmount,
    BalanceOverflow,
}

impl View for LedgerError {
    type V = ErrorView;

    open spec fn view(&self) -> ErrorView {
        match self {
            LedgerError::AccountExists => ErrorView::AccountExists,
            LedgerError::AccountNotFound(id) => ErrorView::AccountNotFound(id@),
            LedgerError::InsufficientFunds => ErrorView::InsufficientFunds,
            LedgerError::InvalidAmount => ErrorView::InvalidAmount,
            LedgerError::BalanceOverflow => ErrorView::BalanceOverflow,
        }
    }
}

/// The mathematical value of the outcome of an operation.
pub open spec fn result_view<T>(r: Result<T, LedgerError>) -> Result<T, ErrorView> {
    match r {
        Ok(v) => Ok(v),
        Err(e) => Err(e@),
    }
}

} // verus!
