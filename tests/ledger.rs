use b_ledger::error::LedgerError;
use b_ledger::ledger::{Blockchain, SETTLEMENT_INTERVAL};

fn s(x: &str) -> String {
    x.to_string()
}

fn total(chain: &Blockchain, ids: &[&str]) -> u128 {
    ids.iter().map(|id| chain.get_balance(&s(id)).unwrap()).sum()
}

#[test]
fn transfer_then_tick_seals_one_record() {
    let mut chain = Blockchain::new();
    chain.create_account(s("A"), 100);
    chain.create_account(s("B"), 0);
    chain.add_transaction(s("A"), s("B"), 30);
    let results = chain.tick(SETTLEMENT_INTERVAL).expect("interval elapsed");
    assert_eq!(results, vec![Ok(()), Ok(()), Ok(())]);
    assert_eq!(chain.get_balance(&s("A")), Ok(70));
    assert_eq!(chain.get_balance(&s("B")), Ok(30));
    let blocks = chain.get_blocks();
    assert_eq!(blocks.len(), 1);
    let last = blocks.last().unwrap().get_transfers();
    assert_eq!(last.len(), 1);
    assert_eq!(last[0].get_sender_id(), "A");
    assert_eq!(last[0].get_receiver_id(), "B");
    assert_eq!(*last[0].get_amount(), 30);
    assert!(chain.get_current_block().get_transfers().is_empty());
}

#[test]
fn transfer_to_missing_account_reports_receiver() {
    let mut chain = Blockchain::new();
    chain.create_account(s("A"), 10);
    chain.add_transaction(s("A"), s("B"), 50);
    let results = chain.process_pending();
    assert_eq!(results, vec![Ok(()), Err(LedgerError::AccountNotFound(s("B")))]);
    assert_eq!(chain.get_balance(&s("A")), Ok(10));
    assert!(chain.get_current_block().get_transfers().is_empty());
}

#[test]
fn transfer_from_missing_account_reports_sender() {
    let mut chain = Blockchain::new();
    chain.create_account(s("B"), 10);
    chain.add_transaction(s("A"), s("C"), 5);
    assert_eq!(chain.process_pending(), vec![Ok(()), Err(LedgerError::AccountNotFound(s("A")))]);
}

#[test]
fn tick_before_interval_changes_nothing() {
    let mut chain = Blockchain::new();
    chain.create_account(s("A"), 100);
    assert_eq!(chain.process_next(), Some(Ok(())));
    chain.add_transaction(s("A"), s("A"), 1);
    assert!(chain.tick(SETTLEMENT_INTERVAL - 1).is_none());
    assert!(chain.tick(0).is_none());
    assert_eq!(chain.pending_count(), 1);
    assert!(chain.get_blocks().is_empty());
    assert_eq!(chain.get_balance(&s("A")), Ok(100));
}

#[test]
fn tick_seals_empty_block_and_restarts_interval() {
    let mut chain = Blockchain::new();
    assert_eq!(chain.tick(SETTLEMENT_INTERVAL), Some(vec![]));
    assert_eq!(chain.get_blocks().len(), 1);
    assert!(chain.get_blocks()[0].get_transfers().is_empty());
    assert!(chain.tick(SETTLEMENT_INTERVAL + 5).is_none());
    assert_eq!(chain.get_blocks().len(), 1);
    assert_eq!(chain.tick(2 * SETTLEMENT_INTERVAL + 3), Some(vec![]));
    assert_eq!(chain.get_blocks().len(), 2);
}

#[test]
fn zero_amount_is_invalid_and_unrecorded() {
    let mut chain = Blockchain::new();
    chain.create_account(s("A"), 5);
    chain.create_account(s("B"), 5);
    chain.add_transaction(s("A"), s("B"), 0);
    chain.add_transaction(s("X"), s("Y"), 0);
    assert_eq!(
        chain.process_pending(),
        vec![Ok(()), Ok(()), Err(LedgerError::InvalidAmount), Err(LedgerError::InvalidAmount)]
    );
    assert!(chain.get_current_block().get_transfers().is_empty());
    assert_eq!(chain.get_balance(&s("A")), Ok(5));
}

#[test]
fn self_transfer_keeps_balance() {
    let mut chain = Blockchain::new();
    chain.create_account(s("A"), 40);
    chain.add_transaction(s("A"), s("A"), 40);
    assert_eq!(chain.process_pending(), vec![Ok(()), Ok(())]);
    assert_eq!(chain.get_balance(&s("A")), Ok(40));
    assert_eq!(chain.get_current_block().get_transfers().len(), 1);
}

#[test]
fn duplicate_account_is_refused() {
    let mut chain = Blockchain::new();
    chain.create_account(s("A"), 40);
    chain.create_account(s("A"), 7);
    assert_eq!(chain.process_pending(), vec![Ok(()), Err(LedgerError::AccountExists)]);
    assert_eq!(chain.get_balance(&s("A")), Ok(40));
}

#[test]
fn insufficient_funds_leaves_balances() {
    let mut chain = Blockchain::new();
    chain.create_account(s("A"), 10);
    chain.create_account(s("B"), 0);
    chain.add_transaction(s("A"), s("B"), 11);
    assert_eq!(chain.process_pending(), vec![Ok(()), Ok(()), Err(LedgerError::InsufficientFunds)]);
    assert_eq!(chain.get_balance(&s("A")), Ok(10));
    assert_eq!(chain.get_balance(&s("B")), Ok(0));
}

#[test]
fn whole_balance_can_be_sent() {
    let mut chain = Blockchain::new();
    chain.create_account(s("A"), 10);
    chain.create_account(s("B"), 0);
    chain.add_transaction(s("A"), s("B"), 10);
    chain.process_pending();
    assert_eq!(chain.get_balance(&s("A")), Ok(0));
    assert_eq!(chain.get_balance(&s("B")), Ok(10));
}

#[test]
fn receiver_overflow_is_refused() {
    let mut chain = Blockchain::new();
    chain.create_account(s("A"), u128::MAX);
    chain.create_account(s("B"), 1);
    chain.add_transaction(s("B"), s("A"), 1);
    chain.add_transaction(s("A"), s("A"), u128::MAX);
    assert_eq!(
        chain.process_pending(),
        vec![Ok(()), Ok(()), Err(LedgerError::BalanceOverflow), Ok(())]
    );
    assert_eq!(chain.get_balance(&s("A")), Ok(u128::MAX));
    assert_eq!(chain.get_balance(&s("B")), Ok(1));
}

#[test]
fn transfers_conserve_total() {
    let mut chain = Blockchain::new();
    chain.create_account(s("A"), 100);
    chain.create_account(s("B"), 50);
    chain.create_account(s("C"), 7);
    chain.process_pending();
    let before = total(&chain, &["A", "B", "C"]);
    chain.add_transaction(s("A"), s("B"), 30);
    chain.add_transaction(s("B"), s("C"), 80);
    chain.add_transaction(s("C"), s("A"), 1000);
    chain.add_transaction(s("C"), s("D"), 1);
    chain.add_transaction(s("C"), s("A"), 87);
    let results = chain.tick(SETTLEMENT_INTERVAL).unwrap();
    assert_eq!(
        results,
        vec![
            Ok(()),
            Ok(()),
            Err(LedgerError::InsufficientFunds),
            Err(LedgerError::AccountNotFound(s("D"))),
            Ok(())
        ]
    );
    assert_eq!(total(&chain, &["A", "B", "C"]), before);
    assert_eq!(chain.get_balance(&s("A")), Ok(157));
    assert_eq!(chain.get_balance(&s("B")), Ok(0));
    assert_eq!(chain.get_balance(&s("C")), Ok(0));
    assert_eq!(chain.get_blocks()[0].get_transfers().len(), 3);
}

#[test]
fn operations_apply_in_submission_order() {
    let mut chain = Blockchain::new();
    chain.add_transaction(s("A"), s("B"), 1);
    chain.create_account(s("A"), 1);
    chain.create_account(s("B"), 0);
    chain.add_transaction(s("A"), s("B"), 1);
    assert_eq!(chain.pending_count(), 4);
    assert_eq!(chain.process_next(), Some(Err(LedgerError::AccountNotFound(s("A")))));
    assert_eq!(chain.pending_count(), 3);
    assert_eq!(chain.process_pending(), vec![Ok(()), Ok(()), Ok(())]);
    assert_eq!(chain.process_next(), None);
    assert_eq!(chain.get_balance(&s("B")), Ok(1));
}

#[test]
fn balance_of_unknown_account() {
    let chain = Blockchain::new();
    assert_eq!(chain.get_balance(&s("nobody")), Err(LedgerError::AccountNotFound(s("nobody"))));
}
