use token_ledger::ledger::{Ledger, LedgerError, LedgerEvent};

#[test]
fn fresh_ledger_reads_zero() {
    let l = Ledger::new();
    assert_eq!(l.balance_of(42), 0);
    assert_eq!(l.allowance(5, 6), 0);
    assert!(!l.issued);
    assert_eq!(l.events.len(), 0);
}

#[test]
fn init_issues_supply_to_caller() {
    let mut l = Ledger::new();
    let r = l.init(1, b"Token".to_vec(), b"TOK".to_vec(), 1000);
    assert_eq!(r, Ok(()));
    assert!(l.issued);
    assert_eq!(l.balance_of(1), 1000);
    assert_eq!(l.balance_of(2), 0);
    let t = l.token_details();
    assert_eq!(t.name, b"Token".to_vec());
    assert_eq!(t.ticker, b"TOK".to_vec());
    assert_eq!(t.total_supply, 1000);
    // No event is emitted for issuance.
    assert_eq!(l.events.len(), 0);
}

#[test]
fn init_rejects_long_name() {
    let mut l = Ledger::new();
    let r = l.init(1, vec![0u8; 65], b"TOK".to_vec(), 1000);
    assert_eq!(r, Err(LedgerError::InvalidMetadata));
    assert!(!l.issued);
    assert_eq!(l.balance_of(1), 0);
}

#[test]
fn init_rejects_long_ticker() {
    let mut l = Ledger::new();
    let r = l.init(1, b"Token".to_vec(), vec![0u8; 33], 1000);
    assert_eq!(r, Err(LedgerError::InvalidMetadata));
    assert!(!l.issued);
    assert_eq!(l.balance_of(1), 0);
}

#[test]
fn init_rejects_reissuance() {
    let mut l = Ledger::new();
    assert_eq!(l.init(1, b"Token".to_vec(), b"TOK".to_vec(), 1000), Ok(()));
    let r = l.init(2, b"Other".to_vec(), b"OTH".to_vec(), 5);
    assert_eq!(r, Err(LedgerError::AlreadyIssued));
    assert_eq!(l.balance_of(1), 1000);
    assert_eq!(l.balance_of(2), 0);
    assert_eq!(l.token_details().total_supply, 1000);
}

#[test]
fn transfer_fails_closed_on_insufficient_balance() {
    let mut l = Ledger::new();
    assert_eq!(l.init(1, b"Token".to_vec(), b"TOK".to_vec(), 100), Ok(()));
    let r = l.transfer(1, 2, 150);
    assert_eq!(r, Err(LedgerError::InsufficientBalance));
    // Atomicity on failure: both balances and the event log are untouched.
    assert_eq!(l.balance_of(1), 100);
    assert_eq!(l.balance_of(2), 0);
    assert_eq!(l.events.len(), 0);
}

#[test]
fn transfer_of_zero_succeeds() {
    let mut l = Ledger::new();
    assert_eq!(l.init(1, b"Token".to_vec(), b"TOK".to_vec(), 100), Ok(()));
    assert_eq!(l.transfer(2, 3, 0), Ok(()));
    assert_eq!(l.balance_of(2), 0);
    assert_eq!(l.balance_of(3), 0);
    assert_eq!(
        l.events[0],
        LedgerEvent::Transfer { from: 2, to: 3, value: 0 }
    );
}

#[test]
fn self_transfer_is_neutral() {
    let mut l = Ledger::new();
    assert_eq!(l.init(1, b"Token".to_vec(), b"TOK".to_vec(), 1000), Ok(()));
    assert_eq!(l.transfer(1, 1, 400), Ok(()));
    assert_eq!(l.balance_of(1), 1000);
    assert_eq!(
        l.events[0],
        LedgerEvent::Transfer { from: 1, to: 1, value: 400 }
    );
}

#[test]
fn maximal_self_transfer_hits_overflow_guard() {
    // The receiver-side check reads the pre-state balance even when sender
    // and receiver coincide: a maximal balance plus itself would wrap, so
    // the operation fails closed and mutates nothing.
    let mut l = Ledger::new();
    assert_eq!(l.init(1, b"Token".to_vec(), b"TOK".to_vec(), u64::MAX), Ok(()));
    let r = l.transfer(1, 1, u64::MAX);
    assert_eq!(r, Err(LedgerError::ArithmeticOverflow));
    assert_eq!(l.balance_of(1), u64::MAX);
    assert_eq!(l.events.len(), 0);
}

#[test]
fn balances_stay_in_range_after_adversarial_values() {
    // Non-negativity under the maximum representable supply: every balance
    // read back is a valid unsigned value with the expected magnitude.
    let mut l = Ledger::new();
    assert_eq!(l.init(1, b"Token".to_vec(), b"TOK".to_vec(), u64::MAX), Ok(()));
    assert_eq!(l.transfer(1, 2, u64::MAX), Ok(()));
    assert_eq!(l.balance_of(1), 0);
    assert_eq!(l.balance_of(2), u64::MAX);
    assert_eq!(l.transfer(2, 1, 1), Ok(()));
    assert_eq!(l.balance_of(1), 1);
    assert_eq!(l.balance_of(2), u64::MAX - 1);
}

#[test]
fn approve_accumulates() {
    let mut l = Ledger::new();
    assert_eq!(l.init(1, b"Token".to_vec(), b"TOK".to_vec(), 1000), Ok(()));
    assert_eq!(l.approve(1, 2, 70), Ok(()));
    assert_eq!(l.approve(1, 2, 50), Ok(()));
    // Additive semantics: the second approval adds to the first.
    assert_eq!(l.allowance(1, 2), 120);
    assert_eq!(l.balance_of(1), 1000);
    assert_eq!(
        l.events[1],
        LedgerEvent::Approval { owner: 1, spender: 2, value: 50 }
    );
}

#[test]
fn approve_overflow_leaves_allowance_untouched() {
    let mut l = Ledger::new();
    assert_eq!(l.init(1, b"Token".to_vec(), b"TOK".to_vec(), u64::MAX), Ok(()));
    assert_eq!(l.approve(1, 2, u64::MAX), Ok(()));
    let r = l.approve(1, 2, 1);
    assert_eq!(r, Err(LedgerError::ArithmeticOverflow));
    assert_eq!(l.allowance(1, 2), u64::MAX);
    assert_eq!(l.events.len(), 1);
}

#[test]
fn delegated_transfer_boundary_reports_balance_not_allowance() {
    let mut l = Ledger::new();
    assert_eq!(l.init(1, b"Token".to_vec(), b"TOK".to_vec(), 50), Ok(()));
    assert_eq!(l.approve(1, 2, 100), Ok(()));
    // Allowance covers 60 but the owner's balance does not: the balance
    // check decides, and neither store moves.
    let r = l.transfer_from(2, 1, 3, 60);
    assert_eq!(r, Err(LedgerError::InsufficientBalance));
    assert_eq!(l.balance_of(1), 50);
    assert_eq!(l.allowance(1, 2), 100);
    assert_eq!(l.events.len(), 1);
}

#[test]
fn delegated_transfer_rejects_insufficient_allowance() {
    let mut l = Ledger::new();
    assert_eq!(l.init(1, b"Token".to_vec(), b"TOK".to_vec(), 1000), Ok(()));
    assert_eq!(l.approve(1, 2, 10), Ok(()));
    let r = l.transfer_from(2, 1, 3, 20);
    assert_eq!(r, Err(LedgerError::InsufficientAllowance));
    assert_eq!(l.balance_of(1), 1000);
    assert_eq!(l.allowance(1, 2), 10);
}

#[test]
fn end_to_end_scenario() {
    let mut l = Ledger::new();
    assert_eq!(l.init(1, b"Token".to_vec(), b"TOK".to_vec(), 1000), Ok(()));
    assert_eq!(l.transfer(1, 2, 300), Ok(()));
    assert_eq!(l.balance_of(1), 700);
    assert_eq!(l.balance_of(2), 300);
    assert_eq!(l.approve(1, 3, 200), Ok(()));
    assert_eq!(l.allowance(1, 3), 200);
    assert_eq!(l.transfer_from(3, 1, 4, 150), Ok(()));
    assert_eq!(l.allowance(1, 3), 50);
    assert_eq!(l.balance_of(1), 550);
    assert_eq!(l.balance_of(4), 150);
    // Conservation: the four balances sum to the issued supply.
    assert_eq!(
        l.balance_of(1) + l.balance_of(2) + l.balance_of(3) + l.balance_of(4),
        1000
    );
    // The observable event history, in operation order; the delegated
    // transfer records the consumed allowance and then the transfer.
    assert_eq!(
        l.events,
        vec![
            LedgerEvent::Transfer { from: 1, to: 2, value: 300 },
            LedgerEvent::Approval { owner: 1, spender: 3, value: 200 },
            LedgerEvent::Approval { owner: 1, spender: 3, value: 150 },
            LedgerEvent::Transfer { from: 1, to: 4, value: 150 },
        ]
    );
}
