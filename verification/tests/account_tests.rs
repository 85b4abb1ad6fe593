use payments_engine::account::{Account, AccountError};
use payments_engine::transaction::{AccountTransactionInput, TransactionId, TransactionType};
use payments_engine::types::{Amount, Balance, ClientId, SCALE};

fn amount(val: f64) -> Amount {
    let scaled = (val * SCALE as f64).round() as u64;
    Amount::new(scaled).unwrap()
}

fn tx_id(id: u32) -> TransactionId {
    TransactionId(id)
}

fn deposit(tx: u32, val: f64) -> AccountTransactionInput {
    AccountTransactionInput {
        client_id: ClientId(1),
        transaction_type: TransactionType::Deposit {
            amount: amount(val),
        },
        transaction_id: tx_id(tx),
    }
}

fn withdrawal(tx: u32, val: f64) -> AccountTransactionInput {
    AccountTransactionInput {
        client_id: ClientId(1),
        transaction_type: TransactionType::Withdraw {
            amount: amount(val),
        },
        transaction_id: tx_id(tx),
    }
}

fn dispute(tx: u32) -> AccountTransactionInput {
    AccountTransactionInput {
        client_id: ClientId(1),
        transaction_type: TransactionType::Dispute,
        transaction_id: tx_id(tx),
    }
}

fn resolve(tx: u32) -> AccountTransactionInput {
    AccountTransactionInput {
        client_id: ClientId(1),
        transaction_type: TransactionType::Resolve,
        transaction_id: tx_id(tx),
    }
}

fn chargeback(tx: u32) -> AccountTransactionInput {
    AccountTransactionInput {
        client_id: ClientId(1),
        transaction_type: TransactionType::Chargeback,
        transaction_id: tx_id(tx),
    }
}

fn bal(val: f64) -> u128 {
    (val * SCALE as f64).round() as u128
}

// --- Deposit ---

#[test]
fn deposit_increases_available_and_total() {
    let mut acct = Account::new(ClientId(1));
    acct.handle_transaction(&deposit(1, 10.0)).unwrap();
    assert_eq!(acct.available_balance.0, bal(10.0));
    assert_eq!(acct.total_balance.0, bal(10.0));
    assert_eq!(acct.held_balance.0, 0);
}

#[test]
fn multiple_deposits_accumulate() {
    let mut acct = Account::new(ClientId(1));
    acct.handle_transaction(&deposit(1, 10.0)).unwrap();
    acct.handle_transaction(&deposit(2, 20.5)).unwrap();
    assert_eq!(acct.available_balance.0, bal(30.5));
    assert_eq!(acct.total_balance.0, bal(30.5));
}

#[test]
fn deposit_with_four_decimal_places() {
    let mut acct = Account::new(ClientId(1));
    acct.handle_transaction(&deposit(1, 1.2345)).unwrap();
    assert_eq!(acct.available_balance.0, bal(1.2345));
}

// --- Withdrawal ---

#[test]
fn withdrawal_decreases_available_and_total() {
    let mut acct = Account::new(ClientId(1));
    acct.handle_transaction(&deposit(1, 20.0)).unwrap();
    acct.handle_transaction(&withdrawal(2, 8.0)).unwrap();
    assert_eq!(acct.available_balance.0, bal(12.0));
    assert_eq!(acct.total_balance.0, bal(12.0));
}

#[test]
fn withdrawal_insufficient_funds_returns_error() {
    let mut acct = Account::new(ClientId(1));
    acct.handle_transaction(&deposit(1, 5.0)).unwrap();
    let result = acct.handle_transaction(&withdrawal(2, 10.0));
    assert!(matches!(
        result,
        Err(AccountError::InsufficientAvailableFunds { .. })
    ));
    assert_eq!(acct.available_balance.0, bal(5.0));
    assert_eq!(acct.total_balance.0, bal(5.0));
}

#[test]
fn withdrawal_exact_balance_succeeds() {
    let mut acct = Account::new(ClientId(1));
    acct.handle_transaction(&deposit(1, 5.0)).unwrap();
    acct.handle_transaction(&withdrawal(2, 5.0)).unwrap();
    assert_eq!(acct.available_balance.0, 0);
    assert_eq!(acct.total_balance.0, 0);
}

// --- Dispute ---

#[test]
fn dispute_moves_available_to_held() {
    let mut acct = Account::new(ClientId(1));
    acct.handle_transaction(&deposit(1, 10.0)).unwrap();
    acct.handle_transaction(&dispute(1)).unwrap();
    assert_eq!(acct.available_balance.0, 0);
    assert_eq!(acct.held_balance.0, bal(10.0));
    assert_eq!(acct.total_balance.0, bal(10.0));
}

#[test]
fn dispute_insufficient_available_returns_error() {
    let mut acct = Account::new(ClientId(1));
    acct.handle_transaction(&deposit(1, 10.0)).unwrap();
    acct.handle_transaction(&withdrawal(2, 8.0)).unwrap();
    let result = acct.handle_transaction(&dispute(1));
    assert!(matches!(
        result,
        Err(AccountError::InsufficientAvailableFunds { .. })
    ));
    assert_eq!(acct.available_balance.0, bal(2.0));
    assert_eq!(acct.held_balance.0, 0);
}

#[test]
fn dispute_nonexistent_tx_returns_error() {
    let mut acct = Account::new(ClientId(1));
    acct.handle_transaction(&deposit(1, 10.0)).unwrap();
    let result = acct.handle_transaction(&dispute(99));
    assert!(matches!(
        result,
        Err(AccountError::InvalidStateTransition { .. })
    ));
}

#[test]
fn dispute_on_withdrawal_returns_error() {
    let mut acct = Account::new(ClientId(1));
    acct.handle_transaction(&deposit(1, 10.0)).unwrap();
    acct.handle_transaction(&withdrawal(2, 5.0)).unwrap();
    let result = acct.handle_transaction(&dispute(2));
    assert!(matches!(
        result,
        Err(AccountError::InvalidStateTransition { .. })
    ));
}

#[test]
fn double_dispute_returns_error() {
    let mut acct = Account::new(ClientId(1));
    acct.handle_transaction(&deposit(1, 10.0)).unwrap();
    acct.handle_transaction(&dispute(1)).unwrap();
    let result = acct.handle_transaction(&dispute(1));
    assert!(matches!(
        result,
        Err(AccountError::InvalidStateTransition { .. })
    ));
}

// --- Resolve ---

#[test]
fn resolve_moves_held_back_to_available() {
    let mut acct = Account::new(ClientId(1));
    acct.handle_transaction(&deposit(1, 10.0)).unwrap();
    acct.handle_transaction(&dispute(1)).unwrap();
    acct.handle_transaction(&resolve(1)).unwrap();
    assert_eq!(acct.available_balance.0, bal(10.0));
    assert_eq!(acct.held_balance.0, 0);
    assert_eq!(acct.total_balance.0, bal(10.0));
}

#[test]
fn resolve_without_dispute_returns_error() {
    let mut acct = Account::new(ClientId(1));
    acct.handle_transaction(&deposit(1, 10.0)).unwrap();
    let result = acct.handle_transaction(&resolve(1));
    assert!(matches!(
        result,
        Err(AccountError::InvalidStateTransition { .. })
    ));
}

#[test]
fn resolve_nonexistent_tx_returns_error() {
    let mut acct = Account::new(ClientId(1));
    let result = acct.handle_transaction(&resolve(99));
    assert!(matches!(
        result,
        Err(AccountError::InvalidStateTransition { .. })
    ));
}

// --- Chargeback ---

#[test]
fn chargeback_decreases_held_and_total_and_freezes() {
    let mut acct = Account::new(ClientId(1));
    acct.handle_transaction(&deposit(1, 10.0)).unwrap();
    acct.handle_transaction(&dispute(1)).unwrap();
    acct.handle_transaction(&chargeback(1)).unwrap();
    assert_eq!(acct.available_balance.0, 0);
    assert_eq!(acct.held_balance.0, 0);
    assert_eq!(acct.total_balance.0, 0);
    assert!(acct.account_state.is_locked());
}

#[test]
fn chargeback_without_dispute_returns_error() {
    let mut acct = Account::new(ClientId(1));
    acct.handle_transaction(&deposit(1, 10.0)).unwrap();
    let result = acct.handle_transaction(&chargeback(1));
    assert!(matches!(
        result,
        Err(AccountError::InvalidStateTransition { .. })
    ));
    assert!(!acct.account_state.is_locked());
}

#[test]
fn chargeback_nonexistent_tx_returns_error() {
    let mut acct = Account::new(ClientId(1));
    let result = acct.handle_transaction(&chargeback(99));
    assert!(matches!(
        result,
        Err(AccountError::InvalidStateTransition { .. })
    ));
    assert!(!acct.account_state.is_locked());
}

// --- Frozen account ---

#[test]
fn frozen_account_rejects_deposit() {
    let mut acct = Account::new(ClientId(1));
    acct.handle_transaction(&deposit(1, 10.0)).unwrap();
    acct.handle_transaction(&dispute(1)).unwrap();
    acct.handle_transaction(&chargeback(1)).unwrap();
    let result = acct.handle_transaction(&deposit(2, 5.0));
    assert!(matches!(result, Err(AccountError::AccountFrozen { .. })));
}

#[test]
fn frozen_account_rejects_withdrawal() {
    let mut acct = Account::new(ClientId(1));
    acct.handle_transaction(&deposit(1, 20.0)).unwrap();
    acct.handle_transaction(&deposit(2, 10.0)).unwrap();
    acct.handle_transaction(&dispute(1)).unwrap();
    acct.handle_transaction(&chargeback(1)).unwrap();
    let result = acct.handle_transaction(&withdrawal(3, 5.0));
    assert!(matches!(result, Err(AccountError::AccountFrozen { .. })));
}

// --- Client ID mismatch ---

#[test]
fn wrong_client_id_returns_error() {
    let mut acct = Account::new(ClientId(1));
    let wrong_client = AccountTransactionInput {
        client_id: ClientId(2),
        transaction_type: TransactionType::Deposit {
            amount: amount(10.0),
        },
        transaction_id: tx_id(1),
    };
    let result = acct.handle_transaction(&wrong_client);
    assert!(matches!(result, Err(AccountError::InvalidClientId { .. })));
}

// --- Duplicate tx ID ---

#[test]
fn duplicate_deposit_tx_id_rejected() {
    let mut acct = Account::new(ClientId(1));
    acct.handle_transaction(&deposit(1, 10.0)).unwrap();
    let result = acct.handle_transaction(&deposit(1, 5.0));
    assert!(matches!(
        result,
        Err(AccountError::InvalidStateTransition { .. })
    ));
    assert_eq!(acct.available_balance.0, bal(10.0));
}

// --- CSV output ---

#[test]
fn to_csv_row_format() {
    let mut acct = Account::new(ClientId(1));
    acct.handle_transaction(&deposit(1, 1.5)).unwrap();
    let row = acct.to_csv_row();
    assert_eq!(row, "1,1.5000,0.0000,1.5000,false");
}

#[test]
fn to_csv_row_frozen() {
    let mut acct = Account::new(ClientId(1));
    acct.handle_transaction(&deposit(1, 10.0)).unwrap();
    acct.handle_transaction(&dispute(1)).unwrap();
    acct.handle_transaction(&chargeback(1)).unwrap();
    let row = acct.to_csv_row();
    assert_eq!(row, "1,0.0000,0.0000,0.0000,true");
}

// --- Full lifecycle ---

#[test]
fn deposit_dispute_resolve_cycle() {
    let mut acct = Account::new(ClientId(1));
    acct.handle_transaction(&deposit(1, 50.0)).unwrap();
    acct.handle_transaction(&dispute(1)).unwrap();
    assert_eq!(acct.available_balance.0, 0);
    assert_eq!(acct.held_balance.0, bal(50.0));
    acct.handle_transaction(&resolve(1)).unwrap();
    assert_eq!(acct.available_balance.0, bal(50.0));
    assert_eq!(acct.held_balance.0, 0);
    assert!(!acct.account_state.is_locked());
}

#[test]
fn partial_dispute_with_remaining_balance() {
    let mut acct = Account::new(ClientId(1));
    acct.handle_transaction(&deposit(1, 30.0)).unwrap();
    acct.handle_transaction(&deposit(2, 20.0)).unwrap();
    acct.handle_transaction(&dispute(1)).unwrap();
    assert_eq!(acct.available_balance.0, bal(20.0));
    assert_eq!(acct.held_balance.0, bal(30.0));
    assert_eq!(acct.total_balance.0, bal(50.0));
}

// --- State machine: invalid transitions ---

#[test]
fn resolve_on_deposit_complete_is_invalid() {
    let mut acct = Account::new(ClientId(1));
    acct.handle_transaction(&deposit(1, 10.0)).unwrap();
    let result = acct.handle_transaction(&resolve(1));
    assert!(matches!(
        result,
        Err(AccountError::InvalidStateTransition { .. })
    ));
    assert_eq!(acct.available_balance.0, bal(10.0));
    assert_eq!(acct.held_balance.0, 0);
}

#[test]
fn chargeback_on_deposit_complete_is_invalid() {
    let mut acct = Account::new(ClientId(1));
    acct.handle_transaction(&deposit(1, 10.0)).unwrap();
    let result = acct.handle_transaction(&chargeback(1));
    assert!(matches!(
        result,
        Err(AccountError::InvalidStateTransition { .. })
    ));
    assert!(!acct.account_state.is_locked());
    assert_eq!(acct.available_balance.0, bal(10.0));
}

#[test]
fn dispute_on_withdrawal_complete_is_invalid() {
    let mut acct = Account::new(ClientId(1));
    acct.handle_transaction(&deposit(1, 10.0)).unwrap();
    acct.handle_transaction(&withdrawal(2, 5.0)).unwrap();
    let result = acct.handle_transaction(&dispute(2));
    assert!(matches!(
        result,
        Err(AccountError::InvalidStateTransition { .. })
    ));
    assert_eq!(acct.available_balance.0, bal(5.0));
    assert_eq!(acct.held_balance.0, 0);
}

#[test]
fn resolve_on_withdrawal_complete_is_invalid() {
    let mut acct = Account::new(ClientId(1));
    acct.handle_transaction(&deposit(1, 10.0)).unwrap();
    acct.handle_transaction(&withdrawal(2, 5.0)).unwrap();
    let result = acct.handle_transaction(&resolve(2));
    assert!(matches!(
        result,
        Err(AccountError::InvalidStateTransition { .. })
    ));
}

#[test]
fn chargeback_on_withdrawal_complete_is_invalid() {
    let mut acct = Account::new(ClientId(1));
    acct.handle_transaction(&deposit(1, 10.0)).unwrap();
    acct.handle_transaction(&withdrawal(2, 5.0)).unwrap();
    let result = acct.handle_transaction(&chargeback(2));
    assert!(matches!(
        result,
        Err(AccountError::InvalidStateTransition { .. })
    ));
}

#[test]
fn deposit_on_existing_tx_id_is_invalid() {
    let mut acct = Account::new(ClientId(1));
    acct.handle_transaction(&deposit(1, 10.0)).unwrap();
    let result = acct.handle_transaction(&deposit(1, 20.0));
    assert!(matches!(
        result,
        Err(AccountError::InvalidStateTransition { .. })
    ));
    assert_eq!(acct.available_balance.0, bal(10.0));
}

#[test]
fn withdrawal_on_existing_deposit_tx_id_is_invalid() {
    let mut acct = Account::new(ClientId(1));
    acct.handle_transaction(&deposit(1, 10.0)).unwrap();
    let result = acct.handle_transaction(&withdrawal(1, 5.0));
    assert!(matches!(
        result,
        Err(AccountError::InvalidStateTransition { .. })
    ));
    assert_eq!(acct.available_balance.0, bal(10.0));
}

#[test]
fn dispute_on_resolved_tx_is_invalid() {
    let mut acct = Account::new(ClientId(1));
    acct.handle_transaction(&deposit(1, 10.0)).unwrap();
    acct.handle_transaction(&dispute(1)).unwrap();
    acct.handle_transaction(&resolve(1)).unwrap();
    // Tx is now Resolved — cannot re-dispute
    let result = acct.handle_transaction(&dispute(1));
    assert!(matches!(
        result,
        Err(AccountError::InvalidStateTransition { .. })
    ));
    assert_eq!(acct.available_balance.0, bal(10.0));
    assert_eq!(acct.held_balance.0, 0);
}

#[test]
fn resolve_on_chargebacked_tx_is_invalid() {
    let mut acct = Account::new(ClientId(2));
    acct.handle_transaction(&AccountTransactionInput {
        client_id: ClientId(2),
        transaction_type: TransactionType::Deposit {
            amount: amount(10.0),
        },
        transaction_id: tx_id(1),
    })
    .unwrap();
    acct.handle_transaction(&AccountTransactionInput {
        client_id: ClientId(2),
        transaction_type: TransactionType::Dispute,
        transaction_id: tx_id(1),
    })
    .unwrap();
    acct.handle_transaction(&AccountTransactionInput {
        client_id: ClientId(2),
        transaction_type: TransactionType::Chargeback,
        transaction_id: tx_id(1),
    })
    .unwrap();
    // Account is frozen, so any further tx returns AccountFrozen
    let result = acct.handle_transaction(&AccountTransactionInput {
        client_id: ClientId(2),
        transaction_type: TransactionType::Resolve,
        transaction_id: tx_id(1),
    });
    assert!(matches!(result, Err(AccountError::AccountFrozen { .. })));
}

#[test]
fn dispute_on_disputed_tx_is_invalid() {
    let mut acct = Account::new(ClientId(1));
    acct.handle_transaction(&deposit(1, 10.0)).unwrap();
    acct.handle_transaction(&dispute(1)).unwrap();
    let result = acct.handle_transaction(&dispute(1));
    assert!(matches!(
        result,
        Err(AccountError::InvalidStateTransition { .. })
    ));
}

#[test]
fn resolve_on_resolved_tx_is_invalid() {
    let mut acct = Account::new(ClientId(1));
    acct.handle_transaction(&deposit(1, 10.0)).unwrap();
    acct.handle_transaction(&dispute(1)).unwrap();
    acct.handle_transaction(&resolve(1)).unwrap();
    let result = acct.handle_transaction(&resolve(1));
    assert!(matches!(
        result,
        Err(AccountError::InvalidStateTransition { .. })
    ));
}

#[test]
fn chargeback_on_resolved_tx_is_invalid() {
    let mut acct = Account::new(ClientId(1));
    acct.handle_transaction(&deposit(1, 10.0)).unwrap();
    acct.handle_transaction(&dispute(1)).unwrap();
    acct.handle_transaction(&resolve(1)).unwrap();
    let result = acct.handle_transaction(&chargeback(1));
    assert!(matches!(
        result,
        Err(AccountError::InvalidStateTransition { .. })
    ));
}

// --- State machine: frozen account blocks all transition types ---

#[test]
fn frozen_account_rejects_dispute() {
    let mut acct = Account::new(ClientId(1));
    acct.handle_transaction(&deposit(1, 10.0)).unwrap();
    acct.handle_transaction(&deposit(2, 5.0)).unwrap();
    acct.handle_transaction(&dispute(1)).unwrap();
    acct.handle_transaction(&chargeback(1)).unwrap();
    let result = acct.handle_transaction(&dispute(2));
    assert!(matches!(result, Err(AccountError::AccountFrozen { .. })));
}

#[test]
fn frozen_account_rejects_resolve() {
    let mut acct = Account::new(ClientId(1));
    acct.handle_transaction(&deposit(1, 10.0)).unwrap();
    acct.handle_transaction(&dispute(1)).unwrap();
    acct.handle_transaction(&chargeback(1)).unwrap();
    let result = acct.handle_transaction(&resolve(1));
    assert!(matches!(result, Err(AccountError::AccountFrozen { .. })));
}

#[test]
fn resolve_insufficient_held_funds_returns_error() {
    let mut acct = Account::new(ClientId(1));
    acct.handle_transaction(&deposit(1, 10.0)).unwrap();
    acct.handle_transaction(&dispute(1)).unwrap();
    // Manually reduce held_balance to simulate insufficient held funds
    acct.held_balance = Balance(0);
    let result = acct.handle_transaction(&resolve(1));
    assert!(matches!(
        result,
        Err(AccountError::InsufficientHeldFunds { .. })
    ));
}

#[test]
fn chargeback_insufficient_held_funds_returns_error() {
    let mut acct = Account::new(ClientId(1));
    acct.handle_transaction(&deposit(1, 10.0)).unwrap();
    acct.handle_transaction(&dispute(1)).unwrap();
    // Manually reduce held_balance to simulate insufficient held funds
    acct.held_balance = Balance(0);
    let result = acct.handle_transaction(&chargeback(1));
    assert!(matches!(
        result,
        Err(AccountError::InsufficientHeldFunds { .. })
    ));
}

#[test]
fn frozen_account_rejects_chargeback() {
    let mut acct = Account::new(ClientId(1));
    acct.handle_transaction(&deposit(1, 10.0)).unwrap();
    acct.handle_transaction(&dispute(1)).unwrap();
    acct.handle_transaction(&chargeback(1)).unwrap();
    let result = acct.handle_transaction(&chargeback(1));
    assert!(matches!(result, Err(AccountError::AccountFrozen { .. })));
}

// --- Further cases ---

#[test]
fn wrong_client_id_error_names_both_clients() {
    let mut acct = Account::new(ClientId(7));
    let input = AccountTransactionInput {
        client_id: ClientId(8),
        transaction_type: TransactionType::Dispute,
        transaction_id: tx_id(3),
    };
    match acct.handle_transaction(&input) {
        Err(AccountError::InvalidClientId { expected, actual, transaction_id }) => {
            assert_eq!(expected, ClientId(7));
            assert_eq!(actual, ClientId(8));
            assert_eq!(transaction_id, tx_id(3));
        }
        other => panic!("unexpected {:?}", other),
    }
    assert_eq!(acct.to_csv_row(), "7,0.0000,0.0000,0.0000,false");
}

#[test]
fn insufficient_funds_error_reports_balances() {
    let mut acct = Account::new(ClientId(1));
    acct.handle_transaction(&deposit(1, 2.0)).unwrap();
    match acct.handle_transaction(&withdrawal(2, 3.0)) {
        Err(AccountError::InsufficientAvailableFunds { available, requested }) => {
            assert_eq!(available, Balance(bal(2.0)));
            assert_eq!(requested.get(), 30000);
        }
        other => panic!("unexpected {:?}", other),
    }
}

#[test]
fn resolve_after_dispute_restores_balances_exactly() {
    let mut acct = Account::new(ClientId(1));
    acct.handle_transaction(&deposit(1, 3.25)).unwrap();
    acct.handle_transaction(&deposit(2, 1.5)).unwrap();
    acct.handle_transaction(&withdrawal(3, 0.75)).unwrap();
    let before = acct.to_csv_row();
    acct.handle_transaction(&dispute(2)).unwrap();
    assert_eq!(acct.to_csv_row(), "1,2.5000,1.5000,4.0000,false");
    acct.handle_transaction(&resolve(2)).unwrap();
    assert_eq!(acct.to_csv_row(), before);
}

#[test]
fn total_is_available_plus_held_through_a_lifecycle() {
    let mut acct = Account::new(ClientId(1));
    let steps = vec![
        deposit(1, 10.0),
        deposit(2, 4.0),
        withdrawal(3, 3.0),
        dispute(2),
        withdrawal(4, 100.0),
        dispute(1),
        resolve(2),
        chargeback(1),
        deposit(5, 1.0),
    ];
    for step in steps.iter() {
        let _ = acct.handle_transaction(step);
        assert_eq!(
            acct.total_balance.0,
            acct.available_balance.0 + acct.held_balance.0
        );
    }
    assert_eq!(acct.to_csv_row(), "1,12.0000,0.0000,12.0000,false");
}

#[test]
fn invalid_transition_reports_current_state() {
    let mut acct = Account::new(ClientId(1));
    acct.handle_transaction(&deposit(1, 1.0)).unwrap();
    match acct.handle_transaction(&resolve(1)) {
        Err(AccountError::InvalidStateTransition { transaction_id, current_state, .. }) => {
            assert_eq!(transaction_id, tx_id(1));
            assert_eq!(
                current_state,
                Some(payments_engine::transaction::TransactionState::DepositComplete)
            );
        }
        other => panic!("unexpected {:?}", other),
    }
}

#[test]
fn client_id_getter() {
    let acct = Account::new(ClientId(42));
    assert_eq!(acct.client_id(), ClientId(42));
}

#[test]
fn balance_getters_match_fields() {
    let mut acct = Account::new(ClientId(1));
    acct.handle_transaction(&deposit(1, 3.0)).unwrap();
    acct.handle_transaction(&dispute(1)).unwrap();
    assert_eq!(acct.available_balance(), acct.available_balance);
    assert_eq!(acct.held_balance(), Balance(bal(3.0)));
    assert_eq!(acct.total_balance(), Balance(bal(3.0)));
    assert!(!acct.account_state().is_locked());
}
