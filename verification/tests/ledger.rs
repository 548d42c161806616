use ledger_service::fault::LedgerError;
use ledger_service::ledger::Ledger;

#[test]
fn verify_admin_compares_exactly() {
    let ledger = Ledger::new("sesame".to_string());
    assert_eq!(ledger.verify_admin("sesame"), Ok(()));
    assert_eq!(ledger.verify_admin("Sesame"), Err(LedgerError::Unauthorized));
    assert_eq!(ledger.verify_admin("sesame "), Err(LedgerError::Unauthorized));
    assert_eq!(ledger.verify_admin("sesam"), Err(LedgerError::Unauthorized));
    assert_eq!(ledger.verify_admin(""), Err(LedgerError::Unauthorized));
}

#[test]
fn new_ledger_has_no_accounts() {
    let ledger = Ledger::new("k".to_string());
    assert_eq!(ledger.read_balance("alice"), Err(LedgerError::AccountNotFound));
    assert_eq!(ledger.read_balance("k"), Err(LedgerError::AccountNotFound));
}

#[test]
fn create_account_starts_at_zero_and_refuses_a_second() {
    let mut ledger = Ledger::new("k".to_string());
    assert_eq!(ledger.create_account("alice"), Ok(()));
    assert_eq!(ledger.read_balance("alice"), Ok(0));
    assert_eq!(ledger.adjust_balance("alice", 12), Ok(()));
    assert_eq!(ledger.create_account("alice"), Err(LedgerError::AccountExists));
    assert_eq!(ledger.read_balance("alice"), Ok(12));
    assert_eq!(ledger.read_balance("bob"), Err(LedgerError::AccountNotFound));
}

#[test]
fn remove_account_returns_the_last_balance() {
    let mut ledger = Ledger::new("k".to_string());
    assert_eq!(ledger.remove_account("alice"), Err(LedgerError::AccountNotFound));
    assert_eq!(ledger.create_account("alice"), Ok(()));
    assert_eq!(ledger.create_account("bob"), Ok(()));
    assert_eq!(ledger.adjust_balance("alice", -40), Ok(()));
    assert_eq!(ledger.adjust_balance("bob", 2), Ok(()));
    assert_eq!(ledger.remove_account("alice"), Ok(-40));
    assert_eq!(ledger.read_balance("alice"), Err(LedgerError::AccountNotFound));
    assert_eq!(ledger.remove_account("alice"), Err(LedgerError::AccountNotFound));
    assert_eq!(ledger.read_balance("bob"), Ok(2));
}

#[test]
fn adjust_balance_adds_the_delta() {
    let mut ledger = Ledger::new("k".to_string());
    assert_eq!(ledger.adjust_balance("alice", 1), Err(LedgerError::AccountNotFound));
    assert_eq!(ledger.read_balance("alice"), Err(LedgerError::AccountNotFound));
    assert_eq!(ledger.create_account("alice"), Ok(()));
    assert_eq!(ledger.create_account("bob"), Ok(()));
    assert_eq!(ledger.adjust_balance("alice", 70), Ok(()));
    assert_eq!(ledger.adjust_balance("alice", -100), Ok(()));
    assert_eq!(ledger.adjust_balance("alice", 0), Ok(()));
    assert_eq!(ledger.read_balance("alice"), Ok(-30));
    assert_eq!(ledger.read_balance("bob"), Ok(0));
}

#[test]
fn adjust_balance_refuses_to_overflow() {
    let mut ledger = Ledger::new("k".to_string());
    assert_eq!(ledger.create_account("top"), Ok(()));
    assert_eq!(ledger.adjust_balance("top", i64::MAX), Ok(()));
    assert_eq!(ledger.adjust_balance("top", 1), Err(LedgerError::BalanceOverflow));
    assert_eq!(ledger.read_balance("top"), Ok(i64::MAX));
    assert_eq!(ledger.adjust_balance("top", -1), Ok(()));
    assert_eq!(ledger.read_balance("top"), Ok(i64::MAX - 1));

    assert_eq!(ledger.create_account("low"), Ok(()));
    assert_eq!(ledger.adjust_balance("low", i64::MIN), Ok(()));
    assert_eq!(ledger.adjust_balance("low", -1), Err(LedgerError::BalanceOverflow));
    assert_eq!(ledger.read_balance("low"), Ok(i64::MIN));
    assert_eq!(ledger.adjust_balance("low", i64::MAX), Ok(()));
    assert_eq!(ledger.read_balance("low"), Ok(-1));
}

#[test]
fn refused_deltas_add_nothing_to_the_sum() {
    let mut ledger = Ledger::new("k".to_string());
    assert_eq!(ledger.create_account("acc"), Ok(()));
    let deltas: [i64; 6] = [i64::MAX - 10, 7, 5, -20, 13, i64::MIN];
    let mut applied: i64 = 0;
    let mut refused = 0;
    for delta in deltas {
        match ledger.adjust_balance("acc", delta) {
            Ok(()) => applied += delta,
            Err(e) => {
                assert_eq!(e, LedgerError::BalanceOverflow);
                refused += 1;
            }
        }
        assert_eq!(ledger.read_balance("acc"), Ok(applied));
    }
    assert_eq!(refused, 1);
    assert_eq!(ledger.read_balance("acc"), Ok(-11));
}

#[test]
fn identifiers_are_compared_character_for_character() {
    let mut ledger = Ledger::new("k".to_string());
    assert_eq!(ledger.create_account("alice"), Ok(()));
    assert_eq!(ledger.create_account("Alice"), Ok(()));
    assert_eq!(ledger.create_account("alic\u{e9}"), Ok(()));
    assert_eq!(ledger.adjust_balance("Alice", 4), Ok(()));
    assert_eq!(ledger.read_balance("alice"), Ok(0));
    assert_eq!(ledger.read_balance("Alice"), Ok(4));
    assert_eq!(ledger.read_balance("alic\u{e9}"), Ok(0));
}

#[test]
fn errors_describe_themselves() {
    assert_eq!(LedgerError::Unauthorized.describe(), "unauthorized request");
    assert_eq!(LedgerError::AccountExists.describe(), "account already exists");
    assert_eq!(LedgerError::AccountNotFound.describe(), "no such account");
    assert_eq!(LedgerError::BalanceOverflow.describe(), "balance overflow/underflow");
    assert_eq!(LedgerError::MalformedRequest.describe(), "malformed request");
}
