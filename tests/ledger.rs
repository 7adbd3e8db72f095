use payments::account::Account;
use payments::amount::Amount;
use payments::bank::Bank;
use payments::transaction::transaction_error::{TransactionError, TransactionErrorKind};
use payments::transaction::transaction_type::TransactionType;
use payments::transaction::Transaction;
use rust_decimal::Decimal;
use std::str::FromStr;

fn decimal_str(decimal: &str) -> Amount {
    let d = Decimal::from_str(decimal).unwrap();
    Amount::from_parts(d.mantissa(), d.scale()).unwrap()
}

fn assert_balanced(account: &Account) {
    assert_eq!(
        account.total(),
        account.available().checked_add(account.held()).unwrap()
    );
}

fn add_deposits(bank: &mut Bank, client_id: u16, value: Amount, amount: u32, offset: u32) {
    for id in offset..offset + amount {
        bank.transact(Transaction::new_deposit(client_id, id, value));
    }
}

#[test]
fn main_test_new() {
    let mut bank = Bank::new();
    add_deposits(&mut bank, 1, decimal_str("10.0505"), 200_000, 0);
    add_deposits(&mut bank, 2, decimal_str("20.7836"), 500_000, 200_000);
    add_deposits(&mut bank, 3, decimal_str("25700.1234"), 100_000, 700_000);

    let accounts = bank.accounts();
    let account_1 = &accounts[&1];
    let expected = decimal_str("2010100");
    assert_eq!(expected, account_1.available());
    assert_eq!(Amount::zero(), account_1.held());
    assert_eq!(expected, account_1.total());

    let account_2 = &accounts[&2];
    let expected = decimal_str("10391800");
    assert_eq!(expected, account_2.available());
    assert_eq!(Amount::zero(), account_2.held());
    assert_eq!(expected, account_2.total());

    let account_3 = &accounts[&3];
    let expected = decimal_str("2570012340");
    assert_eq!(expected, account_3.available());
    assert_eq!(Amount::zero(), account_3.held());
    assert_eq!(expected, account_3.total());
}

#[test]
fn from_parts_rescales_exactly() {
    assert_eq!(1_005_050_000, Amount::from_parts(100_505, 4).unwrap().units());
    assert_eq!(-250_000_000, Amount::from_parts(-25, 1).unwrap().units());
    assert_eq!(12, Amount::from_parts(1_200, 10).unwrap().units());
    assert_eq!(0, Amount::from_parts(0, 28).unwrap().units());
    assert_eq!(7, Amount::from_parts(7, 8).unwrap().units());
}

#[test]
fn from_parts_refuses_to_round_or_overflow() {
    assert_eq!(None, Amount::from_parts(123, 10));
    assert_eq!(None, Amount::from_parts(-1, 9));
    assert_eq!(None, Amount::from_parts(i128::MAX, 0));
    assert_eq!(None, Amount::from_parts(i128::MIN, 7));
}

#[test]
fn amount_arithmetic_is_exact() {
    let a = Amount::from_units(7);
    let b = Amount::from_units(-3);
    assert_eq!(4, a.checked_add(b).unwrap().units());
    assert_eq!(10, a.checked_sub(b).unwrap().units());
    assert!(a.gt(&b));
    assert!(!b.gt(&a));
    assert!(!a.gt(&a));
    assert_eq!(None, Amount::from_units(i128::MAX).checked_add(a));
    assert_eq!(None, Amount::from_units(i128::MIN).checked_sub(a));
}

#[test]
fn error_kinds_and_messages() {
    let e = TransactionError::locked();
    assert_eq!(&TransactionErrorKind::Locked, e.kind());
    assert_eq!(
        "Account is locked, unable to process further transactions",
        e.message()
    );
    let e = TransactionError::new(TransactionErrorKind::Misc, "bad row");
    assert_eq!(&TransactionErrorKind::Misc, e.kind());
    assert_eq!("bad row", e.message());
    assert_eq!(
        &TransactionErrorKind::MustHaveAmount,
        Transaction::new_dispute(1, 1).amount().unwrap_err().kind()
    );
    assert_eq!(
        Amount::from_units(5),
        Transaction::new_deposit(1, 1, Amount::from_units(5)).amount().unwrap()
    );
}

#[test]
fn scenario_single_deposit() {
    let mut account = Account::new(1);
    account
        .transact(Transaction::new_deposit(1, 1, decimal_str("1.0")))
        .unwrap();
    assert_eq!(decimal_str("1.0"), account.available());
    assert_eq!(decimal_str("1.0"), account.total());
    assert_eq!(Amount::zero(), account.held());
    assert!(!account.locked());
}

#[test]
fn scenario_withdraw_everything() {
    let mut account = Account::new(1);
    account
        .transact(Transaction::new_deposit(1, 1, decimal_str("2.0")))
        .unwrap();
    account
        .transact(Transaction::new_withdrawal(1, 2, decimal_str("1.0")))
        .unwrap();
    account
        .transact(Transaction::new_withdrawal(1, 3, decimal_str("1.0")))
        .unwrap();
    assert_eq!(Amount::zero(), account.available());
    assert_eq!(Amount::zero(), account.total());
    assert_eq!(Amount::zero(), account.held());
}

#[test]
fn scenario_overdraft_rejected() {
    let mut account = Account::new(1);
    account
        .transact(Transaction::new_deposit(1, 1, decimal_str("2.0")))
        .unwrap();
    let err = account
        .transact(Transaction::new_withdrawal(1, 2, decimal_str("3.0")))
        .unwrap_err();
    assert_eq!(&TransactionErrorKind::NegativeBalance, err.kind());
    assert_eq!(decimal_str("2.0"), account.available());
    assert_eq!(decimal_str("2.0"), account.total());
    assert_eq!(None, account.transaction(2));
}

#[test]
fn scenario_chargeback_locks() {
    let mut account = Account::new(1);
    account
        .transact(Transaction::new_deposit(1, 1, decimal_str("2.0")))
        .unwrap();
    account.transact(Transaction::new_dispute(1, 1)).unwrap();
    account.transact(Transaction::new_chargeback(1, 1)).unwrap();
    assert_eq!(Amount::zero(), account.available());
    assert_eq!(Amount::zero(), account.total());
    assert_eq!(Amount::zero(), account.held());
    assert!(account.locked());
}

#[test]
fn scenario_withdrawal_not_disputable() {
    let mut account = Account::new(1);
    account
        .transact(Transaction::new_deposit(1, 1, decimal_str("2.0")))
        .unwrap();
    account
        .transact(Transaction::new_withdrawal(1, 2, decimal_str("1.0")))
        .unwrap();
    let err = account.transact(Transaction::new_dispute(1, 2)).unwrap_err();
    assert_eq!(&TransactionErrorKind::NoWithdrawalDisputes, err.kind());
    assert_eq!(decimal_str("1.0"), account.available());
    assert_eq!(decimal_str("1.0"), account.total());
    assert_eq!(Amount::zero(), account.held());
}

#[test]
fn scenario_shared_id_across_clients_dropped() {
    let mut bank = Bank::new();
    bank.transact(Transaction::new_deposit(1, 5, decimal_str("3.0")));
    bank.transact(Transaction::new_deposit(2, 5, decimal_str("4.0")));
    let accounts = bank.accounts();
    assert_eq!(decimal_str("3.0"), accounts[&1].available());
    assert_eq!(decimal_str("3.0"), accounts[&1].total());
    assert!(accounts.get(&2).is_none());
}

#[test]
fn balance_identity_after_every_record() {
    let mut account = Account::new(4);
    let records = vec![
        Transaction::new_deposit(4, 1, decimal_str("5.5")),
        Transaction::new_deposit(4, 2, decimal_str("1.25")),
        Transaction::new_dispute(4, 1),
        Transaction::new_withdrawal(4, 3, decimal_str("1.0")),
        Transaction::new_withdrawal(4, 4, decimal_str("9.0")),
        Transaction::new_resolve(4, 1),
        Transaction::new_dispute(4, 2),
        Transaction::new_chargeback(4, 2),
        Transaction::new_deposit(4, 5, decimal_str("1.0")),
    ];
    for record in records {
        let _ = account.transact(record);
        assert_balanced(&account);
    }
    assert_eq!(decimal_str("4.5"), account.available());
    assert_eq!(decimal_str("4.5"), account.total());
    assert!(account.locked());
}

#[test]
fn dispute_round_trip_restores_balances() {
    let mut account = Account::new(1);
    account
        .transact(Transaction::new_deposit(1, 1, decimal_str("0.0001")))
        .unwrap();
    account
        .transact(Transaction::new_deposit(1, 2, decimal_str("7.1234")))
        .unwrap();
    let before = (account.available(), account.held(), account.total());
    account.transact(Transaction::new_dispute(1, 2)).unwrap();
    assert_eq!(decimal_str("7.1234"), account.held());
    account.transact(Transaction::new_resolve(1, 2)).unwrap();
    assert_eq!(before, (account.available(), account.held(), account.total()));
}

#[test]
fn lock_rejects_later_records() {
    let mut account = Account::new(1);
    account
        .transact(Transaction::new_deposit(1, 1, decimal_str("2")))
        .unwrap();
    account
        .transact(Transaction::new_deposit(1, 2, decimal_str("3")))
        .unwrap();
    account.transact(Transaction::new_dispute(1, 1)).unwrap();
    account.transact(Transaction::new_chargeback(1, 1)).unwrap();
    let err = account
        .transact(Transaction::new_deposit(1, 3, decimal_str("1")))
        .unwrap_err();
    assert_eq!(&TransactionErrorKind::Locked, err.kind());
    let err = account.transact(Transaction::new_dispute(1, 2)).unwrap_err();
    assert_eq!(&TransactionErrorKind::Locked, err.kind());
    let err = account
        .transact(Transaction::new_deposit(2, 4, decimal_str("1")))
        .unwrap_err();
    assert_eq!(&TransactionErrorKind::IncorrectClient, err.kind());
    assert!(account.locked());
    assert_eq!(decimal_str("3"), account.available());
    assert_eq!(decimal_str("3"), account.total());
}

#[test]
fn repeated_and_malformed_records_rejected() {
    let mut account = Account::new(1);
    account
        .transact(Transaction::new_deposit(1, 1, decimal_str("2")))
        .unwrap();
    let err = account
        .transact(Transaction::new_deposit(1, 1, decimal_str("9")))
        .unwrap_err();
    assert_eq!(&TransactionErrorKind::AlreadyExists, err.kind());
    let err = account
        .transact(Transaction::new_withdrawal(1, 1, decimal_str("1")))
        .unwrap_err();
    assert_eq!(&TransactionErrorKind::AlreadyExists, err.kind());
    let no_amount = Transaction {
        t_type: TransactionType::Deposit,
        client_id: 1,
        id: 2,
        amount: None,
    };
    let err = account.transact(no_amount).unwrap_err();
    assert_eq!(&TransactionErrorKind::MustHaveAmount, err.kind());
    let err = account
        .transact(Transaction::new_deposit(2, 3, decimal_str("1")))
        .unwrap_err();
    assert_eq!(&TransactionErrorKind::IncorrectClient, err.kind());
    assert_eq!(decimal_str("2"), account.available());
    assert_eq!(None, account.transaction(2));
}

#[test]
fn overflowing_deposit_rejected() {
    let mut account = Account::new(1);
    account
        .transact(Transaction::new_deposit(1, 1, Amount::from_units(i128::MAX)))
        .unwrap();
    let err = account
        .transact(Transaction::new_deposit(1, 2, Amount::from_units(1)))
        .unwrap_err();
    assert_eq!(&TransactionErrorKind::Overflow, err.kind());
    assert_eq!(i128::MAX, account.total().units());
    assert_eq!(None, account.transaction(2));
}

#[test]
fn bank_routes_and_creates_accounts() {
    let mut bank = Bank::new();
    bank.transact(Transaction::new_dispute(7, 1));
    assert_eq!(Amount::zero(), bank.accounts()[&7].total());
    bank.transact(Transaction::new_deposit(7, 2, decimal_str("1.5")));
    bank.transact(Transaction::new_dispute(7, 2));
    let account = &bank.accounts()[&7];
    assert_eq!(7, account.client_id());
    assert_eq!(decimal_str("1.5"), account.held());
    assert_eq!(Amount::zero(), account.available());
    assert_eq!(1, bank.accounts().len());
}

#[test]
fn dispute_guard_compares_with_total() {
    let mut account = Account::new(1);
    account
        .transact(Transaction::new_deposit(1, 1, decimal_str("1")))
        .unwrap();
    account
        .transact(Transaction::new_deposit(1, 2, decimal_str("1")))
        .unwrap();
    account.transact(Transaction::new_dispute(1, 1)).unwrap();
    account
        .transact(Transaction::new_withdrawal(1, 3, decimal_str("1")))
        .unwrap();
    account.transact(Transaction::new_dispute(1, 2)).unwrap();
    assert_eq!(decimal_str("-1"), account.available());
    assert_eq!(decimal_str("2"), account.held());
    assert_eq!(decimal_str("1"), account.total());
    assert_balanced(&account);
}
