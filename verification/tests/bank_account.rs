use rust_study::bank_account::Account;

#[test]
fn new_account_is_empty_and_named() {
    let acc = Account::new(String::from("Alice"));
    assert_eq!(acc.owner(), "Alice");
    assert_eq!(acc.balance(), 0);
}

#[test]
fn deposit_then_withdraw_as_in_the_demo() {
    let mut acc = Account::new(String::from("Alice"));
    acc.deposit(100);
    assert_eq!(acc.balance(), 100);
    assert!(acc.withdraw(30));
    assert_eq!(acc.balance(), 70);
}

#[test]
fn non_positive_deposit_is_ignored() {
    let mut acc = Account::new(String::from("Bob"));
    acc.deposit(0);
    acc.deposit(-5);
    assert_eq!(acc.balance(), 0);
}

#[test]
fn overdraft_is_refused_and_changes_nothing() {
    let mut acc = Account::new(String::from("Bob"));
    acc.deposit(50);
    assert!(!acc.withdraw(51));
    assert_eq!(acc.balance(), 50);
    assert!(!acc.withdraw(0));
    assert!(!acc.withdraw(-1));
    assert_eq!(acc.balance(), 50);
}

#[test]
fn withdrawing_the_whole_balance_leaves_zero() {
    let mut acc = Account::new(String::from("Carol"));
    acc.deposit(40);
    assert!(acc.withdraw(40));
    assert_eq!(acc.balance(), 0);
    assert!(!acc.withdraw(1));
}

#[test]
fn deposit_then_withdraw_restores_balance() {
    let mut acc = Account::new(String::from("Dan"));
    acc.deposit(25);
    acc.deposit(17);
    assert!(acc.withdraw(17));
    assert_eq!(acc.balance(), 25);
}

#[test]
fn balance_never_negative_after_many_attempts() {
    let mut acc = Account::new(String::from("Eve"));
    acc.deposit(10);
    for amount in [3, 20, 7, 1, 5, i32::MAX] {
        acc.withdraw(amount);
        assert!(acc.balance() >= 0);
    }
    assert_eq!(acc.balance(), 0);
}

#[test]
fn deposit_up_to_the_limit() {
    let mut acc = Account::new(String::from("Max"));
    acc.deposit(i32::MAX);
    assert_eq!(acc.balance(), i32::MAX);
}

#[test]
fn balance_is_accepted_deposits_minus_accepted_withdrawals() {
    let mut acc = Account::new(String::from("Sum"));
    let (mut deposited, mut withdrawn) = (0, 0);
    for (deposit, withdraw) in [(50, 20), (-5, 100), (0, 30), (7, 0), (3, 10)] {
        acc.deposit(deposit);
        if deposit > 0 {
            deposited += deposit;
        }
        if acc.withdraw(withdraw) {
            withdrawn += withdraw;
        }
        assert_eq!(acc.balance(), deposited - withdrawn);
        assert_eq!(acc.owner(), "Sum");
    }
    assert_eq!(acc.balance(), 0);
}
