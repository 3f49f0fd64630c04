//! Behaviour of a bank account, tested without an event store.

use event_sourcing::test::TestFramework;
use event_sourcing::{Aggregate, Handle};

#[derive(Debug, Clone, PartialEq, Eq)]
struct MoneyDeposited {
    amount: u64,
}

#[derive(Debug, Clone, PartialEq, Eq)]
struct MoneyWithdrawn {
    amount: u64,
}

#[derive(Debug, Clone, PartialEq, Eq)]
struct AccountOpened {
    initial_balance: u64,
}

#[derive(Debug, Clone, PartialEq, Eq)]
enum BankAccountEvent {
    Opened(AccountOpened),
    Deposited(MoneyDeposited),
    Withdrawn(MoneyWithdrawn),
}

#[derive(Debug, Default, PartialEq, Eq)]
struct BankAccount {
    balance: u64,
    is_open: bool,
}

impl Aggregate for BankAccount {
    const KIND: &'static str = "bank-account";
    type Event = BankAccountEvent;
    type Error = String;
    type Id = String;

    fn apply(&mut self, event: &Self::Event) {
        match event {
            BankAccountEvent::Opened(e) => {
                self.is_open = true;
                self.balance = e.initial_balance;
            }
            BankAccountEvent::Deposited(e) => {
                self.balance += e.amount;
            }
            BankAccountEvent::Withdrawn(e) => {
                self.balance -= e.amount;
            }
        }
    }
}

struct OpenAccount {
    initial_balance: u64,
}

struct Deposit {
    amount: u64,
}

struct Withdraw {
    amount: u64,
}

impl Handle<OpenAccount> for BankAccount {
    fn handle(&self, command: &OpenAccount) -> Result<Vec<Self::Event>, Self::Error> {
        if self.is_open {
            return Err("account already open".to_string());
        }
        Ok(vec![BankAccountEvent::Opened(AccountOpened {
            initial_balance: command.initial_balance,
        })])
    }
}

impl Handle<Deposit> for BankAccount {
    fn handle(&self, command: &Deposit) -> Result<Vec<Self::Event>, Self::Error> {
        if !self.is_open {
            return Err("account not open".to_string());
        }
        if command.amount == 0 {
            return Err("amount must be positive".to_string());
        }
        Ok(vec![BankAccountEvent::Deposited(MoneyDeposited {
            amount: command.amount,
        })])
    }
}

impl Handle<Withdraw> for BankAccount {
    fn handle(&self, command: &Withdraw) -> Result<Vec<Self::Event>, Self::Error> {
        if !self.is_open {
            return Err("account not open".to_string());
        }
        if command.amount == 0 {
            return Err("amount must be positive".to_string());
        }
        if command.amount > self.balance {
            return Err("insufficient funds".to_string());
        }
        Ok(vec![BankAccountEvent::Withdrawn(MoneyWithdrawn {
            amount: command.amount,
        })])
    }
}

type AccountTest = TestFramework<BankAccount>;

#[test]
fn open_account_produces_event() {
    AccountTest::new()
        .given_no_previous_events()
        .when(&OpenAccount {
            initial_balance: 100,
        })
        .then_expect_events(&[BankAccountEvent::Opened(AccountOpened {
            initial_balance: 100,
        })]);
}

#[test]
fn cannot_open_already_open_account() {
    AccountTest::new()
        .given(vec![BankAccountEvent::Opened(AccountOpened {
            initial_balance: 0,
        })])
        .when(&OpenAccount {
            initial_balance: 100,
        })
        .then_expect_error_message("already open");
}

#[test]
fn deposit_increases_balance() {
    AccountTest::new()
        .given(vec![BankAccountEvent::Opened(AccountOpened {
            initial_balance: 100,
        })])
        .when(&Deposit { amount: 50 })
        .then_expect_events(&[BankAccountEvent::Deposited(MoneyDeposited { amount: 50 })]);
}

#[test]
fn cannot_deposit_to_closed_account() {
    AccountTest::new()
        .given_no_previous_events()
        .when(&Deposit { amount: 50 })
        .then_expect_error_message("not open");
}

#[test]
fn withdraw_decreases_balance() {
    AccountTest::new()
        .given(vec![BankAccountEvent::Opened(AccountOpened {
            initial_balance: 100,
        })])
        .when(&Withdraw { amount: 30 })
        .then_expect_events(&[BankAccountEvent::Withdrawn(MoneyWithdrawn { amount: 30 })]);
}

#[test]
fn cannot_withdraw_more_than_balance() {
    AccountTest::new()
        .given(vec![BankAccountEvent::Opened(AccountOpened {
            initial_balance: 100,
        })])
        .when(&Withdraw { amount: 150 })
        .then_expect_error_message("insufficient funds");
}

#[test]
fn cannot_withdraw_from_closed_account() {
    AccountTest::new()
        .given_no_previous_events()
        .when(&Withdraw { amount: 50 })
        .then_expect_error_message("not open");
}

#[test]
fn state_is_rebuilt_from_event_history() {
    // Verify that given() properly rebuilds state from events
    AccountTest::new()
        .given(vec![
            BankAccountEvent::Opened(AccountOpened {
                initial_balance: 100,
            }),
            BankAccountEvent::Deposited(MoneyDeposited { amount: 50 }),
            BankAccountEvent::Withdrawn(MoneyWithdrawn { amount: 30 }),
        ])
        // Balance should be 100 + 50 - 30 = 120
        // Withdrawing 120 should succeed
        .when(&Withdraw { amount: 120 })
        .then_expect_events(&[BankAccountEvent::Withdrawn(MoneyWithdrawn { amount: 120 })]);
}

#[test]
fn and_allows_building_complex_state() {
    AccountTest::new()
        .given(vec![BankAccountEvent::Opened(AccountOpened {
            initial_balance: 100,
        })])
        .and(vec![BankAccountEvent::Deposited(MoneyDeposited {
            amount: 200,
        })])
        .and(vec![BankAccountEvent::Withdrawn(MoneyWithdrawn {
            amount: 50,
        })])
        // Balance: 100 + 200 - 50 = 250
        .when(&Withdraw { amount: 250 })
        .then_expect_events(&[BankAccountEvent::Withdrawn(MoneyWithdrawn { amount: 250 })]);
}

#[test]
fn inspect_result_allows_custom_assertions() {
    let result = AccountTest::new()
        .given(vec![BankAccountEvent::Opened(AccountOpened {
            initial_balance: 100,
        })])
        .when(&Deposit { amount: 50 })
        .inspect_result();

    assert!(result.is_ok());
    let events = result.unwrap();
    assert_eq!(events.len(), 1);
    match &events[0] {
        BankAccountEvent::Deposited(e) => assert_eq!(e.amount, 50),
        _ => panic!("Expected Deposited event"),
    }
}
