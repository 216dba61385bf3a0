use toychain::state_machine::accounted_currency::{AccountedCurrency, AccountingTransaction, Balances};
use toychain::state_machine::{StateMachine, User};

fn balances(alice: u64, bob: u64, charlie: u64) -> Balances {
    Balances { alice, bob, charlie }
}

#[test]
fn mint_adds_to_the_balance() {
    let end = AccountedCurrency::next_state(
        &balances(0, 3, 0),
        &AccountingTransaction::Mint { minter: User::Bob, amount: 4 },
    );
    assert_eq!(end, balances(0, 7, 0));
    let full = balances(u64::MAX, 0, 0);
    let same = AccountedCurrency::next_state(&full, &AccountingTransaction::Mint { minter: User::Alice, amount: 1 });
    assert_eq!(same, full);
}

#[test]
fn burn_takes_at_most_the_balance() {
    let start = balances(10, 0, 0);
    let end = AccountedCurrency::next_state(&start, &AccountingTransaction::Burn { burner: User::Alice, amount: 4 });
    assert_eq!(end, balances(6, 0, 0));
    let gone = AccountedCurrency::next_state(&start, &AccountingTransaction::Burn { burner: User::Alice, amount: 40 });
    assert_eq!(gone, balances(0, 0, 0));
}

#[test]
fn transfer_moves_money_between_accounts() {
    let start = balances(10, 1, 0);
    let tx = AccountingTransaction::Transfer { sender: User::Alice, receiver: User::Bob, amount: 10 };
    assert_eq!(AccountedCurrency::next_state(&start, &tx), balances(0, 11, 0));
    let to_missing = AccountingTransaction::Transfer { sender: User::Alice, receiver: User::Charlie, amount: 1 };
    assert_eq!(AccountedCurrency::next_state(&start, &to_missing), start);
    let too_much = AccountingTransaction::Transfer { sender: User::Bob, receiver: User::Alice, amount: 2 };
    assert_eq!(AccountedCurrency::next_state(&start, &too_much), start);
    let to_self = AccountingTransaction::Transfer { sender: User::Alice, receiver: User::Alice, amount: 2 };
    assert_eq!(AccountedCurrency::next_state(&start, &to_self), start);
}
