//! A multi-user currency kept as account balances. Users mint, burn and send money; an
//! account exists while its balance is at least 1, so a balance of 0 means that there
//! is no account.

use vstd::prelude::*;

use super::{StateMachine, User};

verus! {

/// The accounted-currency state machine: its states are [`Balances`], its transitions
/// [`AccountingTransaction`]s.
pub struct AccountedCurrency;

/// The balance of every user; 0 stands for a user without an account.
#[derive(Debug, PartialEq, Eq, Structural, Clone, Copy)]
pub struct Balances {
    pub alice: u64,
    pub bob: u64,
    pub charlie: u64,
}

/// The transitions of the accounted currency.
#[derive(Debug, Clone, Copy)]
pub enum AccountingTransaction {
    /// Create `amount` new money for `minter`.
    Mint { minter: User, amount: u64 },
    /// Destroy up to `amount` of `burner`'s money; burning more than the balance burns it
    /// all and closes the account.
    Burn { burner: User, amount: u64 },
    /// Send `amount` from `sender` to `receiver`.
    Transfer { sender: User, receiver: User, amount: u64 },
}

/// The balance of `user` in `b`.
pub open spec fn balance_of(b: Balances, user: User) -> u64 {
    match user {
        User::Alice => b.alice,
        User::Bob => b.bob,
        User::Charlie => b.charlie,
    }
}

/// `b` with the balance of `user` set to `value`.
pub open spec fn with_balance(b: Balances, user: User, value: u64) -> Balances {
    match user {
        User::Alice => Balances { alice: value, ..b },
        User::Bob => Balances { bob: value, ..b },
        User::Charlie => Balances { charlie: value, ..b },
    }
}

/// The balances after `tx`. A mint that would overflow, a burn from a missing account,
/// and a transfer between missing accounts, to oneself, beyond the sender's balance or
/// beyond what the receiver can hold change nothing.
pub open spec fn accounting_step(b: Balances, tx: AccountingTransaction) -> Balances {
    match tx {
        AccountingTransaction::Mint { minter, amount } => {
            if balance_of(b, minter) + amount <= u64::MAX {
                with_balance(b, minter, (balance_of(b, minter) + amount) as u64)
            } else {
                b
            }
        },
        AccountingTransaction::Burn { burner, amount } => {
            if balance_of(b, burner) <= amount {
                with_balance(b, burner, 0)
            } else {
                with_balance(b, burner, (balance_of(b, burner) - amount) as u64)
            }
        },
        AccountingTransaction::Transfer { sender, receiver, amount } => {
            let from = balance_of(b, sender);
            let to = balance_of(b, receiver);
            if from == 0 || to == 0 || sender == receiver || from < amount || to + amount
                > u64::MAX {
                b
            } else {
                with_balance(
                    with_balance(b, sender, (from - amount) as u64),
                    receiver,
                    (to + amount) as u64,
                )
            }
        },
    }
}

impl Balances {
    /// The balance of `user`.
    pub fn get(&self, user: User) -> (r: u64)
        ensures
            r == balance_of(*self, user),
    {
        match user {
            User::Alice => self.alice,
            User::Bob => self.bob,
            User::Charlie => self.charlie,
        }
    }

    /// Sets the balance of `user`.
    pub fn set(&mut self, user: User, value: u64)
        ensures
            *final(self) == with_balance(*old(self), user, value),
    {
        match user {
            User::Alice => self.alice = value,
            User::Bob => self.bob = value,
            User::Charlie => self.charlie = value,
        }
    }
}

impl StateMachine for AccountedCurrency {
    type State = Balances;

    type Transition = AccountingTransaction;

    fn next_state(starting_state: &Balances, transition: &AccountingTransaction) -> (r:
        Balances)
        ensures
            r == accounting_step(*starting_state, *transition),
    {
        let mut state = *starting_state;
        match *transition {
            AccountingTransaction::Mint { minter, amount } => {
                if let Some(total) = state.get(minter).checked_add(amount) {
                    state.set(minter, total);
                }
            },
            AccountingTransaction::Burn { burner, amount } => {
                let left = state.get(burner).saturating_sub(amount);
                state.set(burner, left);
            },
            AccountingTransaction::Transfer { sender, receiver, amount } => {
                let from = state.get(sender);
                let to = state.get(receiver);
                if from != 0 && to != 0 && sender != receiver && from >= amount {
                    if let Some(total) = to.checked_add(amount) {
                        state.set(sender, from - amount);
                        state.set(receiver, total);
                    }
                }
            },
        }
        state
    }
}

} // verus!
