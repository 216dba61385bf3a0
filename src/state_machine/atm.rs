//! An automated teller machine: swipe a card, key in the pin, key in an amount, and
//! take the cash, if the machine holds enough.

use std::collections::hash_map::DefaultHasher;
use std::hash::{BuildHasher, BuildHasherDefault};
use vstd::prelude::*;

use super::StateMachine;

verus! {

/// The keys of the keypad.
#[derive(Hash, Debug, PartialEq, Eq, Structural, Clone, Copy)]
pub enum Key {
    One,
    Two,
    Three,
    Four,
    Enter,
}

/// Something a user can do to the machine.
#[derive(Debug, Clone, Copy)]
pub enum Action {
    /// Swipe a card; the value is the digest of the pin to be keyed in next.
    SwipeCard(u64),
    /// Press a key of the keypad.
    PressKey(Key),
}

/// How far a session has come.
#[derive(Debug, PartialEq, Eq, Structural, Clone, Copy)]
pub enum Authentication {
    /// No session yet: waiting for a card.
    Waiting,
    /// A card with the enclosed pin digest was swiped: waiting for the pin.
    Authenticating(u64),
    /// The pin was right: waiting for the amount to withdraw.
    Authenticated,
}

/// The machine: the cash inside, the session, and the keys pressed since the last
/// `Enter`.
#[derive(PartialEq, Eq, Debug, Clone)]
pub struct Atm {
    pub cash_inside: u64,
    pub expected_pin_hash: Authentication,
    pub keystroke_register: Vec<Key>,
}

/// The machine as values: cash, session, and the keys pressed.
pub struct AtmView {
    pub cash_inside: u64,
    pub expected_pin_hash: Authentication,
    pub keystroke_register: Seq<Key>,
}

impl View for Atm {
    type V = AtmView;

    open spec fn view(&self) -> AtmView {
        AtmView {
            cash_inside: self.cash_inside,
            expected_pin_hash: self.expected_pin_hash,
            keystroke_register: self.keystroke_register@,
        }
    }
}

/// The digest of a keyed-in pin.
pub uninterp spec fn keys_digest(keys: Seq<Key>) -> u64;

/// Relies on std's `BuildHasher::hash_one` with `DefaultHasher`, whose instances made by
/// `default` all hash alike: the digest is a function of the keys, in order.
#[verifier::external_body]
fn hash_keys(keys: &Vec<Key>) -> (r: u64)
    ensures
        r == keys_digest(keys@),
{
    BuildHasherDefault::<DefaultHasher>::default().hash_one(keys)
}

/// The digit of a numeric key.
pub open spec fn digit(k: Key) -> Option<nat> {
    match k {
        Key::One => Some(1),
        Key::Two => Some(2),
        Key::Three => Some(3),
        Key::Four => Some(4),
        Key::Enter => None,
    }
}

/// The amount that `keys` spell in decimal; keys other than digits are skipped.
pub open spec fn keyed_amount(keys: Seq<Key>) -> nat
    decreases keys.len(),
{
    if keys.len() == 0 {
        0
    } else {
        match digit(keys.last()) {
            Some(d) => keyed_amount(keys.drop_last()) * 10 + d,
            None => keyed_amount(keys.drop_last()),
        }
    }
}

/// The machine after `action`.
pub open spec fn atm_step(s: AtmView, action: Action) -> AtmView {
    match action {
        Action::SwipeCard(pin_hash) => match s.expected_pin_hash {
            Authentication::Waiting => AtmView {
                expected_pin_hash: Authentication::Authenticating(pin_hash),
                ..s
            },
            _ => s,
        },
        Action::PressKey(key) => match s.expected_pin_hash {
            Authentication::Waiting => s,
            Authentication::Authenticating(expected) => if key == Key::Enter {
                AtmView {
                    cash_inside: s.cash_inside,
                    expected_pin_hash: if keys_digest(s.keystroke_register) == expected {
                        Authentication::Authenticated
                    } else {
                        Authentication::Waiting
                    },
                    keystroke_register: Seq::empty(),
                }
            } else {
                AtmView { keystroke_register: s.keystroke_register.push(key), ..s }
            },
            Authentication::Authenticated => if key == Key::Enter {
                let amount = keyed_amount(s.keystroke_register);
                AtmView {
                    cash_inside: if amount <= s.cash_inside {
                        (s.cash_inside - amount) as u64
                    } else {
                        s.cash_inside
                    },
                    expected_pin_hash: Authentication::Waiting,
                    keystroke_register: Seq::empty(),
                }
            } else {
                AtmView { keystroke_register: s.keystroke_register.push(key), ..s }
            },
        },
    }
}

proof fn lemma_keyed_amount_grows(keys: Seq<Key>, i: int)
    requires
        0 <= i <= keys.len(),
    ensures
        keyed_amount(keys.take(i)) <= keyed_amount(keys),
    decreases keys.len() - i,
{
    if i < keys.len() {
        assert(keys.take(i + 1).drop_last() =~= keys.take(i));
        lemma_keyed_amount_grows(keys, i + 1);
    } else {
        assert(keys.take(i) =~= keys);
    }
}

/// The amount that `keys` spell, or `None` when it does not fit in a `u64`.
fn amount_of(keys: &Vec<Key>) -> (r: Option<u64>)
    ensures
        r == (if keyed_amount(keys@) <= u64::MAX {
            Some(keyed_amount(keys@) as u64)
        } else {
            None::<u64>
        }),
{
    let mut amount: u64 = 0;
    let mut i: usize = 0;
    while i < keys.len()
        invariant
            0 <= i <= keys.len(),
            amount == keyed_amount(keys@.take(i as int)),
        decreases keys.len() - i,
    {
        assert(keys@.take(i + 1).drop_last() =~= keys@.take(i as int));
        let d: u64 = match keys[i] {
            Key::One => 1,
            Key::Two => 2,
            Key::Three => 3,
            Key::Four => 4,
            Key::Enter => {
                i += 1;
                continue;
            },
        };
        let shifted = amount.checked_mul(10);
        let next = match shifted {
            Some(t) => t.checked_add(d),
            None => None,
        };
        match next {
            Some(n) => amount = n,
            None => {
                proof {
                    lemma_keyed_amount_grows(keys@, i + 1);
                }
                return None;
            },
        }
        i += 1;
    }
    assert(keys@.take(keys.len() as int) =~= keys@);
    Some(amount)
}

impl StateMachine for Atm {
    type State = Atm;

    type Transition = Action;

    fn next_state(starting_state: &Atm, transition: &Action) -> (r: Atm)
        ensures
            r@ == atm_step(starting_state@, *transition),
    {
        let cash = starting_state.cash_inside;
        let register = &starting_state.keystroke_register;
        match transition {
            Action::SwipeCard(pin_hash) => {
                let session = match starting_state.expected_pin_hash {
                    Authentication::Waiting => Authentication::Authenticating(*pin_hash),
                    other => other,
                };
                Atm {
                    cash_inside: cash,
                    expected_pin_hash: session,
                    keystroke_register: copy_keys(register),
                }
            },
            Action::PressKey(key) => match starting_state.expected_pin_hash {
                Authentication::Waiting => Atm {
                    cash_inside: cash,
                    expected_pin_hash: Authentication::Waiting,
                    keystroke_register: copy_keys(register),
                },
                Authentication::Authenticating(expected) => {
                    if *key == Key::Enter {
                        let session = if hash_keys(register) == expected {
                            Authentication::Authenticated
                        } else {
                            Authentication::Waiting
                        };
                        Atm {
                            cash_inside: cash,
                            expected_pin_hash: session,
                            keystroke_register: Vec::new(),
                        }
                    } else {
                        let mut keys = copy_keys(register);
                        keys.push(*key);
                        Atm {
                            cash_inside: cash,
                            expected_pin_hash: starting_state.expected_pin_hash,
                            keystroke_register: keys,
                        }
                    }
                },
                Authentication::Authenticated => {
                    if *key == Key::Enter {
                        let left = match amount_of(register) {
                            Some(amount) => if amount <= cash {
                                cash - amount
                            } else {
                                cash
                            },
                            None => cash,
                        };
                        Atm {
                            cash_inside: left,
                            expected_pin_hash: Authentication::Waiting,
                            keystroke_register: Vec::new(),
                        }
                    } else {
                        let mut keys = copy_keys(register);
                        keys.push(*key);
                        Atm {
                            cash_inside: cash,
                            expected_pin_hash: Authentication::Authenticated,
                            keystroke_register: keys,
                        }
                    }
                },
            },
        }
    }
}

/// A copy of `keys`, key for key.
fn copy_keys(keys: &Vec<Key>) -> (r: Vec<Key>)
    ensures
        r@ == keys@,
{
    let mut r: Vec<Key> = Vec::new();
    let mut i: usize = 0;
    while i < keys.len()
        invariant
            0 <= i <= keys.len(),
            r@ == keys@.take(i as int),
        decreases keys.len() - i,
    {
        r.push(keys[i]);
        i += 1;
        assert(r@ =~= keys@.take(i as int));
    }
    assert(r@ =~= keys@);
    r
}

} // verus!
