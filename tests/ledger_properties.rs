use toychain::state_machine::digital_cash::{Bill, CashError, CashTransaction, DigitalCashSystem, State};
use toychain::state_machine::{StateMachine, User};

fn bill(owner: User, amount: u64, serial: u64) -> Bill {
    Bill { owner, amount, serial }
}

fn transfer(spends: Vec<Bill>, receives: Vec<Bill>) -> CashTransaction {
    CashTransaction::Transfer { spends, receives }
}

#[test]
fn mint_twenty_to_alice_from_empty_ledger() {
    let start = State::new();
    let end = start.apply(&CashTransaction::Mint { minter: User::Alice, amount: 20 }).unwrap();
    assert_eq!(end.bills, vec![bill(User::Alice, 20, 0)]);
    assert_eq!(end.next_serial(), 1);
}

#[test]
fn spend_whole_bill_to_bob() {
    let start = State::from([bill(User::Alice, 20, 0)]);
    let end = start
        .apply(&transfer(vec![bill(User::Alice, 20, 0)], vec![bill(User::Bob, 20, 1)]))
        .unwrap();
    assert_eq!(end.bills, vec![bill(User::Bob, 20, 1)]);
    assert_eq!(end.next_serial(), 2);
}

#[test]
fn received_serial_comes_from_the_ledger() {
    let start = State::from([bill(User::Alice, 20, 0)]);
    let end = start
        .apply(&transfer(vec![bill(User::Alice, 20, 0)], vec![bill(User::Bob, 20, 7)]))
        .unwrap();
    assert_eq!(end.bills, vec![bill(User::Bob, 20, 1)]);
    assert_eq!(end.next_serial(), 2);
}

#[test]
fn overspending_is_rejected_and_ledger_unchanged() {
    let start = State::from([bill(User::Alice, 42, 0)]);
    let tx = transfer(
        vec![bill(User::Alice, 42, 0)],
        vec![bill(User::Bob, 30, 1), bill(User::Charlie, 13, 2)],
    );
    assert_eq!(start.apply(&tx), Err(CashError::OverspendAttempt));
    let end = DigitalCashSystem::next_state(&start, &tx);
    assert_eq!(end.bills, start.bills);
    assert_eq!(end.next_serial(), start.next_serial());
}

#[test]
fn burn_into_empty_receives_destroys_the_bill() {
    let start = State::from([bill(User::Alice, 42, 0), bill(User::Bob, 5, 1)]);
    let end = start.apply(&transfer(vec![bill(User::Alice, 42, 0)], vec![])).unwrap();
    assert_eq!(end.bills, vec![bill(User::Bob, 5, 1)]);
    assert_eq!(end.next_serial(), 2);
}

#[test]
fn repeated_receive_serial_is_rejected() {
    let start = State::from([bill(User::Alice, 42, 0)]);
    let tx = transfer(
        vec![bill(User::Alice, 42, 0)],
        vec![bill(User::Bob, 10, 5), bill(User::Charlie, 10, 5)],
    );
    assert_eq!(start.apply(&tx), Err(CashError::DuplicateSerial));
    assert_eq!(DigitalCashSystem::next_state(&start, &tx), start);
}

#[test]
fn spending_a_missing_bill_is_rejected() {
    let start = State::from([bill(User::Alice, 42, 0)]);
    let tx = transfer(vec![bill(User::Alice, 41, 0)], vec![bill(User::Bob, 10, 1)]);
    assert_eq!(start.apply(&tx), Err(CashError::NonexistentInput));
}

#[test]
fn spending_one_serial_twice_is_rejected() {
    let start = State::from([bill(User::Alice, 42, 0)]);
    let tx = transfer(
        vec![bill(User::Alice, 42, 0), bill(User::Alice, 42, 0)],
        vec![bill(User::Bob, 10, 1)],
    );
    assert_eq!(start.apply(&tx), Err(CashError::DuplicateSerial));
}

#[test]
fn zero_value_output_is_rejected() {
    let start = State::from([bill(User::Alice, 42, 0)]);
    let tx = transfer(vec![bill(User::Alice, 42, 0)], vec![bill(User::Bob, 0, 1)]);
    assert_eq!(start.apply(&tx), Err(CashError::ZeroValueOutput));
}

#[test]
fn reserved_receive_serial_is_rejected() {
    let start = State::from([bill(User::Alice, 42, 0)]);
    let tx = transfer(vec![bill(User::Alice, 42, 0)], vec![bill(User::Bob, 1, u64::MAX)]);
    assert_eq!(start.apply(&tx), Err(CashError::SerialOverflow));
}

#[test]
fn exhausted_counter_rejects_mint_and_receive() {
    let mut start = State::from([bill(User::Alice, 42, 0)]);
    start.set_serial(u64::MAX);
    let mint = CashTransaction::Mint { minter: User::Bob, amount: 3 };
    assert_eq!(start.apply(&mint), Err(CashError::SerialOverflow));
    let tx = transfer(vec![bill(User::Alice, 42, 0)], vec![bill(User::Bob, 1, 1)]);
    assert_eq!(start.apply(&tx), Err(CashError::SerialOverflow));
}

#[test]
fn mint_of_zero_changes_nothing() {
    let start = State::from([bill(User::Alice, 42, 0)]);
    let end = start.apply(&CashTransaction::Mint { minter: User::Bob, amount: 0 }).unwrap();
    assert_eq!(end, start);
    assert_eq!(end.next_serial(), 1);
}

#[test]
fn empty_spends_change_nothing() {
    let start = State::from([bill(User::Alice, 42, 0)]);
    let end = start.apply(&transfer(vec![], vec![bill(User::Bob, 10, 1)])).unwrap();
    assert_eq!(end, start);
}

#[test]
fn accepted_transfer_burns_the_difference() {
    let start = State::from([bill(User::Alice, 40, 0), bill(User::Charlie, 2, 1)]);
    let spends = vec![bill(User::Alice, 40, 0), bill(User::Charlie, 2, 1)];
    let receives = vec![bill(User::Bob, 30, 2), bill(User::Bob, 2, 3)];
    let end = start.apply(&transfer(spends.clone(), receives)).unwrap();
    let spent: u64 = spends.iter().map(|b| b.amount).sum();
    let held: u64 = end.bills.iter().map(|b| b.amount).sum();
    assert_eq!(spent, 42);
    assert_eq!(held, 32);
    assert_eq!(end, State::from([bill(User::Bob, 30, 2), bill(User::Bob, 2, 3)]));
}

#[test]
fn serials_only_grow_over_a_run() {
    let mut state = State::new();
    let txs = vec![
        CashTransaction::Mint { minter: User::Alice, amount: 20 },
        CashTransaction::Mint { minter: User::Bob, amount: 5 },
        transfer(vec![bill(User::Alice, 20, 0)], vec![bill(User::Charlie, 15, 9)]),
        transfer(vec![bill(User::Alice, 20, 0)], vec![bill(User::Charlie, 15, 9)]),
        transfer(vec![bill(User::Bob, 5, 1)], vec![]),
    ];
    let mut counters = vec![state.next_serial()];
    for tx in &txs {
        state = DigitalCashSystem::next_state(&state, tx);
        counters.push(state.next_serial());
        for b in &state.bills {
            assert!(b.serial < state.next_serial());
        }
    }
    assert_eq!(counters, vec![0, 1, 2, 3, 3, 3]);
    assert_eq!(state.bills, vec![bill(User::Charlie, 15, 2)]);
}

#[test]
fn ledger_equality_ignores_bill_order() {
    let a = State::from([bill(User::Alice, 1, 0), bill(User::Bob, 2, 1)]);
    let b = State::from([bill(User::Bob, 2, 1), bill(User::Alice, 1, 0)]);
    assert_eq!(a, b);
    let mut c = b.duplicate();
    c.increment_serial();
    assert_ne!(a, c);
}

#[test]
fn seeding_moves_counter_past_highest_serial() {
    let s = State::from([bill(User::Alice, 1, 54), bill(User::Bob, 2, 7)]);
    assert_eq!(s.next_serial(), 55);
    let t = State::from([bill(User::Alice, 1, u64::MAX)]);
    assert_eq!(t.next_serial(), u64::MAX);
}
