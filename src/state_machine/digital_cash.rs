//! A multi-user currency modelled after paper cash. The ledger tracks individual bills,
//! each with an owner, an amount and a serial number. A transfer spends whole bills and
//! issues new ones of lesser or equal total value; the difference is destroyed.

use vstd::prelude::*;
use vstd::set::fold::{is_fun_commutative, lemma_fold_empty, lemma_fold_insert};

use super::{StateMachine, User};

verus! {

/// The digital-cash state machine: its states are ledgers, its transitions are
/// [`CashTransaction`]s.
pub struct DigitalCashSystem;

/// A single bill. Its serial number makes it unique in the ledger.
#[derive(Debug, PartialEq, Eq, Structural, Clone, Copy, Hash)]
pub struct Bill {
    pub owner: User,
    pub amount: u64,
    pub serial: u64,
}

/// The ledger: the bills in circulation and the next serial number to hand out.
///
/// The order of `bills` carries no meaning: two ledgers are equal when they hold the
/// same bills and the same counter.
#[derive(Debug, Clone)]
pub struct State {
    pub bills: Vec<Bill>,
    pub next_serial: u64,
}

/// The mathematical ledger: a set of bills and the serial counter.
pub struct Ledger {
    pub bills: Set<Bill>,
    pub next_serial: nat,
}

impl Ledger {
    /// Every bill's serial is below the counter, and no two bills share a serial.
    pub open spec fn wf(self) -> bool {
        &&& self.next_serial <= u64::MAX
        &&& forall|b: Bill| #[trigger] self.bills.contains(b) ==> b.serial < self.next_serial
        &&& forall|b1: Bill, b2: Bill|
            #[trigger] self.bills.contains(b1) && #[trigger] self.bills.contains(b2) && b1.serial
                == b2.serial ==> b1 == b2
    }
}

impl View for State {
    type V = Ledger;

    open spec fn view(&self) -> Ledger {
        Ledger { bills: self.bills@.to_set(), next_serial: self.next_serial as nat }
    }
}

/// The transitions of the digital-cash system.
#[derive(Debug, Clone)]
pub enum CashTransaction {
    /// Create one new bill owned by `minter`.
    Mint { minter: User, amount: u64 },
    /// Spend whole bills and issue new ones. The new bills' serials are assigned by
    /// the ledger; the serials written in `receives` only serve to detect reuse.
    Transfer { spends: Vec<Bill>, receives: Vec<Bill> },
}

/// Why a transaction was rejected.
#[derive(Debug, PartialEq, Eq, Structural, Clone, Copy)]
pub enum CashError {
    /// A spent bill is not in the ledger.
    NonexistentInput,
    /// A serial number occurs twice among the spends, or a received serial repeats a
    /// spent or an earlier received one.
    DuplicateSerial,
    /// A received amount exceeds what is left of the spent value.
    OverspendAttempt,
    /// The received bills are worth nothing in total.
    ZeroValueOutput,
    /// A received bill carries the reserved serial `u64::MAX`, or the ledger's
    /// counter would overflow.
    SerialOverflow,
}

/// The sum of the amounts of `bills`.
pub open spec fn amount_sum(bills: Seq<Bill>) -> nat
    decreases bills.len(),
{
    if bills.len() == 0 {
        0
    } else {
        (amount_sum(bills.drop_last()) + bills.last().amount) as nat
    }
}

/// The value that the spends make available: their sum, clamped to `u64::MAX`.
pub open spec fn available(spends: Seq<Bill>) -> nat {
    if amount_sum(spends) > u64::MAX {
        u64::MAX as nat
    } else {
        amount_sum(spends)
    }
}

/// Whether some bill among the first `upto` of `bills` has serial `serial`.
pub open spec fn serial_among(bills: Seq<Bill>, upto: int, serial: u64) -> bool {
    exists|j: int| 0 <= j < upto && #[trigger] bills[j].serial == serial
}

/// What is wrong with the spend at index `i`, if anything.
pub open spec fn spend_fault(bills: Set<Bill>, spends: Seq<Bill>, i: int) -> Option<CashError> {
    if !bills.contains(spends[i]) {
        Some(CashError::NonexistentInput)
    } else if serial_among(spends, i, spends[i].serial) {
        Some(CashError::DuplicateSerial)
    } else {
        None
    }
}

/// The fault of the first faulty spend among the first `n`.
pub open spec fn first_spend_fault(bills: Set<Bill>, spends: Seq<Bill>, n: int) -> Option<
    CashError,
>
    decreases n,
{
    if n <= 0 {
        None
    } else {
        match first_spend_fault(bills, spends, n - 1) {
            Some(e) => Some(e),
            None => spend_fault(bills, spends, n - 1),
        }
    }
}

/// What is wrong with the receive at index `i`, if anything, given the spent value
/// and the counter before the transfer.
pub open spec fn receive_fault(
    spends: Seq<Bill>,
    receives: Seq<Bill>,
    next_serial: nat,
    i: int,
) -> Option<CashError> {
    let serial = receives[i].serial;
    if serial == u64::MAX {
        Some(CashError::SerialOverflow)
    } else if serial_among(spends, spends.len() as int, serial) || serial_among(
        receives,
        i,
        serial,
    ) {
        Some(CashError::DuplicateSerial)
    } else if amount_sum(receives.take(i + 1)) > available(spends) {
        Some(CashError::OverspendAttempt)
    } else if next_serial + i >= u64::MAX {
        Some(CashError::SerialOverflow)
    } else {
        None
    }
}

/// The fault of the first faulty receive among the first `n`.
pub open spec fn first_receive_fault(
    spends: Seq<Bill>,
    receives: Seq<Bill>,
    next_serial: nat,
    n: int,
) -> Option<CashError>
    decreases n,
{
    if n <= 0 {
        None
    } else {
        match first_receive_fault(spends, receives, next_serial, n - 1) {
            Some(e) => Some(e),
            None => receive_fault(spends, receives, next_serial, n - 1),
        }
    }
}

/// The bills that a transfer issues: the received owners and amounts, with serials
/// handed out from `first` on.
pub open spec fn issued(receives: Seq<Bill>, first: nat) -> Seq<Bill> {
    receives.map(|i: int, r: Bill| Bill { owner: r.owner, amount: r.amount, serial: (first + i) as u64 })
}

/// The outcome of minting `amount` for `minter`.
pub open spec fn mint_outcome(l: Ledger, minter: User, amount: u64) -> Result<Ledger, CashError> {
    if amount == 0 {
        Ok(l)
    } else if l.next_serial >= u64::MAX {
        Err(CashError::SerialOverflow)
    } else {
        Ok(
            Ledger {
                bills: l.bills.insert(
                    Bill { owner: minter, amount, serial: l.next_serial as u64 },
                ),
                next_serial: l.next_serial + 1,
            },
        )
    }
}

/// The outcome of spending `spends` into `receives`.
pub open spec fn transfer_outcome(l: Ledger, spends: Seq<Bill>, receives: Seq<Bill>) -> Result<
    Ledger,
    CashError,
> {
    if spends.len() == 0 {
        Ok(l)
    } else if let Some(e) = first_spend_fault(l.bills, spends, spends.len() as int) {
        Err(e)
    } else if let Some(e) = first_receive_fault(
        spends,
        receives,
        l.next_serial,
        receives.len() as int,
    ) {
        Err(e)
    } else if receives.len() > 0 && amount_sum(receives) == 0 {
        Err(CashError::ZeroValueOutput)
    } else {
        Ok(
            Ledger {
                bills: l.bills.difference(spends.to_set()).union(
                    issued(receives, l.next_serial).to_set(),
                ),
                next_serial: l.next_serial + receives.len(),
            },
        )
    }
}

/// The outcome of applying `tx` to the ledger `l`.
pub open spec fn apply_outcome(l: Ledger, tx: CashTransaction) -> Result<Ledger, CashError> {
    match tx {
        CashTransaction::Mint { minter, amount } => mint_outcome(l, minter, amount),
        CashTransaction::Transfer { spends, receives } => transfer_outcome(
            l,
            spends@,
            receives@,
        ),
    }
}

/// The ledger after `tx`: the outcome when accepted, `l` itself when rejected.
pub open spec fn next_ledger(l: Ledger, tx: CashTransaction) -> Ledger {
    match apply_outcome(l, tx) {
        Ok(n) => n,
        Err(_) => l,
    }
}

/// The view of an outcome.
pub open spec fn outcome_view(r: Result<State, CashError>) -> Result<Ledger, CashError> {
    match r {
        Ok(s) => Ok(s@),
        Err(e) => Err(e),
    }
}

proof fn lemma_first_spend_fault_stays(bills: Set<Bill>, spends: Seq<Bill>, a: int, b: int)
    requires
        0 <= a <= b,
        first_spend_fault(bills, spends, a) is Some,
    ensures
        first_spend_fault(bills, spends, b) == first_spend_fault(bills, spends, a),
    decreases b - a,
{
    if b > a {
        lemma_first_spend_fault_stays(bills, spends, a, b - 1);
    }
}

proof fn lemma_first_receive_fault_stays(
    spends: Seq<Bill>,
    receives: Seq<Bill>,
    next_serial: nat,
    a: int,
    b: int,
)
    requires
        0 <= a <= b,
        first_receive_fault(spends, receives, next_serial, a) is Some,
    ensures
        first_receive_fault(spends, receives, next_serial, b) == first_receive_fault(
            spends,
            receives,
            next_serial,
            a,
        ),
    decreases b - a,
{
    if b > a {
        lemma_first_receive_fault_stays(spends, receives, next_serial, a, b - 1);
    }
}

/// Whether `bills` holds `bill`.
fn holds_bill(bills: &Vec<Bill>, bill: &Bill) -> (r: bool)
    ensures
        r == bills@.contains(*bill),
{
    let mut i: usize = 0;
    while i < bills.len()
        invariant
            0 <= i <= bills.len(),
            forall|j: int| 0 <= j < i ==> bills@[j] != *bill,
        decreases bills.len() - i,
    {
        if bills[i] == *bill {
            return true;
        }
        i += 1;
    }
    false
}

/// Whether one of the first `upto` bills has serial `serial`.
fn has_serial(bills: &Vec<Bill>, upto: usize, serial: u64) -> (r: bool)
    requires
        upto <= bills.len(),
    ensures
        r == serial_among(bills@, upto as int, serial),
{
    let mut i: usize = 0;
    while i < upto
        invariant
            0 <= i <= upto <= bills.len(),
            forall|j: int| 0 <= j < i ==> bills@[j].serial != serial,
        decreases upto - i,
    {
        if bills[i].serial == serial {
            return true;
        }
        i += 1;
    }
    false
}

/// A copy of `bills`, element for element.
fn copy_bills(bills: &Vec<Bill>) -> (r: Vec<Bill>)
    ensures
        r@ == bills@,
{
    let mut r: Vec<Bill> = Vec::new();
    let mut i: usize = 0;
    while i < bills.len()
        invariant
            0 <= i <= bills.len(),
            r@ == bills@.take(i as int),
        decreases bills.len() - i,
    {
        r.push(bills[i]);
        i += 1;
        assert(r@ =~= bills@.take(i as int));
    }
    assert(r@ =~= bills@);
    r
}

impl State {
    /// An empty ledger whose first serial will be 0.
    pub fn new() -> (r: Self)
        ensures
            r.bills@ == Seq::<Bill>::empty(),
            r.next_serial == 0,
    {
        State { bills: Vec::new(), next_serial: 0 }
    }

    /// Sets the serial counter.
    pub fn set_serial(&mut self, serial: u64)
        ensures
            final(self).bills@ == old(self).bills@,
            final(self).next_serial == serial,
    {
        self.next_serial = serial;
    }

    /// The next serial number to be handed out.
    pub fn next_serial(&self) -> (r: u64)
        ensures
            r == self.next_serial,
    {
        self.next_serial
    }

    /// Advances the serial counter by one.
    pub fn increment_serial(&mut self)
        requires
            old(self).next_serial < u64::MAX,
        ensures
            final(self).bills@ == old(self).bills@,
            final(self).next_serial == old(self).next_serial + 1,
    {
        self.next_serial += 1;
    }

    /// A copy of this ledger with the same bills in the same order.
    pub fn duplicate(&self) -> (r: Self)
        ensures
            r.bills@ == self.bills@,
            r.next_serial == self.next_serial,
    {
        State { bills: copy_bills(&self.bills), next_serial: self.next_serial }
    }

    /// The ledger after minting `amount` for `minter`.
    fn mint(&self, minter: User, amount: u64) -> (r: Result<State, CashError>)
        ensures
            outcome_view(r) == mint_outcome(self@, minter, amount),
    {
        if amount == 0 {
            return Ok(self.duplicate());
        }
        if self.next_serial == u64::MAX {
            return Err(CashError::SerialOverflow);
        }
        let mut bills = copy_bills(&self.bills);
        let bill = Bill { owner: minter, amount, serial: self.next_serial };
        bills.push(bill);
        proof {
            self.bills@.lemma_push_to_set_commute(bill);
        }
        let r = State { bills, next_serial: self.next_serial + 1 };
        assert(r@.bills =~= self@.bills.insert(bill));
        Ok(r)
    }

    /// The ledger after spending `spends` into `receives`.
    fn transfer(&self, spends: &Vec<Bill>, receives: &Vec<Bill>) -> (r: Result<State, CashError>)
        ensures
            outcome_view(r) == transfer_outcome(self@, spends@, receives@),
    {
        if spends.len() == 0 {
            return Ok(self.duplicate());
        }

        // Every spent bill must be in the ledger, with a serial not spent before.
        let mut total: u64 = 0;
        let mut i: usize = 0;
        while i < spends.len()
            invariant
                0 <= i <= spends.len(),
                first_spend_fault(self@.bills, spends@, i as int) is None,
                total == (if amount_sum(spends@.take(i as int)) > u64::MAX {
                    u64::MAX as nat
                } else {
                    amount_sum(spends@.take(i as int))
                }),
            decreases spends.len() - i,
        {
            let bill = &spends[i];
            if !holds_bill(&self.bills, bill) {
                proof {
                    lemma_first_spend_fault_stays(
                        self@.bills,
                        spends@,
                        i + 1,
                        spends@.len() as int,
                    );
                }
                return Err(CashError::NonexistentInput);
            }
            if has_serial(spends, i, bill.serial) {
                proof {
                    lemma_first_spend_fault_stays(
                        self@.bills,
                        spends@,
                        i + 1,
                        spends@.len() as int,
                    );
                }
                return Err(CashError::DuplicateSerial);
            }
            assert(spends@.take(i + 1).drop_last() =~= spends@.take(i as int));
            total = total.saturating_add(bill.amount);
            i += 1;
        }
        assert(spends@.take(spends.len() as int) =~= spends@);

        // The ledger without the spent bills.
        let mut kept: Vec<Bill> = Vec::new();
        let mut k: usize = 0;
        while k < self.bills.len()
            invariant
                0 <= k <= self.bills.len(),
                total == available(spends@),
                spends@.len() > 0,
                first_spend_fault(self@.bills, spends@, spends@.len() as int) is None,
                forall|b: Bill|
                    kept@.contains(b) <==> (self.bills@.take(k as int).contains(b)
                        && !spends@.contains(b)),
            decreases self.bills.len() - k,
        {
            let bill = self.bills[k];
            let spent = holds_bill(spends, &bill);
            let ghost before = kept@;
            if !spent {
                kept.push(bill);
            }
            proof {
                assert(self.bills@.take(k + 1) =~= self.bills@.take(k as int).push(bill));
                assert forall|b: Bill|
                    kept@.contains(b) <==> (self.bills@.take(k + 1).contains(b)
                        && !spends@.contains(b)) by {
                    if kept@.contains(b) && !before.contains(b) {
                        let j = choose|j: int| 0 <= j < kept@.len() && #[trigger] kept@[j] == b;
                        assert(j == before.len());
                    }
                    if before.contains(b) {
                        let j = choose|j: int| 0 <= j < before.len() && #[trigger] before[j] == b;
                        assert(kept@[j] == b);
                    }
                    if self.bills@.take(k as int).contains(b) {
                        let j = choose|j: int| 0 <= j < k && #[trigger] self.bills@.take(k as int)[j] == b;
                        assert(self.bills@.take(k + 1)[j] == b);
                    }
                    if self.bills@.take(k + 1).contains(b) && b != bill {
                        let j = choose|j: int| 0 <= j < k + 1 && #[trigger] self.bills@.take(k + 1)[j] == b;
                        assert(self.bills@.take(k as int)[j] == b);
                    }
                    if !spent && b == bill {
                        assert(kept@[kept@.len() - 1] == b);
                    }
                    if b == bill {
                        assert(self.bills@.take(k + 1)[k as int] == b);
                    }
                }
            }
            k += 1;
        }
        assert(self.bills@.take(self.bills.len() as int) =~= self.bills@);
        let ghost kept0 = kept@;

        // Every receive is checked in order and issued with a fresh serial.
        let mut received: u64 = 0;
        let mut serial: u64 = self.next_serial;
        let mut n: usize = 0;
        while n < receives.len()
            invariant
                0 <= n <= receives.len(),
                spends@.len() > 0,
                first_spend_fault(self@.bills, spends@, spends@.len() as int) is None,
                first_receive_fault(spends@, receives@, self.next_serial as nat, n as int) is None,
                received == amount_sum(receives@.take(n as int)),
                received <= total,
                total == available(spends@),
                serial == self.next_serial + n,
                kept@ == kept0 + issued(receives@.take(n as int), self.next_serial as nat),
            decreases receives.len() - n,
        {
            let bill = &receives[n];
            assert(receives@.take(n + 1).drop_last() =~= receives@.take(n as int));
            if bill.serial == u64::MAX {
                proof {
                    assert(receive_fault(spends@, receives@, self.next_serial as nat, n as int)
                        == Some(CashError::SerialOverflow));
                    lemma_first_receive_fault_stays(
                        spends@,
                        receives@,
                        self.next_serial as nat,
                        n + 1,
                        receives@.len() as int,
                    );
                }
                return Err(CashError::SerialOverflow);
            }
            if has_serial(spends, spends.len(), bill.serial) || has_serial(
                receives,
                n,
                bill.serial,
            ) {
                proof {
                    lemma_first_receive_fault_stays(
                        spends@,
                        receives@,
                        self.next_serial as nat,
                        n + 1,
                        receives@.len() as int,
                    );
                }
                return Err(CashError::DuplicateSerial);
            }
            if bill.amount > total - received {
                proof {
                    assert(amount_sum(receives@.take(n + 1)) == received + bill.amount);
                    lemma_first_receive_fault_stays(
                        spends@,
                        receives@,
                        self.next_serial as nat,
                        n + 1,
                        receives@.len() as int,
                    );
                }
                return Err(CashError::OverspendAttempt);
            }
            if serial == u64::MAX {
                proof {
                    lemma_first_receive_fault_stays(
                        spends@,
                        receives@,
                        self.next_serial as nat,
                        n + 1,
                        receives@.len() as int,
                    );
                }
                return Err(CashError::SerialOverflow);
            }
            received = received + bill.amount;
            kept.push(Bill { owner: bill.owner, amount: bill.amount, serial });
            serial = serial + 1;
            n += 1;
            assert(issued(receives@.take(n as int), self.next_serial as nat) =~= issued(
                receives@.take(n - 1),
                self.next_serial as nat,
            ).push(Bill { owner: bill.owner, amount: bill.amount, serial: (serial - 1) as u64 }));
        }
        assert(receives@.take(receives.len() as int) =~= receives@);
        if receives.len() > 0 && received == 0 {
            return Err(CashError::ZeroValueOutput);
        }
        let r = State { bills: kept, next_serial: serial };
        proof {
            let l = self@;
            let fresh = issued(receives@, self.next_serial as nat);
            let expected = l.bills.difference(spends@.to_set()).union(fresh.to_set());
            assert forall|b: Bill| r@.bills.contains(b) <==> expected.contains(b) by {
                if kept@.contains(b) {
                    let j = choose|j: int| 0 <= j < kept@.len() && #[trigger] kept@[j] == b;
                    if j < kept0.len() {
                        assert(kept0[j] == b);
                    } else {
                        assert(fresh[j - kept0.len()] == b);
                    }
                }
                if kept0.contains(b) {
                    let j = choose|j: int| 0 <= j < kept0.len() && #[trigger] kept0[j] == b;
                    assert(kept@[j] == b);
                }
                if fresh.contains(b) {
                    let j = choose|j: int| 0 <= j < fresh.len() && #[trigger] fresh[j] == b;
                    assert(kept@[kept0.len() + j] == b);
                }
            }
            assert(r@.bills =~= expected);
        }
        Ok(r)
    }

    /// Applies `tx` to this ledger. The ledger itself is left as it is; on success the
    /// new ledger is returned, and on rejection the reason.
    pub fn apply(&self, tx: &CashTransaction) -> (r: Result<State, CashError>)
        ensures
            outcome_view(r) == apply_outcome(self@, *tx),
    {
        match tx {
            CashTransaction::Mint { minter, amount } => self.mint(*minter, *amount),
            CashTransaction::Transfer { spends, receives } => self.transfer(spends, receives),
        }
    }
}

impl StateMachine for DigitalCashSystem {
    type State = State;

    type Transition = CashTransaction;

    /// The ledger after `transition`; a rejected transaction leaves an exact copy of
    /// the starting ledger.
    fn next_state(starting_state: &State, transition: &CashTransaction) -> (r: State)
        ensures
            r@ == next_ledger(starting_state@, *transition),
            apply_outcome(starting_state@, *transition) is Err ==> r.bills@
                == starting_state.bills@ && r.next_serial == starting_state.next_serial,
    {
        match starting_state.apply(transition) {
            Ok(s) => s,
            Err(_) => starting_state.duplicate(),
        }
    }
}


impl PartialEq for State {
    /// Ledgers are equal when they hold the same bills, in any order, and the same
    /// counter.
    fn eq(&self, other: &State) -> (r: bool) {
        if self.next_serial != other.next_serial {
            return false;
        }
        let mut i: usize = 0;
        while i < self.bills.len()
            invariant
                0 <= i <= self.bills.len(),
                forall|j: int| 0 <= j < i ==> other.bills@.contains(#[trigger] self.bills@[j]),
            decreases self.bills.len() - i,
        {
            if !holds_bill(&other.bills, &self.bills[i]) {
                assert(self@.bills.contains(self.bills@[i as int]));
                return false;
            }
            i += 1;
        }
        let mut k: usize = 0;
        while k < other.bills.len()
            invariant
                0 <= k <= other.bills.len(),
                forall|j: int| 0 <= j < k ==> self.bills@.contains(#[trigger] other.bills@[j]),
            decreases other.bills.len() - k,
        {
            if !holds_bill(&self.bills, &other.bills[k]) {
                assert(other@.bills.contains(other.bills@[k as int]));
                return false;
            }
            k += 1;
        }
        assert forall|b: Bill| self@.bills.contains(b) <==> other@.bills.contains(b) by {
            if self.bills@.contains(b) {
                let j = choose|j: int| 0 <= j < self.bills@.len() && #[trigger] self.bills@[j] == b;
                assert(other.bills@.contains(self.bills@[j]));
            }
            if other.bills@.contains(b) {
                let j = choose|j: int| 0 <= j < other.bills@.len() && #[trigger] other.bills@[j] == b;
                assert(self.bills@.contains(other.bills@[j]));
            }
        }
        assert(self@.bills =~= other@.bills);
        true
    }
}

impl vstd::std_specs::cmp::PartialEqSpecImpl for State {
    open spec fn obeys_eq_spec() -> bool {
        true
    }

    open spec fn eq_spec(&self, other: &State) -> bool {
        self@ == other@
    }
}

impl Eq for State {

}

/// The counter after seeding a ledger with `bills` in order: each bill moves it to just
/// past its serial unless it is already ahead, stopping at `u64::MAX`.
pub open spec fn seed_serial(bills: Seq<Bill>) -> nat
    decreases bills.len(),
{
    if bills.len() == 0 {
        0
    } else {
        let before = seed_serial(bills.drop_last());
        let serial = bills.last().serial;
        if serial < before {
            before
        } else if serial == u64::MAX {
            u64::MAX as nat
        } else {
            (serial + 1) as nat
        }
    }
}

impl State {
    /// Adds `bill` to the ledger and moves the counter past its serial unless it is
    /// already ahead. The counter stops at `u64::MAX`.
    fn add_bill(&mut self, bill: Bill)
        ensures
            final(self).bills@ == old(self).bills@.push(bill),
            final(self).next_serial == (if bill.serial < old(self).next_serial {
                old(self).next_serial
            } else if bill.serial == u64::MAX {
                u64::MAX
            } else {
                (bill.serial + 1) as u64
            }),
    {
        self.bills.push(bill);
        if bill.serial >= self.next_serial {
            self.next_serial = bill.serial.saturating_add(1);
        }
    }
}

impl<const N: usize> From<[Bill; N]> for State {
    /// A ledger seeded with `value`.
    fn from(value: [Bill; N]) -> (r: State)
        ensures
            r.bills@ == value@,
            r.next_serial == seed_serial(value@),
    {
        let mut state = State::new();
        let mut i: usize = 0;
        while i < N
            invariant
                0 <= i <= N,
                value@.len() == N,
                state.bills@ == value@.take(i as int),
                state.next_serial == seed_serial(value@.take(i as int)),
            decreases N - i,
        {
            state.add_bill(value[i]);
            assert(value@.take(i + 1).drop_last() =~= value@.take(i as int));
            i += 1;
            assert(state.bills@ =~= value@.take(i as int));
        }
        assert(value@.take(N as int) =~= value@);
        state
    }
}

impl<const N: usize> vstd::std_specs::convert::FromSpecImpl<[Bill; N]> for State {
    open spec fn obeys_from_spec() -> bool {
        false
    }

    open spec fn from_spec(v: [Bill; N]) -> State {
        choose|s: State| s.bills@ == v@ && s.next_serial == seed_serial(v@)
    }
}

proof fn lemma_no_spend_fault(bills: Set<Bill>, spends: Seq<Bill>, n: int)
    requires
        first_spend_fault(bills, spends, n) is None,
    ensures
        forall|i: int| 0 <= i < n ==> #[trigger] spend_fault(bills, spends, i) is None,
    decreases n,
{
    if n > 0 {
        lemma_no_spend_fault(bills, spends, n - 1);
    }
}

proof fn lemma_no_receive_fault(spends: Seq<Bill>, receives: Seq<Bill>, next_serial: nat, n: int)
    requires
        first_receive_fault(spends, receives, next_serial, n) is None,
    ensures
        forall|i: int|
            0 <= i < n ==> #[trigger] receive_fault(spends, receives, next_serial, i) is None,
    decreases n,
{
    if n > 0 {
        lemma_no_receive_fault(spends, receives, next_serial, n - 1);
    }
}

/// Conservation: an accepted transfer that spends anything issues bills worth no more
/// than the spent ones; one that spends nothing changes nothing.
pub proof fn lemma_conservation(l: Ledger, spends: Seq<Bill>, receives: Seq<Bill>)
    requires
        transfer_outcome(l, spends, receives) is Ok,
    ensures
        spends.len() == 0 ==> transfer_outcome(l, spends, receives) == Ok::<Ledger, CashError>(l),
        spends.len() > 0 ==> amount_sum(issued(receives, l.next_serial)) == amount_sum(receives)
            && amount_sum(receives) <= amount_sum(spends),
{
    if spends.len() > 0 {
        lemma_issued_amounts(receives, l.next_serial);
        if receives.len() > 0 {
            let n = receives.len() as int;
            lemma_no_receive_fault(spends, receives, l.next_serial, n);
            assert(receive_fault(spends, receives, l.next_serial, n - 1) is None);
            assert(receives.take(n) =~= receives);
        }
    }
}

/// Issuing keeps the amounts.
proof fn lemma_issued_amounts(receives: Seq<Bill>, first: nat)
    ensures
        amount_sum(issued(receives, first)) == amount_sum(receives),
    decreases receives.len(),
{
    if receives.len() > 0 {
        lemma_issued_amounts(receives.drop_last(), first);
        assert(issued(receives, first).drop_last() =~= issued(receives.drop_last(), first));
    }
}

/// No double spend: a transfer that spends a bill missing from the ledger, or spends a
/// serial twice, is rejected, and the state machine keeps the ledger as it was.
pub proof fn lemma_no_double_spend(l: Ledger, spends: Seq<Bill>, receives: Seq<Bill>, i: int)
    requires
        0 <= i < spends.len(),
        !l.bills.contains(spends[i]) || serial_among(spends, i, spends[i].serial),
    ensures
        transfer_outcome(l, spends, receives) is Err,
{
    if first_spend_fault(l.bills, spends, spends.len() as int) is None {
        lemma_no_spend_fault(l.bills, spends, spends.len() as int);
        assert(spend_fault(l.bills, spends, i) is None);
    }
}

/// Adds a bill's amount to a running total.
pub open spec fn add_amount() -> spec_fn(int, Bill) -> int {
    |acc: int, b: Bill| acc + b.amount
}

/// The total value of `bills`.
pub open spec fn total_value(bills: Set<Bill>) -> int {
    bills.fold(0int, add_amount())
}

proof fn lemma_total_insert(bills: Set<Bill>, b: Bill)
    requires
        bills.finite(),
        !bills.contains(b),
    ensures
        total_value(bills.insert(b)) == total_value(bills) + b.amount,
{
    assert(is_fun_commutative(add_amount()));
    lemma_fold_insert(bills, 0int, add_amount(), b);
}

proof fn lemma_total_disjoint_union(a: Set<Bill>, b: Set<Bill>)
    requires
        a.finite(),
        b.finite(),
        a.disjoint(b),
    ensures
        total_value(a.union(b)) == total_value(a) + total_value(b),
    decreases b.len(),
{
    if b.len() == 0 {
        assert(b =~= Set::<Bill>::empty());
        assert(a.union(b) =~= a);
        lemma_fold_empty(0int, add_amount());
    } else {
        let x = b.choose();
        let rest = b.remove(x);
        lemma_total_disjoint_union(a, rest);
        assert(rest.insert(x) =~= b);
        assert(a.union(rest).insert(x) =~= a.union(b));
        lemma_total_insert(rest, x);
        lemma_total_insert(a.union(rest), x);
    }
}

proof fn lemma_total_of_distinct(bills: Seq<Bill>)
    requires
        bills.no_duplicates(),
    ensures
        total_value(bills.to_set()) == amount_sum(bills),
    decreases bills.len(),
{
    if bills.len() == 0 {
        assert(bills.to_set() =~= Set::<Bill>::empty());
        lemma_fold_empty(0int, add_amount());
    } else {
        let init = bills.drop_last();
        assert(init.no_duplicates());
        lemma_total_of_distinct(init);
        assert(init.push(bills.last()) =~= bills);
        init.lemma_push_to_set_commute(bills.last());
        assert(!init.contains(bills.last()));
        lemma_total_insert(init.to_set(), bills.last());
    }
}

/// Conservation over the ledger's value: an accepted transfer that spends anything takes
/// exactly the spent value out of the ledger and puts exactly the received value in,
/// which is no more; the difference is burned.
pub proof fn lemma_transfer_conserves_value(l: Ledger, spends: Seq<Bill>, receives: Seq<Bill>)
    requires
        l.wf(),
        l.bills.finite(),
        spends.len() > 0,
        transfer_outcome(l, spends, receives) is Ok,
    ensures
        total_value(transfer_outcome(l, spends, receives).unwrap().bills) == total_value(l.bills)
            - amount_sum(spends) + amount_sum(receives),
        total_value(transfer_outcome(l, spends, receives).unwrap().bills) <= total_value(
            l.bills,
        ),
        transfer_outcome(l, spends, receives).unwrap().bills.difference(l.bills) == issued(
            receives,
            l.next_serial,
        ).to_set(),
        total_value(transfer_outcome(l, spends, receives).unwrap().bills.difference(l.bills))
            == amount_sum(receives),
        amount_sum(receives) <= amount_sum(spends),
{
    lemma_conservation(l, spends, receives);
    lemma_no_spend_fault(l.bills, spends, spends.len() as int);
    lemma_no_receive_fault(spends, receives, l.next_serial, receives.len() as int);
    let spent = spends.to_set();
    let fresh = issued(receives, l.next_serial);
    let kept = l.bills.difference(spent);
    assert forall|i: int, j: int| 0 <= i < spends.len() && 0 <= j < spends.len() && i != j
        implies spends[i] != spends[j] by {
        if i < j {
            assert(spend_fault(l.bills, spends, j) is None);
            assert(spends[i].serial != spends[j].serial);
        } else {
            assert(spend_fault(l.bills, spends, i) is None);
            assert(spends[j].serial != spends[i].serial);
        }
    }
    lemma_total_of_distinct(spends);
    assert forall|b: Bill| spent.contains(b) implies l.bills.contains(b) by {
        let i = choose|i: int| 0 <= i < spends.len() && #[trigger] spends[i] == b;
        assert(spend_fault(l.bills, spends, i) is None);
    }
    assert(kept.union(spent) =~= l.bills);
    lemma_total_disjoint_union(kept, spent);
    assert forall|i: int| 0 <= i < receives.len() implies #[trigger] fresh[i].serial
        == l.next_serial + i by {
        assert(receive_fault(spends, receives, l.next_serial, i) is None);
    }
    assert forall|i: int, j: int| 0 <= i < fresh.len() && 0 <= j < fresh.len() && i != j
        implies fresh[i] != fresh[j] by {
        assert(fresh[i].serial == l.next_serial + i);
        assert(fresh[j].serial == l.next_serial + j);
    }
    lemma_total_of_distinct(fresh);
    lemma_issued_amounts(receives, l.next_serial);
    assert forall|b: Bill| kept.contains(b) implies !fresh.to_set().contains(b) by {
        if fresh.to_set().contains(b) {
            let i = choose|i: int| 0 <= i < fresh.len() && #[trigger] fresh[i] == b;
            assert(fresh[i].serial == l.next_serial + i);
        }
    }
    assert(kept.disjoint(fresh.to_set()));
    lemma_total_disjoint_union(kept, fresh.to_set());
    let n = transfer_outcome(l, spends, receives).unwrap();
    assert forall|b: Bill| fresh.to_set().contains(b) implies !l.bills.contains(b) by {
        let i = choose|i: int| 0 <= i < fresh.len() && #[trigger] fresh[i] == b;
        assert(fresh[i].serial == l.next_serial + i);
    }
    assert(n.bills.difference(l.bills) =~= fresh.to_set());
}

/// The ledger after each of `txs` in turn, rejected ones leaving it as it was.
pub open spec fn run_ledger(l: Ledger, txs: Seq<CashTransaction>) -> Ledger
    decreases txs.len(),
{
    if txs.len() == 0 {
        l
    } else {
        next_ledger(run_ledger(l, txs.drop_last()), txs.last())
    }
}

/// One transaction never lowers the counter, issues bills only with serials from the old
/// counter on, and keeps every serial below the counter and unique.
pub proof fn lemma_step_keeps_serials(l: Ledger, tx: CashTransaction)
    requires
        l.wf(),
    ensures
        next_ledger(l, tx).wf(),
        next_ledger(l, tx).next_serial >= l.next_serial,
        forall|b: Bill|
            #[trigger] next_ledger(l, tx).bills.contains(b) && !l.bills.contains(b)
                ==> l.next_serial <= b.serial,
{
    match tx {
        CashTransaction::Mint { minter, amount } => {},
        CashTransaction::Transfer { spends, receives } => {
            let (sp, rc) = (spends@, receives@);
            if let Ok(n) = transfer_outcome(l, sp, rc) {
                if sp.len() > 0 {
                    let fresh = issued(rc, l.next_serial);
                    lemma_no_receive_fault(sp, rc, l.next_serial, rc.len() as int);
                    assert forall|i: int| 0 <= i < rc.len() implies #[trigger] fresh[i].serial
                        == l.next_serial + i && l.next_serial + i < u64::MAX by {
                        assert(receive_fault(sp, rc, l.next_serial, i) is None);
                    }
                    assert forall|b: Bill| #[trigger] n.bills.contains(b) implies b.serial
                        < n.next_serial && (!l.bills.contains(b) ==> l.next_serial
                        <= b.serial) by {
                        if fresh.to_set().contains(b) {
                            let j = choose|j: int| 0 <= j < fresh.len() && #[trigger] fresh[j] == b;
                        }
                    }
                    assert forall|b1: Bill, b2: Bill|
                        #[trigger] n.bills.contains(b1) && #[trigger] n.bills.contains(b2)
                            && b1.serial == b2.serial implies b1 == b2 by {
                        if fresh.to_set().contains(b1) {
                            let j1 = choose|j: int| 0 <= j < fresh.len() && #[trigger] fresh[j] == b1;
                            if fresh.to_set().contains(b2) {
                                let j2 = choose|j: int| 0 <= j < fresh.len() && #[trigger] fresh[j] == b2;
                            }
                        } else if fresh.to_set().contains(b2) {
                            let j2 = choose|j: int| 0 <= j < fresh.len() && #[trigger] fresh[j] == b2;
                        }
                    }
                    if rc.len() > 0 {
                        assert(receive_fault(sp, rc, l.next_serial, rc.len() - 1) is None);
                    }
                }
            }
        },
    }
}

/// Serial monotonicity: over any sequence of transactions the counter never goes down,
/// and every bill's serial stays below it and unique, so no serial still to be handed
/// out is held by a bill.
pub proof fn lemma_run_keeps_serials(l: Ledger, txs: Seq<CashTransaction>)
    requires
        l.wf(),
    ensures
        run_ledger(l, txs).wf(),
        run_ledger(l, txs).next_serial >= l.next_serial,
    decreases txs.len(),
{
    if txs.len() > 0 {
        lemma_run_keeps_serials(l, txs.drop_last());
        lemma_step_keeps_serials(run_ledger(l, txs.drop_last()), txs.last());
    }
}

} // verus!
