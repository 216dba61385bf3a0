//! Systems modelled as state machines: each one is a pure transition function from a
//! starting state and a transition to the next state.

use vstd::prelude::*;

pub mod accounted_currency;
pub mod atm;
pub mod digital_cash;
pub mod switches;

verus! {

/// A state machine, generic over its states and transitions.
pub trait StateMachine {
    /// The states that the machine can occupy.
    type State;

    /// The transitions that can be made between states.
    type Transition;

    /// The state that results when `starting_state` undergoes `transition`.
    fn next_state(starting_state: &Self::State, transition: &Self::Transition) -> Self::State;
}

/// The participants of the multi-user machines.
#[derive(Hash, PartialEq, Eq, Structural, Debug, Clone, Copy)]
pub enum User {
    Alice,
    Bob,
    Charlie,
}

} // verus!
