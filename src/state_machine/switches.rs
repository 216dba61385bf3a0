//! Light switches: the simplest state machines, whose state is which switches are on.

use vstd::prelude::*;

use super::StateMachine;

verus! {

/// A single light switch. Its state is whether it is on; its one transition toggles it.
pub struct LightSwitch;

impl StateMachine for LightSwitch {
    type State = bool;

    type Transition = ();

    fn next_state(starting_state: &bool, _t: &()) -> (r: bool)
        ensures
            r == !*starting_state,
    {
        !*starting_state
    }
}

/// Two switches with one weird property: whenever the first is turned off, the second
/// goes off too.
pub struct WeirdSwitchMachine;

/// The state of the two switches.
#[derive(PartialEq, Eq, Structural, Debug, Clone, Copy)]
pub struct TwoSwitches {
    pub first_switch: bool,
    pub second_switch: bool,
}

/// Which switch to toggle.
#[derive(PartialEq, Eq, Structural, Debug, Clone, Copy)]
pub enum Toggle {
    FirstSwitch,
    SecondSwitch,
}

impl StateMachine for WeirdSwitchMachine {
    type State = TwoSwitches;

    type Transition = Toggle;

    fn next_state(starting_state: &TwoSwitches, transition: &Toggle) -> (r: TwoSwitches)
        ensures
            *transition == Toggle::FirstSwitch ==> r == (TwoSwitches {
                first_switch: !starting_state.first_switch,
                second_switch: !starting_state.first_switch && starting_state.second_switch,
            }),
            *transition == Toggle::SecondSwitch ==> r == (TwoSwitches {
                first_switch: starting_state.first_switch,
                second_switch: !starting_state.second_switch,
            }),
    {
        match transition {
            Toggle::FirstSwitch => TwoSwitches {
                first_switch: !starting_state.first_switch,
                second_switch: if starting_state.first_switch {
                    false
                } else {
                    starting_state.second_switch
                },
            },
            Toggle::SecondSwitch => TwoSwitches {
                first_switch: starting_state.first_switch,
                second_switch: !starting_state.second_switch,
            },
        }
    }
}

} // verus!
