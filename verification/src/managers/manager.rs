//! The states that a supervisor or a worker goes through.

use vstd::prelude::*;

verus! {

/// The state of a supervisor or of a worker.
#[derive(Clone, Copy, Debug, PartialEq, Eq, Structural)]
pub enum State {
    Offline,
    Unauthenticated,
    Authenticated,
    Ready,
}

/// The name of a state.
pub open spec fn state_name(state: State) -> Seq<char> {
    match state {
        State::Offline => "Offline"@,
        State::Unauthenticated => "Unauthenticated"@,
        State::Authenticated => "Authenticated"@,
        State::Ready => "Ready"@,
    }
}

impl State {
    /// The name of the state.
    pub fn name(&self) -> (name: &'static str)
        ensures
            name@ == state_name(*self),
    {
        match self {
            State::Offline => "Offline",
            State::Unauthenticated => "Unauthenticated",
            State::Authenticated => "Authenticated",
            State::Ready => "Ready",
        }
    }
}

} // verus!
