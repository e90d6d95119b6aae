//! A small counter store of the web client: requests are turned into
//! actions, and actions change the stored value.

use vstd::prelude::*;

verus! {

/// A request to the counter.
#[derive(Clone, Copy, Debug, PartialEq, Eq, Structural)]
pub enum Request {
    Increment,
    SetTo(usize),
    Reset,
    Decrement,
}

/// A change of the stored value.
#[derive(Clone, Copy, Debug, PartialEq, Eq, Structural)]
pub enum Action {
    SetValue(usize),
}

/// The counter's state.
#[derive(Debug, PartialEq)]
pub struct CounterStore {
    pub value: usize,
}

/// The action that `handle_input` sends for `msg` when the value is `value`.
pub open spec fn action_for(value: usize, msg: Request) -> Option<Action> {
    match msg {
        Request::Increment => Some(Action::SetValue((value + 1) as usize)),
        Request::Decrement => if value > 0 {
            Some(Action::SetValue((value - 1) as usize))
        } else {
            None
        },
        Request::SetTo(v) => Some(Action::SetValue(v)),
        Request::Reset => Some(Action::SetValue(0)),
    }
}

impl CounterStore {
    /// A fresh store holds 3.
    pub fn new() -> (r: Self)
        ensures
            r.value == 3,
    {
        CounterStore { value: 3 }
    }

    /// The action to send for a request: one up, one down (never below
    /// zero), a given value, or zero.
    pub fn handle_input(&self, msg: Request) -> (r: Option<Action>)
        requires
            msg is Increment ==> self.value < usize::MAX,
        ensures
            r == action_for(self.value, msg),
    {
        match msg {
            Request::Increment => Some(Action::SetValue(self.value + 1)),
            Request::Decrement => {
                if self.value > 0 {
                    Some(Action::SetValue(self.value - 1))
                } else {
                    None
                }
            },
            Request::SetTo(val) => Some(Action::SetValue(val)),
            Request::Reset => Some(Action::SetValue(0)),
        }
    }

    /// Applies an action.
    pub fn reduce(&mut self, msg: Action)
        ensures
            match msg {
                Action::SetValue(v) => final(self).value == v,
            },
    {
        match msg {
            Action::SetValue(val) => {
                self.value = val;
            },
        }
    }
}

} // verus!
