//! The switch: a named timer with a deadline and, optionally, the start of
//! the window in which a check-in is expected.

use crate::time::{earliest, horizon, Timestamp};
use vstd::prelude::*;

verus! {

/// What a switch is, in the terms the contracts speak of: its name as a sequence of
/// characters, and its instants as nanoseconds since the Unix epoch.
pub struct SwitchView {
    pub name: Seq<char>,
    pub deadline: int,
    pub window_start: Option<int>,
}

impl SwitchView {
    /// The deadline is an instant that can be held, and so is the start of the window,
    /// which does not lie after the deadline.
    pub open spec fn well_formed(self) -> bool {
        &&& earliest() <= self.deadline < horizon()
        &&& self.window_start matches Some(start) ==> earliest() <= start <= self.deadline
    }
}

/// A named timer: unless it is checked into by its deadline, it has failed. A check-in
/// before the start of its window, where it has one, is early.
#[derive(Debug, PartialEq, Eq)]
pub struct Switch {
    name: String,
    deadline: Timestamp,
    window_start: Option<Timestamp>,
}

impl View for Switch {
    type V = SwitchView;

    closed spec fn view(&self) -> SwitchView {
        SwitchView {
            name: self.name@,
            deadline: self.deadline@,
            window_start: match self.window_start {
                Some(start) => Some(start@),
                None => None,
            },
        }
    }
}

impl Switch {
    #[verifier::type_invariant]
    closed spec fn window_ordered(self) -> bool {
        self.window_start matches Some(start) ==> start@ <= self.deadline@
    }

    /// The switch of that name, deadline and window start; none if the window would start
    /// after the deadline.
    pub fn new(name: String, deadline: Timestamp, window_start: Option<Timestamp>) -> (r: Option<
        Switch,
    >)
        ensures
            r is Some <==> (window_start matches Some(start) ==> start@ <= deadline@),
            r matches Some(s) ==> s@ == (SwitchView {
                name: name@,
                deadline: deadline@,
                window_start: match window_start {
                    Some(start) => Some(start@),
                    None => None,
                },
            }) && s@.well_formed(),
    {
        let ordered = match &window_start {
            Some(start) => !deadline.is_before(start),
            None => true,
        };
        if ordered {
            let _ = deadline.secs();
            if let Some(start) = &window_start {
                let _ = start.secs();
            }
            Some(Switch { name, deadline, window_start })
        } else {
            None
        }
    }

    /// The name, which identifies the switch.
    pub fn name(&self) -> (r: &String)
        ensures
            r@ == self@.name,
    {
        &self.name
    }

    /// The instant after which the switch has failed.
    pub fn deadline(&self) -> (r: Timestamp)
        ensures
            r@ == self@.deadline,
            self@.well_formed(),
    {
        proof {
            use_type_invariant(self);
        }
        let _ = self.deadline.secs();
        if let Some(start) = &self.window_start {
            let _ = start.secs();
        }
        self.deadline
    }

    /// The start of the window in which a check-in is expected, if the switch has one.
    pub fn window_start(&self) -> (r: Option<Timestamp>)
        ensures
            r is Some <==> self@.window_start is Some,
            r matches Some(start) ==> self@.window_start == Some(start@),
            self@.well_formed(),
    {
        let _ = self.deadline();
        self.window_start
    }
}

impl Clone for Switch {
    fn clone(&self) -> (r: Switch)
        ensures
            r@ == self@,
    {
        proof {
            use_type_invariant(self);
        }
        Switch {
            name: self.name.clone(),
            deadline: self.deadline,
            window_start: self.window_start,
        }
    }
}

} // verus!
