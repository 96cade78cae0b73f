//! Watching where the machine takes its power from.

use vstd::prelude::*;

use crate::events::{Event, PowerState};
use crate::host::ChassisKind;

verus! {

/// The state that running on mains power or not makes.
pub open spec fn power_state(on_ac: bool) -> PowerState {
    if on_ac {
        PowerState::OnAC
    } else {
        PowerState::OnBattery
    }
}

/// Remembers the source of power that was told last.
#[derive(Debug)]
pub struct PowerWatch {
    on_ac: bool,
}

impl View for PowerWatch {
    type V = bool;

    closed spec fn view(&self) -> bool {
        self.on_ac
    }
}

/// The event that tells the source of power.
pub fn power_event(on_ac: bool, now_ms: u64) -> (r: Event)
    ensures
        r == (Event::PowerChanged { state: power_state(on_ac), now_ms }),
{
    let state = if on_ac {
        PowerState::OnAC
    } else {
        PowerState::OnBattery
    };
    Event::PowerChanged { state, now_ms }
}

impl PowerWatch {
    /// Starts the watch: a laptop's source is told at once, a desktop's is not watched.
    pub fn start(chassis: ChassisKind, on_ac: bool, now_ms: u64) -> (r: Option<(Self, Event)>)
        ensures
            match r {
                Some((w, e)) => chassis == ChassisKind::Laptop && w@ == on_ac && e == (
                Event::PowerChanged { state: power_state(on_ac), now_ms }),
                None => chassis == ChassisKind::Desktop,
            },
    {
        match chassis {
            ChassisKind::Desktop => None,
            ChassisKind::Laptop => Some((PowerWatch { on_ac }, power_event(on_ac, now_ms))),
        }
    }

    /// Takes a look at the source of power: only a change is told.
    pub fn poll(&mut self, on_ac: bool, now_ms: u64) -> (r: Option<Event>)
        ensures
            final(self)@ == on_ac,
            match r {
                Some(e) => on_ac != old(self)@ && e == (Event::PowerChanged {
                    state: power_state(on_ac),
                    now_ms,
                }),
                None => on_ac == old(self)@,
            },
    {
        if on_ac == self.on_ac {
            return None;
        }
        self.on_ac = on_ac;
        Some(power_event(on_ac, now_ms))
    }
}

} // verus!
