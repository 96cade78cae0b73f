//! The commands of the control socket.
//!
//! `router` tells the commands apart, `handlers` says what each of them asks for and how it is
//! answered, `pause` keeps the schedule of timed pauses, and `duration`, `clock` and `dump` read
//! the arguments. `laws` states what the arguments mean.

pub mod clock;
pub mod dump;
pub mod duration;
pub mod handlers;
pub mod laws;
pub mod pause;
pub mod router;
