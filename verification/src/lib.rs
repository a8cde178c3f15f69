//! Ranking and gap engine for a multi-car racing session.
//!
//! Once per telemetry tick the caller hands over, for every car slot, how far the car
//! has travelled, together with the session clock. The engine remembers when each car
//! first reached each checkpoint of its total distance and derives every car's rank and
//! its time gap to the car ahead and to the leader.
//!
//! All quantities are integers: distance in millionths of a lap, time in ticks of the
//! session clock. Every function in this crate is verified against its contract.

pub mod progress;
pub mod history;
pub mod ranking;
pub mod gap_calculator;
pub mod session;
pub mod text;
pub mod logging;
pub mod telemetry_fields;
