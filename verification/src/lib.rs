//! Swept collision detection and response for balls that bounce between the
//! walls of a rectangular arena and off a movable paddle.
//!
//! Everything lives on an integer grid ([`geometry`]). One tick of a body is
//! the wall check, which turns its velocity round where it has left the
//! arena; the proposal of its move; the check of that move against the
//! paddle's proposed rectangle, which bounces the body at the first point
//! where the move meets the perimeter ([`contact`], [`body`]); and the
//! commit. A simulation ([`simulation`]) does this for every body and moves
//! the paddle ([`obstacle`]) by the input of the tick. A body that leaves the
//! arena through any of its four walls is turned back; none is ever lost.
//!
//! [`contact_laws`] and [`laws`] state what holds of all this whatever the
//! state: the first contact is the earliest point of the move on the
//! perimeter, a bounce is an exact reflection, a body is not let into the
//! paddle, and bodies stay within reach of the arena.

pub mod body;
pub mod contact;
pub mod contact_laws;
pub mod geometry;
pub mod laws;
pub mod obstacle;
pub mod simulation;
