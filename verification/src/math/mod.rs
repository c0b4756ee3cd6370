//! Route planning: the order and direction in which flight lines are flown.

pub mod routing;
