//! A "Simon"-style memory game core: geometry hit testing, a growing random
//! quadrant sequence, a scene state machine, and high-score persistence.

pub mod game;
pub mod geometry;
pub mod persist;
pub mod rng;
