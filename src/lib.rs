// A brick-breaking simulation on integer geometry: overlap tests, motion,
// collision response, scoring and the ball's relaunch, one tick at a time.

pub mod collision;
pub mod geometry;
pub mod motion;
pub mod round;
pub mod world;
