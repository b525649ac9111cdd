//! A crowd-chase simulation in fixed-point arithmetic: a keyboard-driven
//! player, a crowd of NPCs seeking the player, a following camera, and the
//! per-frame transform rules that move and pose them.

pub mod fixed;
pub mod motion;
pub mod world;
pub mod spawn;
pub mod laws;
