//! NPC combat behavior controller.
//!
//! A core for the combat behavior of non-player characters in a tick-driven
//! simulation: per-NPC stat profiles, a health pool with one-shot death
//! signaling, the Chase / Stagger / Attack behavior state machine, the attack
//! intent it produces, and the death reaction that fans out debris spawns.
//! All quantities are integers: durations in milliseconds, speeds and
//! positions in milli-units, probabilities in parts per thousand. Randomness
//! enters only through narrow samplers; every transition function takes the
//! sampled values as arguments, so the rules themselves are fully specified.

pub mod behavior;
pub mod debris;
pub mod geom;
pub mod health;
pub mod sampling;
pub mod stats;
pub mod world;
