//! An agent-based ecological simulation on a discrete grid.
//!
//! Two species, herbivores and predators, forage, flee, hunt, reproduce,
//! age and starve while vegetation grows and recedes.  The per-tick engine
//! (activity state machine, hunger and aging, target selection and movement
//! scoring, eating, predation, reproduction, environment dynamics) is
//! verified; presentation layers read the world state through the exported
//! accessors and inject terrain edits through `World::set_terrain`.
//!
//! All quantities are integers: durations in milliseconds, hunger in
//! thousandths of a point, probabilities in parts per million.

pub mod config;
pub mod creature;
pub mod environment;
pub mod grid;
pub mod interact;
pub mod laws;
pub mod movement;
pub mod rng;
pub mod target;
pub mod world;
