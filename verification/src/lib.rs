//! The gameplay core of a top-down endless runner: a player flees a pursuing
//! enemy across a vertically scrolling field of mud, parked cars and
//! patrolling dogs.
//!
//! Every quantity is a fixed-point integer, so that each rule of the game is
//! an exact statement: lengths are counted in thousandths of a world unit and
//! speeds in hundred-thousandths of a world unit per tick (see [`units`]).

pub mod components;
pub mod events;
pub mod geometry;
pub mod placement;
pub mod random;
pub mod resources;
pub mod states;
pub mod systems;
pub mod units;
