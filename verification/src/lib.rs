//! Verified core of a corn-maze arcade game: fixed-point 3D vectors,
//! an AABB collision resolver with sliding response, a shared
//! velocity/friction integrator, piecewise-linear flight arcs, and the
//! combine / enemy / football / player agent state machines.
//!
//! All world quantities are held in milli-units (one world unit is 1000
//! steps of an `i64`); rendering, audio, input mapping and the engine's
//! entity store stay outside this crate.

pub mod fx;
pub mod vec3;
pub mod kinematics;
pub mod arc;
pub mod collision;
pub mod rng;
pub mod game_state;
pub mod maze;
pub mod enemy;
pub mod combine;
pub mod player;
pub mod football;
