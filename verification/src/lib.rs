//! Core of a slime-mold trail simulation: agents move on a toroidal grid,
//! sense a scalar trail field through three directional sensors, and deposit
//! intensity that diffuses and evaporates once per tick.

pub mod grid;
pub mod field;
pub mod direction;
pub mod agent;
pub mod imager;
pub mod sim;
mod rng;

pub use grid::{WorldDimensions, wrap, to_index, row_of};
pub use field::{TrailMap, readings_3x3, read_neighborhood_average, trail_map, INTENSITY_CAP};
pub use direction::angle_to_unit_vec;
pub use agent::{Particle, Sensor, SensorControll, SensorPosition, movement, sense, steer,
    PARTICLE_SPEED};
pub use imager::render;
pub use sim::{Config, ConfigError, Simulation, spawn_particles};
