//! The tick driver: owns the world, the field and the population, and runs
//! the per-tick phases in their fixed order: every agent moves against the
//! pre-tick field, then the field diffuses and evaporates from its pre-tick
//! snapshot, then the agents' post-move positions are deposited.

use vstd::prelude::*;
use crate::grid::WorldDimensions;
use crate::field::{
    TrailMap, field_wf, diffused, deposited, position_in_bounds, trail_map, INTENSITY_CAP,
};
use crate::agent::{Particle, SensorControll, movement, stepped, HEADING_LIMIT};
use crate::rng::random_in_range;

verus! {

/// Everything the core is configured with. Intensities are fixed-point
/// integers in whatever unit the caller chose; angles are whole degrees;
/// distances and speeds are cells.
pub struct Config {
    pub population_size: usize,
    pub width: i32,
    pub height: i32,
    pub sensor_angle_deg: i64,
    pub sensor_distance: i64,
    pub evaporation_threshold: u64,
    pub deposit_intensity: u64,
    pub step_speed: i64,
    pub turn_increment_deg: i64,
    pub tick_millis: u64,
}

/// Why a configuration was rejected.
#[derive(PartialEq, Eq, Structural, Debug)]
pub enum ConfigError {
    ZeroWidth,
    ZeroHeight,
    WorldTooLarge,
    SensorAngleOutOfRange,
    SensorDistanceOutOfRange,
    DepositIntensityTooHigh,
    StepSpeedOutOfRange,
    TurnIncrementOutOfRange,
    SpawnOutOfBounds,
}

impl Config {
    /// A configuration the world can be built from: positive dimensions,
    /// and every tuning value inside the range the arithmetic supports.
    pub open spec fn valid(self) -> bool {
        &&& 1 <= self.width
        &&& 1 <= self.height
        &&& self.width * self.height <= 0x4000_0000
        &&& 0 <= self.sensor_angle_deg <= 0x4000_0000
        &&& 0 <= self.sensor_distance <= 0x4000_0000
        &&& self.deposit_intensity <= INTENSITY_CAP
        &&& 0 <= self.step_speed <= 0x4000_0000
        &&& 0 <= self.turn_increment_deg <= 0x4000_0000
    }
}

/// The first fault of an unusable configuration, in the order the
/// constructor checks them.
pub open spec fn config_fault(c: Config) -> ConfigError {
    if c.width < 1 {
        ConfigError::ZeroWidth
    } else if c.height < 1 {
        ConfigError::ZeroHeight
    } else if c.width * c.height > 0x4000_0000 {
        ConfigError::WorldTooLarge
    } else if !(0 <= c.sensor_angle_deg <= 0x4000_0000) {
        ConfigError::SensorAngleOutOfRange
    } else if !(0 <= c.sensor_distance <= 0x4000_0000) {
        ConfigError::SensorDistanceOutOfRange
    } else if c.deposit_intensity > INTENSITY_CAP {
        ConfigError::DepositIntensityTooHigh
    } else if !(0 <= c.step_speed <= 0x4000_0000) {
        ConfigError::StepSpeedOutOfRange
    } else {
        ConfigError::TurnIncrementOutOfRange
    }
}

/// Positions of a population, in order.
pub open spec fn positions_of(ps: Seq<Particle>) -> Seq<(i32, i32)> {
    ps.map_values(|p: Particle| (p.x, p.y))
}

/// The whole simulation state: world, field, population and tuning.
pub struct Simulation {
    pub dim: WorldDimensions,
    pub map: TrailMap,
    pub particles: Vec<Particle>,
    pub sensors: SensorControll,
    pub evaporation_threshold: u64,
    pub deposit_intensity: u64,
    pub step_speed: i64,
    pub turn_increment_deg: i64,
    pub tick_millis: u64,
}

impl Simulation {
    /// The state every constructor establishes and every tick preserves.
    pub open spec fn wf(self) -> bool {
        &&& self.dim.valid()
        &&& field_wf(self.map.trail@, self.dim)
        &&& self.sensors.valid()
        &&& forall|j: int| 0 <= j < self.particles@.len()
            ==> (#[trigger] self.particles@[j]).wf(self.dim)
        &&& self.deposit_intensity <= INTENSITY_CAP
        &&& 0 <= self.step_speed <= 0x4000_0000
        &&& 0 <= self.turn_increment_deg <= 0x4000_0000
    }

    /// Builds a world from a configuration and an explicit population, so a
    /// caller (or a test) can fix every spawn deterministically. The field
    /// starts all zero; spawn headings are stored as given. Fails exactly on
    /// the first configuration fault, in the order of the variants, or on a
    /// spawn off the grid or with a heading beyond the machine limit.
    pub fn new(config: &Config, spawns: Vec<Particle>) -> (r: Result<Simulation, ConfigError>)
        ensures
            r is Ok <==> (config.valid() && forall|j: int| 0 <= j < spawns@.len()
                ==> position_in_bounds(((#[trigger] spawns@[j]).x, spawns@[j].y),
                        WorldDimensions { width: config.width, height: config.height })
                    && -HEADING_LIMIT <= spawns@[j].heading <= HEADING_LIMIT),
            r matches Err(e) ==> e == (if !config.valid() {
                config_fault(*config)
            } else {
                ConfigError::SpawnOutOfBounds
            }),
            r matches Ok(s) ==> {
                &&& s.wf()
                &&& s.dim.width == config.width
                &&& s.dim.height == config.height
                &&& s.map.trail@.len() == s.dim.cells()
                &&& forall|i: int| 0 <= i < s.map.trail@.len() ==> s.map.trail@[i] == 0
                &&& s.particles@.len() == spawns@.len()
                &&& forall|j: int| 0 <= j < spawns@.len()
                    ==> (#[trigger] s.particles@[j]).x == spawns@[j].x
                        && s.particles@[j].y == spawns@[j].y
                        && s.particles@[j].heading == spawns@[j].heading
                &&& s.sensors.right.angle == config.sensor_angle_deg
                &&& s.sensors.left.distance == config.sensor_distance
                &&& s.evaporation_threshold == config.evaporation_threshold
                &&& s.deposit_intensity == config.deposit_intensity
                &&& s.step_speed == config.step_speed
                &&& s.turn_increment_deg == config.turn_increment_deg
                &&& s.tick_millis == config.tick_millis
            },
    {
        let dim = match check_config(config) {
            Ok(d) => d,
            Err(e) => {
                return Err(e);
            },
        };
        let mut particles: Vec<Particle> = Vec::new();
        let mut j: usize = 0;
        let m = spawns.len();
        while j < m
            invariant
                j <= m,
                m == spawns@.len(),
                dim.valid(),
                dim == (WorldDimensions { width: config.width, height: config.height }),
                config.valid(),
                particles@.len() == j,
                forall|i: int| 0 <= i < j ==> position_in_bounds(
                    ((#[trigger] spawns@[i]).x, spawns@[i].y), dim)
                    && -HEADING_LIMIT <= spawns@[i].heading <= HEADING_LIMIT,
                forall|i: int| 0 <= i < j
                    ==> (#[trigger] particles@[i]).x == spawns@[i].x
                        && particles@[i].y == spawns@[i].y
                        && particles@[i].heading == spawns@[i].heading
                        && particles@[i].wf(dim),
            decreases m - j,
        {
            let s = spawns[j];
            if s.x < 0 || s.x >= dim.width || s.y < 0 || s.y >= dim.height
                || s.heading < -HEADING_LIMIT || s.heading > HEADING_LIMIT {
                proof {
                    assert(!(position_in_bounds(
                        ((spawns@[j as int]).x, spawns@[j as int].y), dim)
                        && -HEADING_LIMIT <= spawns@[j as int].heading <= HEADING_LIMIT));
                }
                return Err(ConfigError::SpawnOutOfBounds);
            }
            particles.push(Particle { x: s.x, y: s.y, heading: s.heading });
            j = j + 1;
        }
        let map = TrailMap::new(&dim);
        Ok(Simulation {
            dim,
            map,
            particles,
            sensors: SensorControll::new(config.sensor_angle_deg, config.sensor_distance),
            evaporation_threshold: config.evaporation_threshold,
            deposit_intensity: config.deposit_intensity,
            step_speed: config.step_speed,
            turn_increment_deg: config.turn_increment_deg,
            tick_millis: config.tick_millis,
        })
    }

    /// Builds a world from a configuration alone, spawning the configured
    /// number of agents at random in-bounds positions with random headings.
    pub fn new_random(config: &Config) -> (r: Result<Simulation, ConfigError>)
        ensures
            r is Ok <==> config.valid(),
            r matches Err(e) ==> e == config_fault(*config),
            r matches Ok(s) ==> {
                &&& s.wf()
                &&& s.dim.width == config.width
                &&& s.dim.height == config.height
                &&& forall|i: int| 0 <= i < s.map.trail@.len() ==> s.map.trail@[i] == 0
                &&& s.particles@.len() == config.population_size
                &&& s.evaporation_threshold == config.evaporation_threshold
                &&& s.deposit_intensity == config.deposit_intensity
                &&& s.step_speed == config.step_speed
                &&& s.turn_increment_deg == config.turn_increment_deg
            },
    {
        let dim = match check_config(config) {
            Ok(d) => d,
            Err(e) => {
                return Err(e);
            },
        };
        let spawns = spawn_particles(config.population_size, &dim);
        let sim = match Simulation::new(config, spawns) {
            Ok(s) => s,
            Err(e) => {
                return Err(e);
            },
        };
        Ok(sim)
    }

    /// One simulation tick, in the fixed phase order: (a) every agent senses
    /// the pre-tick field and moves, (b) the field diffuses and evaporates
    /// from its pre-tick snapshot, (c) the deposit intensity is written at
    /// every agent's post-move position.
    ///
    /// The population never changes size, and each agent's new state is the
    /// step function of its old state and the pre-tick field, for one of the
    /// two tie-break coin values. Headings drift by at most one turn
    /// increment per tick, so the whole state stays well formed as long as
    /// no heading has come within one turn of the machine limit.
    pub fn tick(&mut self)
        requires
            old(self).wf(),
        ensures
            final(self).particles@.len() == old(self).particles@.len(),
            field_wf(final(self).map.trail@, final(self).dim),
            forall|j: int| 0 <= j < final(self).particles@.len()
                ==> (#[trigger] final(self).particles@[j]).in_bounds(final(self).dim),
            forall|j: int| 0 <= j < final(self).particles@.len()
                ==> old(self).particles@[j].heading - old(self).turn_increment_deg
                    <= (#[trigger] final(self).particles@[j]).heading
                    <= old(self).particles@[j].heading + old(self).turn_increment_deg,
            (forall|j: int| 0 <= j < old(self).particles@.len()
                ==> -(HEADING_LIMIT - 0x4000_0000)
                    <= (#[trigger] old(self).particles@[j]).heading
                    <= HEADING_LIMIT - 0x4000_0000) ==> final(self).wf(),
            final(self).dim == old(self).dim,
            final(self).sensors == old(self).sensors,
            final(self).evaporation_threshold == old(self).evaporation_threshold,
            final(self).deposit_intensity == old(self).deposit_intensity,
            final(self).step_speed == old(self).step_speed,
            final(self).turn_increment_deg == old(self).turn_increment_deg,
            forall|j: int| 0 <= j < final(self).particles@.len()
                ==> #[trigger] final(self).particles@[j] == stepped(
                        old(self).particles@[j], old(self).map.trail@, old(self).sensors,
                        old(self).dim, old(self).step_speed as int,
                        old(self).turn_increment_deg as int, true)
                    || final(self).particles@[j] == stepped(
                        old(self).particles@[j], old(self).map.trail@, old(self).sensors,
                        old(self).dim, old(self).step_speed as int,
                        old(self).turn_increment_deg as int, false),
            final(self).map.trail@ == deposited(
                diffused(old(self).map.trail@, old(self).dim.width as int,
                    old(self).evaporation_threshold),
                positions_of(final(self).particles@),
                old(self).dim.width as int,
                old(self).deposit_intensity,
            ),
    {
        movement(
            &mut self.particles, &self.sensors, &self.map, &self.dim,
            self.step_speed, self.turn_increment_deg);
        let positions = self.agent_positions();
        trail_map(
            &mut self.map, &positions, &self.dim,
            self.evaporation_threshold, self.deposit_intensity);
    }

    /// Read-only view of the field, one intensity per cell, row-major.
    pub fn field_snapshot(&self) -> (r: &Vec<u64>)
        ensures
            r@ == self.map.trail@,
    {
        &self.map.trail
    }

    /// The agents' current positions, in population order.
    pub fn agent_positions(&self) -> (r: Vec<(i32, i32)>)
        ensures
            r@ == positions_of(self.particles@),
    {
        let mut out: Vec<(i32, i32)> = Vec::new();
        let n = self.particles.len();
        let mut i: usize = 0;
        while i < n
            invariant
                i <= n,
                n == self.particles@.len(),
                out@.len() == i,
                forall|j: int| 0 <= j < i ==> out@[j]
                    == ((#[trigger] self.particles@[j]).x, self.particles@[j].y),
            decreases n - i,
        {
            let p = self.particles[i];
            out.push((p.x, p.y));
            i = i + 1;
        }
        proof {
            assert(out@ =~= positions_of(self.particles@));
        }
        out
    }

    /// Width and height of the world.
    pub fn dimensions(&self) -> (r: (i32, i32))
        ensures
            r.0 == self.dim.width,
            r.1 == self.dim.height,
    {
        (self.dim.width, self.dim.height)
    }
}

/// Validates a configuration, naming the first fault in variant order.
fn check_config(config: &Config) -> (r: Result<WorldDimensions, ConfigError>)
    ensures
        r is Ok <==> config.valid(),
        r matches Err(e) ==> e == config_fault(*config),
        r matches Ok(d) ==> d == (WorldDimensions {
            width: config.width, height: config.height }) && d.valid(),
{
    if config.width < 1 {
        return Err(ConfigError::ZeroWidth);
    }
    if config.height < 1 {
        return Err(ConfigError::ZeroHeight);
    }
    let dim = match WorldDimensions::new(config.width, config.height) {
        Some(d) => d,
        None => {
            return Err(ConfigError::WorldTooLarge);
        },
    };
    if config.sensor_angle_deg < 0 || config.sensor_angle_deg > 0x4000_0000 {
        return Err(ConfigError::SensorAngleOutOfRange);
    }
    if config.sensor_distance < 0 || config.sensor_distance > 0x4000_0000 {
        return Err(ConfigError::SensorDistanceOutOfRange);
    }
    if config.deposit_intensity > INTENSITY_CAP {
        return Err(ConfigError::DepositIntensityTooHigh);
    }
    if config.step_speed < 0 || config.step_speed > 0x4000_0000 {
        return Err(ConfigError::StepSpeedOutOfRange);
    }
    if config.turn_increment_deg < 0 || config.turn_increment_deg > 0x4000_0000 {
        return Err(ConfigError::TurnIncrementOutOfRange);
    }
    Ok(dim)
}

/// Spawns `count` agents at random in-bounds positions with random headings
/// in `[0, 360)`.
pub fn spawn_particles(count: usize, dim: &WorldDimensions) -> (r: Vec<Particle>)
    requires
        dim.valid(),
    ensures
        r@.len() == count,
        forall|j: int| 0 <= j < r@.len() ==> (#[trigger] r@[j]).wf(*dim),
{
    let mut out: Vec<Particle> = Vec::new();
    let mut i: usize = 0;
    while i < count
        invariant
            i <= count,
            dim.valid(),
            out@.len() == i,
            forall|j: int| 0 <= j < i ==> (#[trigger] out@[j]).wf(*dim),
        decreases count - i,
    {
        let x = random_in_range(0, dim.width as i64);
        let y = random_in_range(0, dim.height as i64);
        let heading = random_in_range(0, 360);
        out.push(Particle { x: x as i32, y: y as i32, heading });
        i = i + 1;
    }
    out
}

} // verus!
