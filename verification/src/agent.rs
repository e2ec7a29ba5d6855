//! Agents and the three-sensor steering model.

use vstd::prelude::*;
use crate::grid::{WorldDimensions, wrap, to_index};
use crate::field::{TrailMap, field_wf, neighborhood_sum, readings_3x3};
use crate::direction::{unit_x, unit_y, angle_to_unit_vec};
use crate::rng::random_bool;

verus! {

/// Cells an agent advances per tick in each active axis.
pub const PARTICLE_SPEED: i64 = 5;

/// Widest heading the arithmetic admits, in degrees. Headings are stored
/// unreduced and grow by at most one turn increment per tick, so this
/// machine limit is out of reach for any realistic run.
pub const HEADING_LIMIT: i64 = 0x4000_0000_0000_0000;

/// Tag naming which of the three sensors a reading came from.
pub enum SensorPosition {
    L,
    F,
    R,
}

/// One directional sensor: a relative angle and a probe distance.
pub struct Sensor {
    pub pos: SensorPosition,
    pub distance: i64,
    pub angle: i64,
}

/// The fixed three-sensor rig: left, forward and right sensors at relative
/// angles -A, 0 and +A, all with one probe distance.
pub struct SensorControll {
    pub left: Sensor,
    pub forward: Sensor,
    pub right: Sensor,
}

impl SensorControll {
    /// The rig is usable when the side angles mirror each other and the
    /// angle and shared probe distance fit the grid arithmetic.
    pub open spec fn valid(self) -> bool {
        &&& self.left.angle == -self.right.angle
        &&& self.forward.angle == 0
        &&& 0 <= self.right.angle <= 0x4000_0000
        &&& 0 <= self.left.distance <= 0x4000_0000
        &&& self.forward.distance == self.left.distance
        &&& self.right.distance == self.left.distance
    }

    /// Builds the rig from one side angle and one probe distance.
    pub fn new(angle: i64, distance: i64) -> (r: SensorControll)
        requires
            0 <= angle <= 0x4000_0000,
            0 <= distance <= 0x4000_0000,
        ensures
            r.valid(),
            r.right.angle == angle,
            r.left.angle == -angle,
            r.forward.angle == 0,
            r.left.distance == distance,
            r.forward.distance == distance,
            r.right.distance == distance,
            r.left.pos == SensorPosition::L,
            r.forward.pos == SensorPosition::F,
            r.right.pos == SensorPosition::R,
    {
        SensorControll {
            left: Sensor { pos: SensorPosition::L, distance, angle: -angle },
            forward: Sensor { pos: SensorPosition::F, distance, angle: 0 },
            right: Sensor { pos: SensorPosition::R, distance, angle },
        }
    }
}

/// One agent: an in-bounds grid position and a heading in degrees.
///
/// The heading is unbounded and stored unreduced; steering and movement read
/// it only through the direction helper, which takes it modulo one turn.
#[derive(Clone, Copy)]
pub struct Particle {
    pub x: i32,
    pub y: i32,
    pub heading: i64,
}

impl Particle {
    /// The particle's position lies on the grid.
    pub open spec fn in_bounds(self, dim: WorldDimensions) -> bool {
        &&& 0 <= self.x < dim.width
        &&& 0 <= self.y < dim.height
    }

    /// The particle sits on the grid with a heading the arithmetic admits.
    pub open spec fn wf(self, dim: WorldDimensions) -> bool {
        &&& self.in_bounds(dim)
        &&& -HEADING_LIMIT <= self.heading <= HEADING_LIMIT
    }
}

/// Flat index of the probe point of a sensor at relative angle `sangle` and
/// probe distance `sdist` for particle `p`: the particle's position advanced
/// by the scaled direction vector of `heading + sangle`, wrapped into bounds
/// on each axis.
pub open spec fn probe_index(p: Particle, sangle: int, sdist: int, dim: WorldDimensions)
    -> int {
    let h = p.heading + sangle;
    let px = (p.x + unit_x(h) * sdist) % (dim.width as int);
    let py = (p.y + unit_y(h) * sdist) % (dim.height as int);
    py * dim.width + px
}

/// One sensor's reading: the 3x3 neighborhood sum at its probe point.
pub open spec fn sensor_reading(
    f: Seq<u64>,
    p: Particle,
    sangle: int,
    sdist: int,
    dim: WorldDimensions,
) -> int {
    neighborhood_sum(f, probe_index(p, sangle, sdist, dim), dim.width as int)
}

/// The steering decision on three readings: keep the heading when the
/// forward reading is strictly greatest; when it is strictly least, turn by
/// the increment to the side picked by the coin; otherwise turn away from
/// the larger side reading, and keep the heading on a side tie.
pub open spec fn steer_spec(heading: int, fl: int, f: int, fr: int, coin: bool, turn: int)
    -> int {
    if f > fl && f > fr {
        heading
    } else if f < fl && f < fr {
        if coin {
            heading + turn
        } else {
            heading - turn
        }
    } else if fl < fr {
        heading - turn
    } else if fl > fr {
        heading + turn
    } else {
        heading
    }
}

/// The steering decision, deterministic in all of its inputs including the
/// tie-break coin.
pub fn steer(heading: i64, fl: u64, f: u64, fr: u64, coin: bool, turn: i64) -> (r: i64)
    requires
        -HEADING_LIMIT <= heading <= HEADING_LIMIT,
        0 <= turn <= 0x4000_0000,
    ensures
        r == steer_spec(heading as int, fl as int, f as int, fr as int, coin, turn as int),
{
    if f > fl && f > fr {
        heading
    } else if f < fl && f < fr {
        if coin {
            heading + turn
        } else {
            heading - turn
        }
    } else if fl < fr {
        heading - turn
    } else if fl > fr {
        heading + turn
    } else {
        heading
    }
}

/// Reads one sensor: direction of `heading + sangle`, scaled by the probe
/// distance, wrapped into bounds, then the 3x3 neighborhood sum there.
fn probe(
    particle: &Particle,
    sangle: i64,
    sdist: i64,
    trail: &Vec<u64>,
    dim: &WorldDimensions,
) -> (r: u64)
    requires
        dim.valid(),
        field_wf(trail@, *dim),
        particle.wf(*dim),
        -0x4000_0000 <= sangle <= 0x4000_0000,
        0 <= sdist <= 0x4000_0000,
    ensures
        r == sensor_reading(trail@, *particle, sangle as int, sdist as int, *dim),
{
    let h = particle.heading + sangle;
    let (ux, uy) = angle_to_unit_vec(h);
    proof {
        assert(-sdist <= ux * sdist <= sdist) by (nonlinear_arith)
            requires
                -1 <= ux <= 1,
                0 <= sdist,
        ;
        assert(-sdist <= uy * sdist <= sdist) by (nonlinear_arith)
            requires
                -1 <= uy <= 1,
                0 <= sdist,
        ;
    }
    let px = wrap(particle.x as i64 + ux * sdist, dim.width as i64);
    let py = wrap(particle.y as i64 + uy * sdist, dim.height as i64);
    let idx = to_index(px as i32, py as i32, dim);
    readings_3x3(trail, idx, dim)
}

/// The new heading of `p` under field `f` when the tie-break coin came up
/// `coin`.
pub open spec fn sensed_heading(
    p: Particle,
    f: Seq<u64>,
    sc: SensorControll,
    dim: WorldDimensions,
    turn: int,
    coin: bool,
) -> int {
    let fl = sensor_reading(f, p, sc.left.angle as int, sc.left.distance as int, dim);
    let fwd = sensor_reading(f, p, 0, sc.forward.distance as int, dim);
    let fr = sensor_reading(f, p, sc.right.angle as int, sc.right.distance as int, dim);
    steer_spec(p.heading as int, fl, fwd, fr, coin, turn)
}

/// Computes the agent's new heading from the three sensor readings. The only
/// nondeterminism is the tie-break coin, drawn when the forward reading is
/// strictly least; the result is the steering decision for one of the two
/// coin values.
pub fn sense(
    sensors: &SensorControll,
    particle: &Particle,
    trail_map: &TrailMap,
    dim: &WorldDimensions,
    turn: i64,
) -> (r: i64)
    requires
        dim.valid(),
        field_wf(trail_map.trail@, *dim),
        particle.wf(*dim),
        sensors.valid(),
        0 <= turn <= 0x4000_0000,
    ensures
        r == sensed_heading(*particle, trail_map.trail@, *sensors, *dim, turn as int, true)
            || r == sensed_heading(*particle, trail_map.trail@, *sensors, *dim, turn as int, false),
{
    let fl = probe(particle, sensors.left.angle, sensors.left.distance, &trail_map.trail, dim);
    let fwd = probe(
        particle, sensors.forward.angle, sensors.forward.distance, &trail_map.trail, dim);
    let fr = probe(
        particle, sensors.right.angle, sensors.right.distance, &trail_map.trail, dim);
    let coin = if fwd < fl && fwd < fr {
        random_bool()
    } else {
        true
    };
    steer(particle.heading, fl, fwd, fr, coin, turn)
}

/// The particle after one step when the tie-break coin came up `coin`:
/// steer, then advance by the direction of the new heading scaled by
/// `speed`, each axis wrapped independently; the new heading is stored
/// unreduced.
pub open spec fn stepped(
    p: Particle,
    f: Seq<u64>,
    sc: SensorControll,
    dim: WorldDimensions,
    speed: int,
    turn: int,
    coin: bool,
) -> Particle {
    let h = sensed_heading(p, f, sc, dim, turn, coin);
    let nx = (p.x + unit_x(h) * speed) % (dim.width as int);
    let ny = (p.y + unit_y(h) * speed) % (dim.height as int);
    Particle { x: nx as i32, y: ny as i32, heading: h as i64 }
}

/// Moves every particle one step. Each agent reads only the shared field and
/// writes only its own state, so the order of the loop cannot be observed.
pub fn movement(
    particles: &mut Vec<Particle>,
    sensors: &SensorControll,
    trail_map: &TrailMap,
    dim: &WorldDimensions,
    speed: i64,
    turn: i64,
)
    requires
        dim.valid(),
        field_wf(trail_map.trail@, *dim),
        sensors.valid(),
        0 <= speed <= 0x4000_0000,
        0 <= turn <= 0x4000_0000,
        forall|j: int| 0 <= j < old(particles)@.len()
            ==> (#[trigger] old(particles)@[j]).wf(*dim),
    ensures
        final(particles)@.len() == old(particles)@.len(),
        forall|j: int| 0 <= j < final(particles)@.len()
            ==> (#[trigger] final(particles)@[j]).in_bounds(*dim),
        forall|j: int| 0 <= j < final(particles)@.len()
            ==> old(particles)@[j].heading - turn
                <= (#[trigger] final(particles)@[j]).heading
                <= old(particles)@[j].heading + turn,
        forall|j: int| 0 <= j < final(particles)@.len()
            ==> #[trigger] final(particles)@[j] == stepped(
                    old(particles)@[j], trail_map.trail@, *sensors, *dim,
                    speed as int, turn as int, true)
                || final(particles)@[j] == stepped(
                    old(particles)@[j], trail_map.trail@, *sensors, *dim,
                    speed as int, turn as int, false),
{
    let ghost ps0 = particles@;
    let n = particles.len();
    let mut i: usize = 0;
    while i < n
        invariant
            i <= n,
            n == ps0.len(),
            particles@.len() == n,
            dim.valid(),
            field_wf(trail_map.trail@, *dim),
            sensors.valid(),
            0 <= speed <= 0x4000_0000,
            0 <= turn <= 0x4000_0000,
            forall|j: int| 0 <= j < ps0.len() ==> (#[trigger] ps0[j]).wf(*dim),
            forall|j: int| i <= j < n ==> particles@[j] == ps0[j],
            forall|j: int| 0 <= j < i ==> (#[trigger] particles@[j]).in_bounds(*dim),
            forall|j: int| 0 <= j < i
                ==> ps0[j].heading - turn <= (#[trigger] particles@[j]).heading
                    <= ps0[j].heading + turn,
            forall|j: int| 0 <= j < i
                ==> #[trigger] particles@[j] == stepped(
                        ps0[j], trail_map.trail@, *sensors, *dim,
                        speed as int, turn as int, true)
                    || particles@[j] == stepped(
                        ps0[j], trail_map.trail@, *sensors, *dim,
                        speed as int, turn as int, false),
        decreases n - i,
    {
        let p = particles[i];
        proof {
            assert(p == ps0[i as int]);
            assert(p.wf(*dim));
        }
        let h = sense(sensors, &p, trail_map, dim, turn);
        proof {
            assert(p.heading - turn <= h <= p.heading + turn);
        }
        let (ux, uy) = angle_to_unit_vec(h);
        proof {
            assert(-speed <= ux * speed <= speed) by (nonlinear_arith)
                requires
                    -1 <= ux <= 1,
                    0 <= speed,
            ;
            assert(-speed <= uy * speed <= speed) by (nonlinear_arith)
                requires
                    -1 <= uy <= 1,
                    0 <= speed,
            ;
        }
        let nx = wrap(p.x as i64 + ux * speed, dim.width as i64);
        let ny = wrap(p.y as i64 + uy * speed, dim.height as i64);
        let np = Particle { x: nx as i32, y: ny as i32, heading: h };
        particles.set(i, np);
        proof {
            let f0 = trail_map.trail@;
            if h == sensed_heading(p, f0, *sensors, *dim, turn as int, true) {
                assert(particles@[i as int] == stepped(
                    ps0[i as int], f0, *sensors, *dim, speed as int, turn as int, true));
            } else {
                assert(particles@[i as int] == stepped(
                    ps0[i as int], f0, *sensors, *dim, speed as int, turn as int, false));
            }
        }
        i = i + 1;
    }
}

} // verus!
