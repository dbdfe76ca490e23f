//! The evolution engine: owns the configuration, the population, the tick
//! and generation counters and the last survival statistic, and advances
//! the whole simulation one step at a time. A generation runs for a fixed
//! time budget, then rolls over: score, select, reproduce, reset.
use vstd::prelude::*;

use crate::agent::ActionPolicy;
use crate::agent::MAX_TIME_CAP;
use crate::network::RATE_ONE;
use crate::population::EvolutionError;
use crate::population::FitnessPolicy;
use crate::population::MAX_POP;
use crate::population::Population;
use crate::population::all_dead;
use crate::population::all_zero_age;
use crate::population::count_alive;
use crate::population::stepped_ok;
use crate::world::World;
use crate::zone::DangerZone;
use crate::zone::zones_wf;

verus! {

/// Tick at which the sweeping zone appears, and the length of each of its
/// four sweep phases.
pub const SWEEP_START: u64 = 500;

/// Length in ticks of one sweep phase (right, down, left, up).
pub const SWEEP_PHASE: u64 = 500;

/// Upper cap on the elite-fraction denominator.
pub const ELITE_DEN_CAP: u64 = 1000000000;

/// Where danger zones come from during a generation. Either way the
/// hazard geography is a pure function of the tick counter, and resets
/// with it at every generation boundary.
pub enum ZoneSchedule {
    /// A fixed list of zones, present from the first tick on.
    Fixed(Vec<DangerZone>),
    /// No zone until `SWEEP_START`; from then on one rectangle of a third
    /// of each world extent that sweeps the border: right along the top,
    /// down the right side, left along the bottom, up the left side.
    Sweep,
}

impl ZoneSchedule {
    pub open spec fn wf(&self) -> bool {
        match self {
            ZoneSchedule::Fixed(zs) => zones_wf(zs@),
            ZoneSchedule::Sweep => true,
        }
    }
}

/// Linear ramp from 0 at `v == 0` to `span` at `v == SWEEP_PHASE`.
pub open spec fn ramp(span: int, v: int) -> int {
    span * v / (SWEEP_PHASE as int)
}

/// Extent of the sweeping zone along one axis: three tenths of the world.
pub open spec fn sweep_extent(dim: int) -> int {
    3 * dim / 10
}

/// Horizontal offset of the sweeping zone, `u` ticks after it appeared.
pub open spec fn sweep_x(world: World, u: int) -> int {
    let span = world.width - sweep_extent(world.width as int);
    if u < 500 {
        ramp(span, u)
    } else if u < 1000 {
        span
    } else if u < 1500 {
        span - ramp(span, u - 1000)
    } else {
        0
    }
}

/// Vertical offset of the sweeping zone, `u` ticks after it appeared.
pub open spec fn sweep_y(world: World, u: int) -> int {
    let span = world.height - sweep_extent(world.height as int);
    if u < 500 {
        0
    } else if u < 1000 {
        ramp(span, u - 500)
    } else if u < 1500 {
        span
    } else if u < 2000 {
        span - ramp(span, u - 1500)
    } else {
        0
    }
}

/// The sweeping zone's rectangle at tick `t >= SWEEP_START`.
pub open spec fn sweep_zone_spec(world: World, t: int) -> DangerZone {
    DangerZone {
        x: sweep_x(world, t - SWEEP_START as int) as i64,
        y: sweep_y(world, t - SWEEP_START as int) as i64,
        w: sweep_extent(world.width as int) as i64,
        h: sweep_extent(world.height as int) as i64,
    }
}

/// The zones in force at tick `t` under a schedule.
pub open spec fn active_zones_spec(world: World, plan: ZoneSchedule, t: int) -> Seq<DangerZone> {
    match plan {
        ZoneSchedule::Fixed(zs) => zs@,
        ZoneSchedule::Sweep => if t < SWEEP_START as int {
            Seq::empty()
        } else {
            seq![sweep_zone_spec(world, t)]
        },
    }
}

/// `span * v / SWEEP_PHASE`, bounded by `[0, span]`.
fn ramp_exec(span: u64, v: u64) -> (r: u64)
    requires
        v < SWEEP_PHASE,
        span <= 1000000000,
    ensures
        r as int == ramp(span as int, v as int),
        r <= span,
{
    proof {
        if span > 0 {
            crate::agent::lemma_scaled_ratio_bounds(v as int, SWEEP_PHASE as int, span as int);
            assert((v as int) * (span as int) == (span as int) * (v as int));
        } else {
            assert((span as int) * (v as int) == 0) by (nonlinear_arith)
                requires
                    span as int == 0,
            ;
        }
    }
    span * v / SWEEP_PHASE
}

/// Three tenths of a world extent, bounded by `[0, dim]`.
fn extent_exec(dim: i64) -> (r: u64)
    requires
        1 <= dim <= crate::world::MAX_DIM,
    ensures
        r as int == sweep_extent(dim as int),
        r <= dim as u64,
{
    proof {
        vstd::arithmetic::div_mod::lemma_div_is_ordered(
            3 * (dim as int),
            10 * (dim as int),
            10,
        );
        vstd::arithmetic::div_mod::lemma_div_multiples_vanish(dim as int, 10);
    }
    3 * (dim as u64) / 10
}

/// The sweeping zone's rectangle at tick `t >= SWEEP_START`.
fn sweep_zone(world: World, t: u64) -> (z: DangerZone)
    requires
        world.wf(),
        t >= SWEEP_START,
    ensures
        z == sweep_zone_spec(world, t as int),
        z.wf(),
{
    let zw: u64 = extent_exec(world.width);
    let zh: u64 = extent_exec(world.height);
    let span_x: u64 = (world.width as u64) - zw;
    let span_y: u64 = (world.height as u64) - zh;
    let u: u64 = t - SWEEP_START;
    let ox: u64 = if u < 500 {
        ramp_exec(span_x, u)
    } else if u < 1000 {
        span_x
    } else if u < 1500 {
        span_x - ramp_exec(span_x, u - 1000)
    } else {
        0
    };
    let oy: u64 = if u < 500 {
        0
    } else if u < 1000 {
        ramp_exec(span_y, u - 500)
    } else if u < 1500 {
        span_y
    } else if u < 2000 {
        span_y - ramp_exec(span_y, u - 1500)
    } else {
        0
    };
    DangerZone { x: ox as i64, y: oy as i64, w: zw as i64, h: zh as i64 }
}

/// The zones in force at tick `t` under a schedule.
pub fn active_zones(world: World, plan: &ZoneSchedule, t: u64) -> (r: Vec<DangerZone>)
    requires
        world.wf(),
        plan.wf(),
    ensures
        r@ == active_zones_spec(world, *plan, t as int),
        zones_wf(r@),
{
    match plan {
        ZoneSchedule::Fixed(zs) => {
            let n: usize = zs.len();
            let mut out: Vec<DangerZone> = Vec::new();
            let mut i: usize = 0;
            while i < n
                invariant
                    n == zs@.len(),
                    i <= n,
                    out@.len() == i,
                    forall|j: int| 0 <= j < i ==> #[trigger] out@[j] == zs@[j],
                decreases n - i,
            {
                let z: DangerZone = zs[i];
                out.push(z);
                i = i + 1;
            }
            proof {
                assert(out@ =~= zs@);
            }
            out
        },
        ZoneSchedule::Sweep => {
            if t < SWEEP_START {
                let out: Vec<DangerZone> = Vec::new();
                proof {
                    assert(out@ =~= Seq::<DangerZone>::empty());
                }
                out
            } else {
                let z = sweep_zone(world, t);
                let mut out: Vec<DangerZone> = Vec::new();
                out.push(z);
                proof {
                    assert(out@ =~= seq![sweep_zone_spec(world, t as int)]);
                }
                out
            }
        },
    }
}

/// Startup configuration of a run: world extents, population size, the
/// generation time budget, the elite fraction `elite_num / elite_den`,
/// the per-mille mutation rate, the two policy choices and the hazard
/// schedule.
pub struct Config {
    pub world: World,
    pub population_size: usize,
    pub max_time: u64,
    pub elite_num: u64,
    pub elite_den: u64,
    pub mutation_rate: u64,
    pub action_policy: ActionPolicy,
    pub fitness_policy: FitnessPolicy,
    pub zones: ZoneSchedule,
}

impl Config {
    pub open spec fn wf(&self) -> bool {
        &&& self.world.wf()
        &&& 1 <= self.population_size <= MAX_POP
        &&& 1 <= self.max_time <= MAX_TIME_CAP
        &&& 1 <= self.elite_num <= self.elite_den
        &&& self.elite_den <= ELITE_DEN_CAP
        &&& self.mutation_rate <= RATE_ONE
        &&& self.zones.wf()
    }
}

/// The running simulation.
pub struct Engine {
    pub config: Config,
    pub population: Population,
    pub time: u64,
    pub generation: u64,
    pub last_survival_rate: u64,
}

impl Engine {
    pub open spec fn wf(&self) -> bool {
        &&& self.config.wf()
        &&& self.population.wf(self.config.world)
        &&& self.population.bubs@.len() == self.config.population_size
        &&& self.time <= self.config.max_time
        &&& forall|i: int|
            0 <= i < self.population.bubs@.len() ==> (#[trigger] self.population.bubs@[i]).age
                <= self.time
        &&& 1 <= self.generation
        &&& self.last_survival_rate <= 100
    }

    /// A fresh run: generation 1, tick 0, a full population of random
    /// agents.
    pub fn new(config: Config, rng: &mut rand::rngs::StdRng) -> (r: Self)
        requires
            config.wf(),
        ensures
            r.wf(),
            r.config == config,
            r.time == 0,
            r.generation == 1,
            r.last_survival_rate == 0,
            r.population.bubs@.len() == config.population_size,
    {
        let population = Population::new(config.population_size, config.world, rng);
        Engine { config, population, time: 0, generation: 1, last_survival_rate: 0 }
    }

    /// One driving-loop iteration. If the time budget is spent, first roll
    /// the generation over: record the survival percentage, build the next
    /// population (or fail, leaving the engine untouched), reset the clock
    /// and the zones, and bump the generation counter. Then advance every
    /// live agent one tick against the zones the schedule yields for the
    /// current tick.
    pub fn step(&mut self, rng: &mut rand::rngs::StdRng) -> (r: Result<(), EvolutionError>)
        requires
            old(self).wf(),
            old(self).generation < u64::MAX,
        ensures
            match r {
                Ok(u) => {
                    &&& final(self).wf()
                    &&& final(self).config == old(self).config
                    &&& old(self).time >= old(self).config.max_time ==> {
                        &&& old(self).config.fitness_policy == FitnessPolicy::AgeElitism
                            ==> !all_zero_age(old(self).population.bubs@)
                        &&& old(self).config.fitness_policy == FitnessPolicy::BinaryLiveness
                            ==> !all_dead(old(self).population.bubs@)
                    }
                    &&& if old(self).time >= old(self).config.max_time {
                        &&& final(self).generation == old(self).generation + 1
                        &&& final(self).time == 1
                        &&& final(self).last_survival_rate as int == 100 * count_alive(
                            old(self).population.bubs@,
                            old(self).population.bubs@.len() as int,
                        ) / (old(self).population.bubs@.len() as int)
                        &&& final(self).population.bubs@.len() == old(
                            self,
                        ).population.bubs@.len()
                        &&& forall|i: int|
                            0 <= i < final(self).population.bubs@.len() ==> (
                            #[trigger] final(self).population.bubs@[i]).age <= 1
                    } else {
                        &&& final(self).generation == old(self).generation
                        &&& final(self).time == old(self).time + 1
                        &&& final(self).last_survival_rate == old(self).last_survival_rate
                        &&& final(self).population.bubs@.len() == old(
                            self,
                        ).population.bubs@.len()
                        &&& forall|i: int|
                            0 <= i < old(self).population.bubs@.len() ==> stepped_ok(
                                old(self).population.bubs@[i],
                                #[trigger] final(self).population.bubs@[i],
                                old(self).config.world,
                                old(self).config.action_policy,
                                active_zones_spec(
                                    old(self).config.world,
                                    old(self).config.zones,
                                    old(self).time as int,
                                ),
                                old(self).config.max_time,
                            )
                    }
                },
                Err(e) => {
                    &&& *final(self) == *old(self)
                    &&& old(self).time >= old(self).config.max_time
                    &&& (e == EvolutionError::ZeroTotalFitness <==> (old(
                        self,
                    ).config.fitness_policy == FitnessPolicy::AgeElitism && all_zero_age(
                        old(self).population.bubs@,
                    )))
                    &&& (e == EvolutionError::EmptyBreedingPool <==> (old(
                        self,
                    ).config.fitness_policy == FitnessPolicy::BinaryLiveness && all_dead(
                        old(self).population.bubs@,
                    )))
                },
            },
    {
        if self.time >= self.config.max_time {
            let rate = self.population.survival_rate();
            let next = self.population.spawn_next_generation(
                self.config.world,
                self.config.fitness_policy,
                self.config.elite_num,
                self.config.elite_den,
                self.config.mutation_rate,
                rng,
            );
            match next {
                Ok(p) => {
                    self.population = p;
                    self.last_survival_rate = rate;
                    self.time = 0;
                    self.generation = self.generation + 1;
                },
                Err(e) => {
                    return Err(e);
                },
            }
        }
        let zones = active_zones(self.config.world, &self.config.zones, self.time);
        self.population.update(
            &zones,
            self.config.world,
            self.config.action_policy,
            self.config.max_time,
        );
        self.time = self.time + 1;
        Ok(())
    }
}

} // verus!
