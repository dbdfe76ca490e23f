//! The population and the generational loop: one tick advances every live
//! agent; at a generation boundary agents are scored, parents are selected
//! (age-based elitism with roulette sampling, or uniform sampling among
//! survivors), and a full fresh population of mutated children replaces
//! the old one atomically.
use vstd::prelude::*;

use vstd::arithmetic::div_mod::lemma_div_is_ordered;
use vstd::arithmetic::div_mod::lemma_div_multiples_vanish;
use vstd::arithmetic::div_mod::lemma_div_multiples_vanish_fancy;
use vstd::pervasive::unreached;

use crate::agent::ActionPolicy;
use crate::agent::Bub;
use crate::agent::MAX_TIME_CAP;
use crate::agent::action_spec;
use crate::agent::lemma_same_weights_same_output;
use crate::agent::out_seq;
use crate::agent::sense_spec;
use crate::clamp_spec;
use crate::network::RATE_ONE;
use crate::network::same_weights;
use crate::rng::rand_below;
use crate::world::World;
use crate::zone::DangerZone;
use crate::zone::in_any_zone;
use crate::zone::in_any_zone_spec;
use crate::zone::zones_wf;

verus! {

/// Upper cap on the population size, so that age sums fit in a `u64`.
pub const MAX_POP: usize = 1000000;

/// How agents are scored and parents drawn at a generation boundary; both
/// policies of the engine are available and chosen by configuration.
#[derive(Clone, Copy, PartialEq, Eq, Structural)]
pub enum FitnessPolicy {
    /// Fitness is ticks survived: the top elite fraction by age is the
    /// breeding pool, sampled in proportion to age (roulette wheel).
    AgeElitism,
    /// Fitness is survival itself: parents are drawn uniformly, with
    /// replacement, from the agents still alive at the boundary.
    BinaryLiveness,
}

/// A generation boundary that cannot select a parent: fatal for the run.
#[derive(Clone, Copy, Debug, PartialEq, Eq, Structural)]
pub enum EvolutionError {
    /// The binary-liveness policy found no survivor to breed from.
    EmptyBreedingPool,
    /// The age-based policy found a breeding pool whose total age is zero.
    ZeroTotalFitness,
}

/// Same position, liveness, age and weights.
pub open spec fn unchanged_bub(b1: Bub, b0: Bub) -> bool {
    &&& b1.x == b0.x
    &&& b1.y == b0.y
    &&& b1.is_alive == b0.is_alive
    &&& b1.age == b0.age
    &&& same_weights(b1.brain, b0.brain)
}

/// What one tick does to one agent. A dead agent is frozen in place; a
/// live agent ages one tick, takes the unit step its network decides on
/// its normalized state, is clamped into the world, and dies exactly when
/// its new position lies in some danger zone.
pub open spec fn stepped_ok(
    b0: Bub,
    b1: Bub,
    world: World,
    policy: ActionPolicy,
    zones: Seq<DangerZone>,
    max_time: u64,
) -> bool {
    if !b0.is_alive {
        unchanged_bub(b1, b0)
    } else {
        let step = action_spec(policy, out_seq(b0.brain, sense_spec(b0, world, max_time)));
        &&& same_weights(b1.brain, b0.brain)
        &&& b1.age == b0.age + 1
        &&& b1.x == clamp_spec(b0.x + step.0, world.width as int)
        &&& b1.y == clamp_spec(b0.y + step.1, world.height as int)
        &&& b1.is_alive == !in_any_zone_spec(zones, b1.x as int, b1.y as int)
    }
}

/// Number of live agents among the first `n`.
pub open spec fn count_alive(s: Seq<Bub>, n: int) -> int
    decreases n,
{
    if n <= 0 {
        0
    } else {
        count_alive(s, n - 1) + if s[n - 1].is_alive {
            1int
        } else {
            0int
        }
    }
}

/// No agent is still alive.
pub open spec fn all_dead(s: Seq<Bub>) -> bool {
    forall|i: int| 0 <= i < s.len() ==> !(#[trigger] s[i]).is_alive
}

/// Every agent has age zero.
pub open spec fn all_zero_age(s: Seq<Bub>) -> bool {
    forall|i: int| 0 <= i < s.len() ==> (#[trigger] s[i]).age == 0
}

/// `v` occurs somewhere in `ord`.
pub open spec fn contains_val(ord: Seq<usize>, v: int) -> bool {
    exists|t: int| 0 <= t < ord.len() && (#[trigger] ord[t]) == v
}

/// Total age of the first `t` pool members, reading the pool through the
/// index order `ord`.
pub open spec fn pool_sum(bubs: Seq<Bub>, ord: Seq<usize>, t: int) -> int
    decreases t,
{
    if t <= 0 {
        0
    } else {
        pool_sum(bubs, ord, t - 1) + bubs[ord[t - 1] as int].age
    }
}

proof fn lemma_pool_sum_bounds(bubs: Seq<Bub>, ord: Seq<usize>, t: int, cap: int)
    requires
        0 <= t,
        forall|s: int| 0 <= s < t ==> (#[trigger] ord[s]) < bubs.len(),
        forall|i: int| 0 <= i < bubs.len() ==> (#[trigger] bubs[i]).age <= cap,
        0 <= cap,
    ensures
        0 <= pool_sum(bubs, ord, t) <= t * cap,
    decreases t,
{
    if t > 0 {
        lemma_pool_sum_bounds(bubs, ord, t - 1, cap);
        assert((t - 1) * cap + cap == t * cap) by (nonlinear_arith);
    }
}

proof fn lemma_pool_sum_zero(bubs: Seq<Bub>, ord: Seq<usize>, k: int)
    requires
        0 <= k,
        forall|s: int| 0 <= s < k ==> (#[trigger] ord[s]) < bubs.len(),
        pool_sum(bubs, ord, k) == 0,
    ensures
        forall|t: int| 0 <= t < k ==> bubs[(#[trigger] ord[t]) as int].age == 0,
    decreases k,
{
    if k > 0 {
        lemma_pool_sum_bounds(bubs, ord, k - 1, u64::MAX as int);
        lemma_pool_sum_zero(bubs, ord, k - 1);
    }
}

proof fn lemma_pool_sum_all_zero(bubs: Seq<Bub>, ord: Seq<usize>, k: int)
    requires
        0 <= k,
        forall|s: int| 0 <= s < k ==> (#[trigger] ord[s]) < bubs.len(),
        all_zero_age(bubs),
    ensures
        pool_sum(bubs, ord, k) == 0,
    decreases k,
{
    if k > 0 {
        lemma_pool_sum_all_zero(bubs, ord, k - 1);
    }
}

/// The ordered collection of agents of the current generation.
pub struct Population {
    pub bubs: Vec<Bub>,
}

impl Population {
    pub open spec fn wf(&self, world: World) -> bool {
        forall|i: int| 0 <= i < self.bubs@.len() ==> (#[trigger] self.bubs@[i]).wf(world)
    }

    /// A fresh population of `size` agents at random positions with newly
    /// drawn brains.
    pub fn new(size: usize, world: World, rng: &mut rand::rngs::StdRng) -> (r: Self)
        requires
            1 <= size <= MAX_POP,
            world.wf(),
        ensures
            r.wf(world),
            r.bubs@.len() == size,
            forall|i: int|
                0 <= i < r.bubs@.len() ==> (#[trigger] r.bubs@[i]).is_alive && r.bubs@[i].age == 0,
    {
        let mut bubs: Vec<Bub> = Vec::new();
        let mut i: usize = 0;
        while i < size
            invariant
                i <= size,
                world.wf(),
                bubs@.len() == i,
                forall|j: int| 0 <= j < i ==> (#[trigger] bubs@[j]).wf(world),
                forall|j: int|
                    0 <= j < i ==> (#[trigger] bubs@[j]).is_alive && bubs@[j].age == 0,
            decreases size - i,
        {
            let px = random_coord(rng, world.width);
            let py = random_coord(rng, world.height);
            let b = Bub::new(px, py, world, rng);
            bubs.push(b);
            i = i + 1;
        }
        Population { bubs }
    }

    /// One simulation tick: every live agent senses, decides, steps and is
    /// clamped, then dies if it stands in a danger zone; dead agents are
    /// frozen in place. The new generation state replaces the old one
    /// atomically. Positions stay within the world for any network output.
    pub fn update(
        &mut self,
        zones: &Vec<DangerZone>,
        world: World,
        policy: ActionPolicy,
        max_time: u64,
    )
        requires
            old(self).wf(world),
            world.wf(),
            zones_wf(zones@),
            1 <= max_time <= MAX_TIME_CAP,
            forall|i: int|
                0 <= i < old(self).bubs@.len() ==> (#[trigger] old(self).bubs@[i]).age < max_time,
        ensures
            final(self).wf(world),
            final(self).bubs@.len() == old(self).bubs@.len(),
            forall|i: int|
                0 <= i < old(self).bubs@.len() ==> stepped_ok(
                    old(self).bubs@[i],
                    #[trigger] final(self).bubs@[i],
                    world,
                    policy,
                    zones@,
                    max_time,
                ),
    {
        let n: usize = self.bubs.len();
        let mut new_bubs: Vec<Bub> = Vec::new();
        let mut i: usize = 0;
        while i < n
            invariant
                n == self.bubs@.len(),
                self.bubs@ == old(self).bubs@,
                i <= n,
                new_bubs@.len() == i,
                self.wf(world),
                world.wf(),
                zones_wf(zones@),
                1 <= max_time <= MAX_TIME_CAP,
                forall|j: int|
                    0 <= j < self.bubs@.len() ==> (#[trigger] self.bubs@[j]).age < max_time,
                forall|j: int| 0 <= j < i ==> (#[trigger] new_bubs@[j]).wf(world),
                forall|j: int|
                    0 <= j < i ==> stepped_ok(
                        self.bubs@[j],
                        #[trigger] new_bubs@[j],
                        world,
                        policy,
                        zones@,
                        max_time,
                    ),
            decreases n - i,
        {
            let ghost orig = self.bubs@[i as int];
            let mut b = self.bubs[i].clone();
            if b.is_alive {
                let input = b.sense(world, max_time);
                proof {
                    assert(sense_spec(b, world, max_time) =~= sense_spec(orig, world, max_time));
                    lemma_same_weights_same_output(orig.brain, b.brain, input@);
                }
                b.update(&input, world, policy);
                if in_any_zone(zones, b.x, b.y) {
                    b.is_alive = false;
                }
                proof {
                    assert(stepped_ok(orig, b, world, policy, zones@, max_time));
                }
            }
            new_bubs.push(b);
            i = i + 1;
        }
        self.bubs = new_bubs;
    }

    /// Last generation's survival statistic: live agents over population
    /// size, as an integer percentage.
    pub fn survival_rate(&self) -> (r: u64)
        requires
            1 <= self.bubs@.len() <= MAX_POP,
        ensures
            r as int == 100 * count_alive(self.bubs@, self.bubs@.len() as int) / (
            self.bubs@.len() as int),
            r <= 100,
    {
        let n: usize = self.bubs.len();
        let mut count: u64 = 0;
        let mut i: usize = 0;
        while i < n
            invariant
                n == self.bubs@.len(),
                n <= MAX_POP,
                i <= n,
                count == count_alive(self.bubs@, i as int),
                count <= i,
            decreases n - i,
        {
            let alive = self.bubs[i].is_alive;
            if alive {
                count = count + 1;
            }
            i = i + 1;
        }
        let rate: u64 = (100 * count) / (n as u64);
        proof {
            lemma_div_is_ordered(100 * (count as int), 100 * (n as int), n as int);
            lemma_div_multiples_vanish(100, n as int);
            assert((n as int) * 100 == 100 * (n as int));
        }
        rate
    }
}

impl Population {
    /// Generation rollover reproduction. Scores the old generation under
    /// the fitness policy, selects a parent for every slot, and builds a
    /// complete new population: each child carries a mutated clone of its
    /// parent's network, a fresh random position, liveness true and age
    /// zero. The new population always has exactly the size of the old
    /// one, and replaces it all at once. Fails, and only fails, when no
    /// parent is selectable: under age elitism exactly when every agent's
    /// age is zero, under binary liveness exactly when no agent is alive.
    pub fn spawn_next_generation(
        &self,
        world: World,
        fitness: FitnessPolicy,
        elite_num: u64,
        elite_den: u64,
        mutation_rate: u64,
        rng: &mut rand::rngs::StdRng,
    ) -> (r: Result<Population, EvolutionError>)
        requires
            self.wf(world),
            world.wf(),
            1 <= self.bubs@.len() <= MAX_POP,
            1 <= elite_num <= elite_den,
            elite_den <= 1000000000,
            mutation_rate <= RATE_ONE,
            forall|i: int|
                0 <= i < self.bubs@.len() ==> (#[trigger] self.bubs@[i]).age <= MAX_TIME_CAP,
        ensures
            match r {
                Ok(p) => {
                    &&& p.bubs@.len() == self.bubs@.len()
                    &&& p.wf(world)
                    &&& forall|i: int|
                        0 <= i < p.bubs@.len() ==> (#[trigger] p.bubs@[i]).is_alive
                            && p.bubs@[i].age == 0
                },
                Err(e) => e == EvolutionError::ZeroTotalFitness || e
                    == EvolutionError::EmptyBreedingPool,
            },
            r == Result::<Population, EvolutionError>::Err(EvolutionError::ZeroTotalFitness) <==> (
            fitness == FitnessPolicy::AgeElitism && all_zero_age(self.bubs@)),
            r == Result::<Population, EvolutionError>::Err(EvolutionError::EmptyBreedingPool) <==> (
            fitness == FitnessPolicy::BinaryLiveness && all_dead(self.bubs@)),
    {
        let n: usize = self.bubs.len();
        match fitness {
            FitnessPolicy::AgeElitism => {
                let k = elite_count(n, elite_num, elite_den);
                let ord = top_order(&self.bubs, k);
                let total = pool_total(&self.bubs, &ord, k);
                if total == 0 {
                    proof {
                        lemma_pool_sum_zero(self.bubs@, ord@, k as int);
                        assert forall|v: int|
                            0 <= v < n implies (#[trigger] self.bubs@[v]).age == 0 by {
                            assert(contains_val(ord@, v));
                            let t = choose|t: int|
                                0 <= t < ord@.len() && (#[trigger] ord@[t]) == v;
                            if t >= k {
                                assert(self.bubs@[ord@[0] as int].age >= self.bubs@[ord@[t]
                                    as int].age);
                                assert(self.bubs@[ord@[0] as int].age == 0);
                            }
                        }
                    }
                    return Err(EvolutionError::ZeroTotalFitness);
                }
                proof {
                    if all_zero_age(self.bubs@) {
                        lemma_pool_sum_all_zero(self.bubs@, ord@, k as int);
                    }
                }
                let mut children: Vec<Bub> = Vec::new();
                let mut c: usize = 0;
                while c < n
                    invariant
                        n == self.bubs@.len(),
                        1 <= n <= MAX_POP,
                        self.wf(world),
                        world.wf(),
                        mutation_rate <= RATE_ONE,
                        1 <= k <= ord@.len(),
                        k <= MAX_POP,
                        forall|t: int| 0 <= t < ord@.len() ==> (#[trigger] ord@[t]) < n,
                        forall|i: int|
                            0 <= i < self.bubs@.len() ==> (#[trigger] self.bubs@[i]).age
                                <= MAX_TIME_CAP,
                        1 <= total,
                        total as int == pool_sum(self.bubs@, ord@, k as int),
                        c <= n,
                        children@.len() == c,
                        forall|j: int|
                            0 <= j < c ==> (#[trigger] children@[j]).wf(world)
                                && children@[j].is_alive && children@[j].age == 0,
                    decreases n - c,
                {
                    let rdraw = rand_below(rng, total);
                    let pi = select_index(&self.bubs, &ord, k, rdraw);
                    let mut child_brain = self.bubs[pi].brain.clone();
                    child_brain.mutate(rng, mutation_rate);
                    let cx = random_coord(rng, world.width);
                    let cy = random_coord(rng, world.height);
                    let child = Bub::new_with_brain(cx, cy, world, child_brain);
                    children.push(child);
                    c = c + 1;
                }
                Ok(Population { bubs: children })
            },
            FitnessPolicy::BinaryLiveness => {
                let mut survivors: Vec<usize> = Vec::new();
                let mut i: usize = 0;
                while i < n
                    invariant
                        n == self.bubs@.len(),
                        i <= n,
                        survivors@.len() <= i,
                        forall|t: int|
                            0 <= t < survivors@.len() ==> (#[trigger] survivors@[t]) < n
                                && self.bubs@[survivors@[t] as int].is_alive,
                        survivors@.len() == 0 ==> forall|j: int|
                            0 <= j < i ==> !(#[trigger] self.bubs@[j]).is_alive,
                    decreases n - i,
                {
                    let alive = self.bubs[i].is_alive;
                    if alive {
                        survivors.push(i);
                    }
                    i = i + 1;
                }
                if survivors.len() == 0 {
                    return Err(EvolutionError::EmptyBreedingPool);
                }
                proof {
                    assert(self.bubs@[survivors@[0] as int].is_alive);
                }
                let m: usize = survivors.len();
                let mut children: Vec<Bub> = Vec::new();
                let mut c: usize = 0;
                while c < n
                    invariant
                        n == self.bubs@.len(),
                        1 <= n <= MAX_POP,
                        self.wf(world),
                        world.wf(),
                        mutation_rate <= RATE_ONE,
                        1 <= m,
                        m == survivors@.len(),
                        m <= n,
                        forall|t: int|
                            0 <= t < survivors@.len() ==> (#[trigger] survivors@[t]) < n,
                        c <= n,
                        children@.len() == c,
                        forall|j: int|
                            0 <= j < c ==> (#[trigger] children@[j]).wf(world)
                                && children@[j].is_alive && children@[j].age == 0,
                    decreases n - c,
                {
                    let d = rand_below(rng, m as u64);
                    let pi: usize = survivors[d as usize];
                    let mut child_brain = self.bubs[pi].brain.clone();
                    child_brain.mutate(rng, mutation_rate);
                    let cx = random_coord(rng, world.width);
                    let cy = random_coord(rng, world.height);
                    let child = Bub::new_with_brain(cx, cy, world, child_brain);
                    children.push(child);
                    c = c + 1;
                }
                Ok(Population { bubs: children })
            },
        }
    }
}

/// Determinism of the tick phase: one prior state admits exactly one next
/// state. Two populations stepped from the same agents under the same
/// world, action policy, zones and time budget agree on every agent's
/// position, liveness, age and weights. Randomness enters the simulation
/// only at population construction and at generation rollover.
pub proof fn lemma_tick_deterministic(
    before: Seq<Bub>,
    after1: Seq<Bub>,
    after2: Seq<Bub>,
    world: World,
    policy: ActionPolicy,
    zones: Seq<DangerZone>,
    max_time: u64,
)
    requires
        after1.len() == before.len(),
        after2.len() == before.len(),
        forall|i: int|
            0 <= i < before.len() ==> stepped_ok(
                before[i],
                #[trigger] after1[i],
                world,
                policy,
                zones,
                max_time,
            ),
        forall|i: int|
            0 <= i < before.len() ==> stepped_ok(
                before[i],
                #[trigger] after2[i],
                world,
                policy,
                zones,
                max_time,
            ),
    ensures
        forall|i: int|
            0 <= i < before.len() ==> {
                &&& (#[trigger] after1[i]).x == after2[i].x
                &&& after1[i].y == after2[i].y
                &&& after1[i].is_alive == after2[i].is_alive
                &&& after1[i].age == after2[i].age
                &&& same_weights(after1[i].brain, after2[i].brain)
            },
{
    assert forall|i: int|
        0 <= i < before.len() implies {
        &&& (#[trigger] after1[i]).x == after2[i].x
        &&& after1[i].y == after2[i].y
        &&& after1[i].is_alive == after2[i].is_alive
        &&& after1[i].age == after2[i].age
        &&& same_weights(after1[i].brain, after2[i].brain)
    } by {
        assert(stepped_ok(before[i], after1[i], world, policy, zones, max_time));
        assert(stepped_ok(before[i], after2[i], world, policy, zones, max_time));
        crate::network::lemma_same_weights_trans(after1[i].brain, before[i].brain, after2[i].brain);
    }
}

/// A uniformly random coordinate in `[0, hi]`.
fn random_coord(rng: &mut rand::rngs::StdRng, hi: i64) -> (r: i64)
    requires
        0 <= hi <= crate::world::MAX_DIM,
    ensures
        0 <= r <= hi,
{
    let d: u64 = rand_below(rng, (hi as u64) + 1);
    d as i64
}

/// Size of the breeding pool: `ceil(n * num / den)` agents, at least one
/// and at most the whole population.
pub fn elite_count(n: usize, num: u64, den: u64) -> (k: usize)
    requires
        1 <= n <= MAX_POP,
        1 <= num <= den,
        den <= 1000000000,
    ensures
        k as int == ((n as int) * (num as int) + (den as int) - 1) / (den as int),
        1 <= k <= n,
{
    proof {
        let ni = n as int;
        let numi = num as int;
        let deni = den as int;
        assert(1 <= ni * numi <= 1000000int * 1000000000int) by (nonlinear_arith)
            requires
                1 <= ni <= 1000000,
                1 <= numi <= 1000000000,
        ;
        vstd::arithmetic::mul::lemma_mul_inequality(numi, deni, ni);
        assert(numi * ni == ni * numi && deni * ni == ni * deni) by (nonlinear_arith);
        lemma_div_is_ordered(ni * numi + deni - 1, deni * ni + (deni - 1), deni);
        lemma_div_multiples_vanish_fancy(ni, deni - 1, deni);
        lemma_div_is_ordered(deni * 1 + 0, ni * numi + deni - 1, deni);
        lemma_div_multiples_vanish_fancy(1, 0, deni);
    }
    let k64: u64 = ((n as u64) * num + den - 1) / den;
    k64 as usize
}

/// An index order over the population whose first `k` entries are a
/// breeding pool sorted by descending age that dominates everything
/// outside it: the top `k` agents by age, ties resolved arbitrarily.
pub fn top_order(bubs: &Vec<Bub>, k: usize) -> (ord: Vec<usize>)
    requires
        k <= bubs@.len(),
        bubs@.len() <= MAX_POP,
    ensures
        ord@.len() == bubs@.len(),
        forall|t: int| 0 <= t < ord@.len() ==> (#[trigger] ord@[t]) < bubs@.len(),
        forall|p: int, q: int|
            #![trigger ord@[p], ord@[q]]
            0 <= p < q < ord@.len() ==> ord@[p] != ord@[q],
        forall|v: int| 0 <= v < bubs@.len() ==> #[trigger] contains_val(ord@, v),
        forall|p: int, q: int|
            #![trigger ord@[p], ord@[q]]
            0 <= p < k && p < q < ord@.len() ==> bubs@[ord@[p] as int].age >= bubs@[ord@[q]
                as int].age,
{
    let n: usize = bubs.len();
    let mut ord: Vec<usize> = Vec::new();
    let mut i: usize = 0;
    while i < n
        invariant
            i <= n,
            ord@.len() == i,
            forall|t: int| 0 <= t < i ==> (#[trigger] ord@[t]) == t,
        decreases n - i,
    {
        ord.push(i);
        i = i + 1;
    }
    proof {
        assert forall|v: int| 0 <= v < n implies #[trigger] contains_val(ord@, v) by {
            assert(ord@[v] == v);
        }
    }
    let mut s: usize = 0;
    while s < k
        invariant
            n == bubs@.len(),
            k <= n,
            s <= k,
            ord@.len() == n,
            forall|t: int| 0 <= t < n ==> (#[trigger] ord@[t]) < n,
            forall|p: int, q: int|
                #![trigger ord@[p], ord@[q]]
                0 <= p < q < n ==> ord@[p] != ord@[q],
            forall|v: int| 0 <= v < n ==> #[trigger] contains_val(ord@, v),
            forall|p: int, q: int|
                #![trigger ord@[p], ord@[q]]
                0 <= p < s && p < q < n ==> bubs@[ord@[p] as int].age >= bubs@[ord@[q] as int].age,
        decreases k - s,
    {
        let mut m: usize = s;
        let mut j: usize = s + 1;
        while j < n
            invariant
                n == bubs@.len(),
                ord@.len() == n,
                forall|t: int| 0 <= t < n ==> (#[trigger] ord@[t]) < n,
                s < n,
                s <= m < j <= n,
                forall|t: int|
                    s <= t < j ==> bubs@[ord@[m as int] as int].age >= bubs@[(#[trigger] ord@[t])
                        as int].age,
            decreases n - j,
        {
            let oj: usize = ord[j];
            let om: usize = ord[m];
            let aj: u64 = bubs[oj].age;
            let am: u64 = bubs[om].age;
            if aj > am {
                m = j;
            }
            j = j + 1;
        }
        let ghost prev = ord@;
        let vs: usize = ord[s];
        let vm: usize = ord[m];
        ord.set(s, vm);
        ord.set(m, vs);
        proof {
            let cur = ord@;
            assert(cur[s as int] == prev[m as int] && cur[m as int] == prev[s as int]);
            assert(forall|t: int|
                0 <= t < n && t != s && t != m ==> #[trigger] cur[t] == prev[t]);
            assert forall|p: int, q: int|
                #![trigger cur[p], cur[q]]
                0 <= p < q < n implies cur[p] != cur[q] by {
                let p0: int = if p == s {
                    m as int
                } else if p == m {
                    s as int
                } else {
                    p
                };
                let q0: int = if q == s {
                    m as int
                } else if q == m {
                    s as int
                } else {
                    q
                };
                assert(cur[p] == prev[p0] && cur[q] == prev[q0]);
                assert(p0 != q0);
            }
            assert forall|v: int| 0 <= v < n implies #[trigger] contains_val(cur, v) by {
                assert(contains_val(prev, v));
                let t = choose|t: int| 0 <= t < prev.len() && (#[trigger] prev[t]) == v;
                let t2: int = if t == s {
                    m as int
                } else if t == m {
                    s as int
                } else {
                    t
                };
                assert(0 <= t2 < cur.len() && cur[t2] == v);
            }
            assert forall|p: int, q: int|
                #![trigger cur[p], cur[q]]
                0 <= p < s + 1 && p < q < n implies bubs@[cur[p] as int].age >= bubs@[cur[q]
                as int].age by {
                if p < s {
                    assert(cur[p] == prev[p]);
                    if q == s {
                        assert(cur[q] == prev[m as int]);
                        assert(bubs@[prev[p] as int].age >= bubs@[prev[m as int] as int].age);
                    } else if q == m {
                        assert(cur[q] == prev[s as int]);
                        assert(bubs@[prev[p] as int].age >= bubs@[prev[s as int] as int].age);
                    } else {
                        assert(cur[q] == prev[q]);
                    }
                } else {
                    assert(p == s);
                    assert(cur[p] == prev[m as int]);
                    if q == m {
                        assert(cur[q] == prev[s as int]);
                        assert(bubs@[prev[m as int] as int].age >= bubs@[prev[s as int]
                            as int].age);
                    } else {
                        assert(cur[q] == prev[q]);
                        assert(bubs@[prev[m as int] as int].age >= bubs@[prev[q] as int].age);
                    }
                }
            }
        }
        s = s + 1;
    }
    ord
}

/// Total age of the breeding pool `ord[0..k]`.
pub fn pool_total(bubs: &Vec<Bub>, ord: &Vec<usize>, k: usize) -> (total: u64)
    requires
        k <= ord@.len(),
        k <= MAX_POP,
        forall|t: int| 0 <= t < ord@.len() ==> (#[trigger] ord@[t]) < bubs@.len(),
        forall|i: int| 0 <= i < bubs@.len() ==> (#[trigger] bubs@[i]).age <= MAX_TIME_CAP,
    ensures
        total as int == pool_sum(bubs@, ord@, k as int),
{
    let mut total: u64 = 0;
    let mut t: usize = 0;
    while t < k
        invariant
            k <= ord@.len(),
            k <= MAX_POP,
            t <= k,
            forall|s: int| 0 <= s < ord@.len() ==> (#[trigger] ord@[s]) < bubs@.len(),
            forall|i: int| 0 <= i < bubs@.len() ==> (#[trigger] bubs@[i]).age <= MAX_TIME_CAP,
            total as int == pool_sum(bubs@, ord@, t as int),
            total <= (t as u64) * MAX_TIME_CAP,
        decreases k - t,
    {
        let idx: usize = ord[t];
        let age: u64 = bubs[idx].age;
        total = total + age;
        t = t + 1;
    }
    total
}

/// Roulette-wheel selection: returns the pool member at the unique pool
/// position `t` with `pool_sum(t) <= r < pool_sum(t + 1)`. The result is
/// always a member of the breeding pool `ord[0..k]`.
pub fn select_index(bubs: &Vec<Bub>, ord: &Vec<usize>, k: usize, r: u64) -> (idx: usize)
    requires
        1 <= k <= ord@.len(),
        k <= MAX_POP,
        forall|t: int| 0 <= t < ord@.len() ==> (#[trigger] ord@[t]) < bubs@.len(),
        forall|i: int| 0 <= i < bubs@.len() ==> (#[trigger] bubs@[i]).age <= MAX_TIME_CAP,
        (r as int) < pool_sum(bubs@, ord@, k as int),
    ensures
        idx < bubs@.len(),
        exists|t: int|
            0 <= t < k && idx == ord@[t] && pool_sum(bubs@, ord@, t) <= r as int && (r as int)
                < pool_sum(bubs@, ord@, t + 1),
{
    let mut acc: u64 = 0;
    let mut t: usize = 0;
    while t < k
        invariant
            1 <= k <= ord@.len(),
            k <= MAX_POP,
            t <= k,
            forall|s: int| 0 <= s < ord@.len() ==> (#[trigger] ord@[s]) < bubs@.len(),
            forall|i: int| 0 <= i < bubs@.len() ==> (#[trigger] bubs@[i]).age <= MAX_TIME_CAP,
            (r as int) < pool_sum(bubs@, ord@, k as int),
            acc as int == pool_sum(bubs@, ord@, t as int),
            acc <= r,
            acc <= (t as u64) * MAX_TIME_CAP,
        decreases k - t,
    {
        let idx: usize = ord[t];
        let age: u64 = bubs[idx].age;
        let acc2: u64 = acc + age;
        if acc2 > r {
            proof {
                assert(pool_sum(bubs@, ord@, t as int) <= r as int && (r as int) < pool_sum(
                    bubs@,
                    ord@,
                    t as int + 1,
                ));
            }
            return idx;
        }
        acc = acc2;
        t = t + 1;
    }
    proof {
        assert(false);
    }
    unreached()
}

} // verus!
