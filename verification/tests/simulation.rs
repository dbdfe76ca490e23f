use bubs_world::agent::ActionPolicy;
use bubs_world::agent::Bub;
use bubs_world::engine::Config;
use bubs_world::engine::Engine;
use bubs_world::engine::ZoneSchedule;
use bubs_world::engine::active_zones;
use bubs_world::network::FeedforwardNetwork;
use bubs_world::population::EvolutionError;
use bubs_world::population::FitnessPolicy;
use bubs_world::population::Population;
use bubs_world::population::elite_count;
use bubs_world::population::select_index;
use bubs_world::population::top_order;
use bubs_world::rng::seed_rng;
use bubs_world::world::World;
use bubs_world::zone::DangerZone;

fn rows(n: usize, row: Vec<i64>) -> Vec<Vec<i64>> {
    let mut m = Vec::new();
    for _ in 0..n {
        m.push(row.clone());
    }
    m
}

fn zero_net() -> FeedforwardNetwork {
    FeedforwardNetwork::from_weights(3, 6, 4, rows(6, vec![0, 0, 0]), rows(4, vec![0; 6])).unwrap()
}

fn small_config(fitness: FitnessPolicy) -> Config {
    Config {
        world: World::new(800, 600).unwrap(),
        population_size: 10,
        max_time: 50,
        elite_num: 1,
        elite_den: 20,
        mutation_rate: 30,
        action_policy: ActionPolicy::ThresholdPair,
        fitness_policy: fitness,
        zones: ZoneSchedule::Sweep,
    }
}

fn aged_population(world: World, ages: &[u64]) -> Population {
    let mut bubs = Vec::new();
    for (i, a) in ages.iter().enumerate() {
        let mut b = Bub::new_with_brain((i as i64) * 10, 0, world, zero_net());
        b.age = *a;
        bubs.push(b);
    }
    Population { bubs }
}

#[test]
fn same_seed_gives_bit_identical_runs() {
    let mut rng1 = seed_rng(42);
    let mut rng2 = seed_rng(42);
    let mut e1 = Engine::new(small_config(FitnessPolicy::AgeElitism), &mut rng1);
    let mut e2 = Engine::new(small_config(FitnessPolicy::AgeElitism), &mut rng2);
    for _ in 0..120 {
        assert!(e1.step(&mut rng1).is_ok());
        assert!(e2.step(&mut rng2).is_ok());
    }
    assert!(e1.generation > 1);
    assert_eq!(e1.generation, e2.generation);
    assert_eq!(e1.time, e2.time);
    assert_eq!(e1.last_survival_rate, e2.last_survival_rate);
    assert_eq!(e1.population.bubs.len(), e2.population.bubs.len());
    for (a, b) in e1.population.bubs.iter().zip(e2.population.bubs.iter()) {
        assert_eq!(a.x, b.x);
        assert_eq!(a.y, b.y);
        assert_eq!(a.is_alive, b.is_alive);
        assert_eq!(a.age, b.age);
        assert_eq!(a.brain.w1, b.brain.w1);
        assert_eq!(a.brain.w2, b.brain.w2);
    }
}

#[test]
fn positions_stay_in_bounds_across_generations() {
    let mut rng = seed_rng(9);
    let mut e = Engine::new(small_config(FitnessPolicy::AgeElitism), &mut rng);
    for _ in 0..160 {
        assert!(e.step(&mut rng).is_ok());
        for b in e.population.bubs.iter() {
            assert!(0 <= b.x && b.x <= 800);
            assert!(0 <= b.y && b.y <= 600);
        }
    }
}

#[test]
fn generation_rollover_conserves_population_size() {
    let world = World::new(800, 600).unwrap();
    let pop = aged_population(world, &[10, 5, 50, 1, 30]);
    let mut rng = seed_rng(3);
    let next = pop
        .spawn_next_generation(world, FitnessPolicy::AgeElitism, 2, 5, 30, &mut rng)
        .unwrap();
    assert_eq!(next.bubs.len(), 5);
    for b in next.bubs.iter() {
        assert!(b.is_alive);
        assert_eq!(b.age, 0);
        assert!(0 <= b.x && b.x <= 800);
        assert!(0 <= b.y && b.y <= 600);
    }
}

#[test]
fn elite_pool_is_exactly_the_top_ages() {
    let world = World::new(800, 600).unwrap();
    let pop = aged_population(world, &[10, 5, 50, 1, 30]);
    let k = elite_count(5, 2, 5);
    assert_eq!(k, 2);
    let ord = top_order(&pop.bubs, k);
    let pool_ages: Vec<u64> = ord[..k].iter().map(|i| pop.bubs[*i].age).collect();
    assert_eq!(pool_ages, vec![50, 30]);
    // roulette selection never leaves the pool: total pool age is 80
    for r in [0u64, 1, 49, 50, 79] {
        let idx = select_index(&pop.bubs, &ord, k, r);
        assert!(idx == 2 || idx == 4);
    }
    assert_eq!(select_index(&pop.bubs, &ord, k, 0), 2);
    assert_eq!(select_index(&pop.bubs, &ord, k, 49), 2);
    assert_eq!(select_index(&pop.bubs, &ord, k, 50), 4);
    assert_eq!(select_index(&pop.bubs, &ord, k, 79), 4);
}

#[test]
fn zero_total_fitness_is_an_explicit_error() {
    let world = World::new(800, 600).unwrap();
    let pop = aged_population(world, &[0, 0, 0]);
    let mut rng = seed_rng(4);
    let r = pop.spawn_next_generation(world, FitnessPolicy::AgeElitism, 1, 20, 30, &mut rng);
    match r {
        Err(e) => assert_eq!(e, EvolutionError::ZeroTotalFitness),
        Ok(_) => panic!("expected the zero-total-fitness error"),
    }
}

#[test]
fn empty_breeding_pool_is_an_explicit_error() {
    let world = World::new(800, 600).unwrap();
    let mut pop = aged_population(world, &[7, 9]);
    for b in pop.bubs.iter_mut() {
        b.is_alive = false;
    }
    let mut rng = seed_rng(4);
    let r = pop.spawn_next_generation(world, FitnessPolicy::BinaryLiveness, 1, 20, 30, &mut rng);
    match r {
        Err(e) => assert_eq!(e, EvolutionError::EmptyBreedingPool),
        Ok(_) => panic!("expected the empty-breeding-pool error"),
    }
}

#[test]
fn binary_liveness_breeds_from_survivors() {
    let world = World::new(800, 600).unwrap();
    let mut pop = aged_population(world, &[7, 9, 3]);
    pop.bubs[1].is_alive = false;
    let mut rng = seed_rng(4);
    let next = pop
        .spawn_next_generation(world, FitnessPolicy::BinaryLiveness, 1, 20, 30, &mut rng)
        .unwrap();
    assert_eq!(next.bubs.len(), 3);
    for b in next.bubs.iter() {
        assert!(b.is_alive);
        assert_eq!(b.age, 0);
    }
}

#[test]
fn containment_is_inclusive_on_the_edges() {
    // with four fixed-point digits, 10.0001 is 100001 and 10 is 100000
    let z = DangerZone::new(0, 0, 100000, 100000).unwrap();
    assert!(z.contains(100000, 100000));
    assert!(!z.contains(100001, 100000));
    let plain = DangerZone::new(0, 0, 10, 10).unwrap();
    assert!(plain.contains(10, 10));
    assert!(plain.contains(0, 0));
    assert!(!plain.contains(11, 10));
    assert!(!plain.contains(-1, 5));
}

#[test]
fn survival_rate_is_an_integer_percentage() {
    let world = World::new(800, 600).unwrap();
    let mut pop = aged_population(world, &[1, 2, 3, 4, 5]);
    pop.bubs[0].is_alive = false;
    pop.bubs[1].is_alive = false;
    pop.bubs[2].is_alive = false;
    assert_eq!(pop.survival_rate(), 40);
}

#[test]
fn elite_count_rounds_up_and_keeps_at_least_one() {
    assert_eq!(elite_count(100, 1, 20), 5);
    assert_eq!(elite_count(10, 1, 20), 1);
    assert_eq!(elite_count(5, 2, 5), 2);
    assert_eq!(elite_count(3, 1, 1), 3);
}

#[test]
fn sweep_schedule_is_a_pure_function_of_the_tick() {
    let world = World::new(800, 600).unwrap();
    let plan = ZoneSchedule::Sweep;
    assert!(active_zones(world, &plan, 0).is_empty());
    assert!(active_zones(world, &plan, 499).is_empty());
    let at_intro = active_zones(world, &plan, 500);
    assert_eq!(at_intro.len(), 1);
    assert_eq!(
        (at_intro[0].x, at_intro[0].y, at_intro[0].w, at_intro[0].h),
        (0, 0, 240, 180),
    );
    // 100 ticks into the first phase: x has moved 100/500 of its span 560
    let moved = active_zones(world, &plan, 600);
    assert_eq!((moved[0].x, moved[0].y), (112, 0));
    // the same tick always yields the same rectangle
    let again = active_zones(world, &plan, 600);
    assert_eq!((again[0].x, again[0].y, again[0].w, again[0].h),
        (moved[0].x, moved[0].y, moved[0].w, moved[0].h));
}

#[test]
fn left_half_zone_kills_all_left_movers() {
    let world = World::new(800, 600).unwrap();
    let zone = DangerZone::new(0, 0, 400, 600).unwrap();
    let config = Config {
        world,
        population_size: 4,
        max_time: 450,
        elite_num: 1,
        elite_den: 20,
        mutation_rate: 30,
        action_policy: ActionPolicy::Argmax,
        fitness_policy: FitnessPolicy::BinaryLiveness,
        zones: ZoneSchedule::Fixed(vec![zone]),
    };
    let mut rng = seed_rng(5);
    let mut engine = Engine::new(config, &mut rng);
    // four agents on the right edge whose zero networks always vote "left"
    let mut bubs = Vec::new();
    for i in 0..4 {
        bubs.push(Bub::new_with_brain(800, (i as i64) * 150, world, zero_net()));
    }
    engine.population = Population { bubs };
    for _ in 0..450 {
        assert!(engine.step(&mut rng).is_ok());
    }
    // every agent died within ceil(400 / 1) ticks of the start
    assert!(engine.population.bubs.iter().all(|b| !b.is_alive));
    assert_eq!(engine.population.survival_rate(), 0);
    // the boundary cannot breed: the error is explicit, the run stops
    let r = engine.step(&mut rng);
    assert_eq!(r.unwrap_err(), EvolutionError::EmptyBreedingPool);
    assert_eq!(engine.generation, 1);
}

#[test]
fn rollover_resets_the_clock_and_bumps_the_generation() {
    let mut rng = seed_rng(21);
    let mut e = Engine::new(small_config(FitnessPolicy::AgeElitism), &mut rng);
    for _ in 0..50 {
        assert!(e.step(&mut rng).is_ok());
    }
    assert_eq!(e.generation, 1);
    assert_eq!(e.time, 50);
    assert!(e.step(&mut rng).is_ok());
    assert_eq!(e.generation, 2);
    assert_eq!(e.time, 1);
    // no danger zone before the sweep starts, so everyone survived
    assert_eq!(e.last_survival_rate, 100);
    assert_eq!(e.population.bubs.len(), 10);
    for b in e.population.bubs.iter() {
        assert_eq!(b.age, 1);
        assert!(b.is_alive);
    }
}
