use bubs_world::agent::Action;
use bubs_world::agent::ActionPolicy;
use bubs_world::agent::Bub;
use bubs_world::network::FeedforwardNetwork;
use bubs_world::network::RATE_ONE;
use bubs_world::rng::seed_rng;
use bubs_world::world::World;

fn rows(n: usize, row: Vec<i64>) -> Vec<Vec<i64>> {
    let mut m = Vec::new();
    for _ in 0..n {
        m.push(row.clone());
    }
    m
}

fn zero_net() -> FeedforwardNetwork {
    FeedforwardNetwork::from_weights(3, 6, 4, rows(6, vec![0, 0, 0]), rows(4, vec![0; 6])).unwrap()
}

#[test]
fn predict_returns_output_size_values() {
    let mut rng = seed_rng(1);
    let net = FeedforwardNetwork::new(3, 6, 4, &mut rng);
    let out = net.predict(&vec![0, 0, 0]);
    assert_eq!(out.len(), 4);
    let out2 = net.predict(&vec![1000, 500, 0]);
    assert_eq!(out2.len(), 4);
}

#[test]
fn predict_exact_linear_values() {
    let w1 = rows(6, vec![1, 2, 3]);
    let mut w2 = Vec::new();
    w2.push(vec![1, 1, 1, 1, 1, 1]);
    w2.push(vec![1, 1, 1, 1, 1, 0]);
    w2.push(vec![0, 0, 0, 0, 0, 0]);
    w2.push(vec![-1, -1, -1, -1, -1, -1]);
    let net = FeedforwardNetwork::from_weights(3, 6, 4, w1, w2).unwrap();
    // each hidden unit: 1*10 + 2*20 + 3*30 = 140
    let out = net.predict(&vec![10, 20, 30]);
    assert_eq!(out, vec![840, 700, 0, -840]);
}

#[test]
fn from_weights_rejects_bad_shapes_and_ranges() {
    assert!(FeedforwardNetwork::from_weights(3, 6, 4, rows(5, vec![0, 0, 0]), rows(4, vec![0; 6]))
        .is_none());
    assert!(FeedforwardNetwork::from_weights(3, 6, 4, rows(6, vec![0, 0]), rows(4, vec![0; 6]))
        .is_none());
    assert!(FeedforwardNetwork::from_weights(0, 6, 4, rows(6, vec![]), rows(4, vec![0; 6]))
        .is_none());
    // a weight outside [-1000, 1000]
    assert!(FeedforwardNetwork::from_weights(3, 6, 4, rows(6, vec![0, 0, 1001]), rows(4, vec![0; 6]))
        .is_none());
    assert!(FeedforwardNetwork::from_weights(3, 6, 4, rows(6, vec![0, 0, 0]), rows(4, vec![0; 6]))
        .is_some());
}

#[test]
fn clone_is_independent_of_full_rate_mutation() {
    let mut rng = seed_rng(7);
    let net = FeedforwardNetwork::new(3, 6, 4, &mut rng);
    let snapshot = net.clone();
    let mut child = net.clone();
    child.mutate(&mut rng, RATE_ONE);
    // the original is untouched
    assert_eq!(net.w1, snapshot.w1);
    assert_eq!(net.w2, snapshot.w2);
    // the clone diverged in every single weight
    for (ca, na) in child.w1.iter().zip(net.w1.iter()) {
        for (c, n) in ca.iter().zip(na.iter()) {
            assert_ne!(c, n);
        }
    }
    for (ca, na) in child.w2.iter().zip(net.w2.iter()) {
        for (c, n) in ca.iter().zip(na.iter()) {
            assert_ne!(c, n);
        }
    }
}

#[test]
fn mutate_rate_zero_changes_nothing() {
    let mut rng = seed_rng(11);
    let mut net = FeedforwardNetwork::new(3, 6, 4, &mut rng);
    let snapshot = net.clone();
    net.mutate(&mut rng, 0);
    assert_eq!(net.w1, snapshot.w1);
    assert_eq!(net.w2, snapshot.w2);
}

#[test]
fn mutate_full_rate_changes_every_weight() {
    let mut rng = seed_rng(13);
    let mut net = zero_net();
    net.mutate(&mut rng, RATE_ONE);
    for row in net.w1.iter().chain(net.w2.iter()) {
        for w in row.iter() {
            assert_ne!(*w, 0);
            assert!(-1000 <= *w && *w <= 1000);
        }
    }
}

#[test]
fn threshold_pair_action_votes_by_comparison() {
    let a = Action::new(ActionPolicy::ThresholdPair, &vec![5, 1, 0, 9]).unwrap();
    let Action::Move(dx, dy) = a;
    assert_eq!((dx, dy), (-1, 1));
    let b = Action::new(ActionPolicy::ThresholdPair, &vec![1, 1, 2, 2]).unwrap();
    let Action::Move(dx2, dy2) = b;
    assert_eq!((dx2, dy2), (1, 1));
}

#[test]
fn argmax_action_takes_first_maximum() {
    let a = Action::new(ActionPolicy::Argmax, &vec![3, 3, 2, 1]).unwrap();
    let Action::Move(dx, dy) = a;
    assert_eq!((dx, dy), (-1, 0));
    let b = Action::new(ActionPolicy::Argmax, &vec![1, 3, 3, 2]).unwrap();
    let Action::Move(dx2, dy2) = b;
    assert_eq!((dx2, dy2), (1, 0));
    let c = Action::new(ActionPolicy::Argmax, &vec![0, 0, 1, 1]).unwrap();
    let Action::Move(dx3, dy3) = c;
    assert_eq!((dx3, dy3), (0, -1));
    let d = Action::new(ActionPolicy::Argmax, &vec![0, 0, 0, 5]).unwrap();
    let Action::Move(dx4, dy4) = d;
    assert_eq!((dx4, dy4), (0, 1));
}

#[test]
fn malformed_output_vector_is_an_error_not_a_panic() {
    assert!(Action::new(ActionPolicy::ThresholdPair, &vec![1, 2, 3]).is_none());
    assert!(Action::new(ActionPolicy::Argmax, &vec![1, 2, 3, 4, 5]).is_none());
}

#[test]
fn sense_normalizes_into_fixed_point_unit_range() {
    let world = World::new(800, 600).unwrap();
    let mut b = Bub::new_with_brain(400, 300, world, zero_net());
    b.age = 25;
    let s = b.sense(world, 50);
    assert_eq!(s, vec![500, 500, 500]);
    let mut c = Bub::new_with_brain(800, 0, world, zero_net());
    c.age = 50;
    let s2 = c.sense(world, 50);
    assert_eq!(s2, vec![1000, 0, 1000]);
}

#[test]
fn clamp_keeps_agent_inside_world_under_constant_push() {
    let world = World::new(10, 10).unwrap();
    // a zero network under the argmax policy always votes "left"
    let mut b = Bub::new_with_brain(2, 5, world, zero_net());
    for _ in 0..6 {
        let input = b.sense(world, 100);
        b.update(&input, world, ActionPolicy::Argmax);
        assert!(0 <= b.x && b.x <= 10);
        assert!(0 <= b.y && b.y <= 10);
    }
    assert_eq!(b.x, 0);
    assert_eq!(b.y, 5);
    assert_eq!(b.age, 6);
}
