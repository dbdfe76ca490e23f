//! Agents ("bubs"): a position on the plane, an owned decision network, a
//! liveness flag and an age counter. An agent senses its own normalized
//! state, feeds it to its network, and steps one unit in the decided
//! direction, clamped to the world bounds.
use vstd::prelude::*;

use vstd::arithmetic::div_mod::lemma_div_is_ordered;
use vstd::arithmetic::div_mod::lemma_div_multiples_vanish;
use vstd::arithmetic::mul::lemma_mul_inequality;
use vstd::pervasive::unreached;

use crate::clamp_spec;
use crate::clamp_coord;
use crate::network::FeedforwardNetwork;
use crate::network::INPUT_MAX;
use crate::world::World;

verus! {

/// Number of sensory inputs: normalized x, normalized y, normalized age.
pub const SENSE_SIZE: usize = 3;

/// Number of hidden units a fresh agent's network is built with.
pub const HIDDEN_UNITS: usize = 6;

/// Number of network outputs an action is decided from.
pub const ACTION_SIZE: usize = 4;

/// Fixed-point 1.0 of the sensory normalization: a sensed value lies in
/// `[0, SENSE_ONE]`.
pub const SENSE_ONE: i64 = 1000;

/// Upper cap on a generation's time budget, so that age sums over a
/// population always fit in a `u64`.
pub const MAX_TIME_CAP: u64 = 1000000;

/// How the four network outputs are read as a movement; both policies of
/// the engine are available and chosen by configuration.
#[derive(Clone, Copy, PartialEq, Eq, Structural)]
pub enum ActionPolicy {
    /// Outputs 0 and 1 vote on the horizontal step, 2 and 3 on the
    /// vertical step: a direction vote, not a magnitude.
    ThresholdPair,
    /// The single direction with the maximal output wins; ties go to the
    /// first maximum in the fixed order left, right, up, down.
    Argmax,
}

/// A decided movement: a unit step in each axis, in `{-1, 0, 1}`.
pub enum Action {
    Move(i64, i64),
}

/// The sequence of mathematical values of an `i64` vector.
pub open spec fn ints_of(s: Seq<i64>) -> Seq<int> {
    Seq::new(s.len(), |i: int| s[i] as int)
}

/// Horizontal and vertical step under the threshold-pair policy.
pub open spec fn threshold_move(v: Seq<int>) -> (int, int) {
    (
        if v[0] > v[1] {
            -1int
        } else {
            1int
        },
        if v[2] > v[3] {
            -1int
        } else {
            1int
        },
    )
}

/// Index of the first maximal value among the four outputs.
pub open spec fn argmax4(v: Seq<int>) -> int {
    if v[0] >= v[1] && v[0] >= v[2] && v[0] >= v[3] {
        0
    } else if v[1] >= v[2] && v[1] >= v[3] {
        1
    } else if v[2] >= v[3] {
        2
    } else {
        3
    }
}

/// Step under the argmax policy: left, right, up, down in index order.
pub open spec fn argmax_move(v: Seq<int>) -> (int, int) {
    let m = argmax4(v);
    if m == 0 {
        (-1int, 0int)
    } else if m == 1 {
        (1int, 0int)
    } else if m == 2 {
        (0int, -1int)
    } else {
        (0int, 1int)
    }
}

/// The movement a well-formed output vector decides under a policy.
pub open spec fn action_spec(policy: ActionPolicy, v: Seq<int>) -> (int, int) {
    match policy {
        ActionPolicy::ThresholdPair => threshold_move(v),
        ActionPolicy::Argmax => argmax_move(v),
    }
}

impl Action {
    /// Read a network output vector as a movement. Returns `None` exactly
    /// when the vector is malformed (its length is not `ACTION_SIZE`);
    /// this replaces a panic on an invalid output index.
    pub fn new(policy: ActionPolicy, values: &Vec<i64>) -> (r: Option<Action>)
        ensures
            r is Some <==> values@.len() == ACTION_SIZE,
            match r {
                Some(a) => {
                    let step = action_spec(policy, ints_of(values@));
                    a->Move_0 as int == step.0 && a->Move_1 as int == step.1
                },
                None => values@.len() != ACTION_SIZE,
            },
    {
        if values.len() != ACTION_SIZE {
            return None;
        }
        match policy {
            ActionPolicy::ThresholdPair => {
                let dx: i64 = if values[0] > values[1] {
                    -1
                } else {
                    1
                };
                let dy: i64 = if values[2] > values[3] {
                    -1
                } else {
                    1
                };
                Some(Action::Move(dx, dy))
            },
            ActionPolicy::Argmax => {
                let v0 = values[0];
                let v1 = values[1];
                let v2 = values[2];
                let v3 = values[3];
                if v0 >= v1 && v0 >= v2 && v0 >= v3 {
                    Some(Action::Move(-1, 0))
                } else if v1 >= v2 && v1 >= v3 {
                    Some(Action::Move(1, 0))
                } else if v2 >= v3 {
                    Some(Action::Move(0, -1))
                } else {
                    Some(Action::Move(0, 1))
                }
            },
        }
    }
}

/// One simulated entity.
pub struct Bub {
    pub x: i64,
    pub y: i64,
    pub brain: FeedforwardNetwork,
    pub is_alive: bool,
    pub age: u64,
}

/// The normalized sensory vector of an agent: position divided by the
/// world extents and age divided by the generation's time budget, each
/// scaled into `[0, SENSE_ONE]`.
pub open spec fn sense_spec(b: Bub, world: World, max_time: u64) -> Seq<i64> {
    seq![
        ((b.x * (SENSE_ONE as int)) / (world.width as int)) as i64,
        ((b.y * (SENSE_ONE as int)) / (world.height as int)) as i64,
        (((b.age as int) * (SENSE_ONE as int)) / (max_time as int)) as i64,
    ]
}

/// The mathematical outputs of a network on an input vector.
pub open spec fn out_seq(net: FeedforwardNetwork, input: Seq<i64>) -> Seq<int> {
    Seq::new(net.output_size as nat, |k: int| net.output_val(input, k))
}

/// Networks with the same weights compute the same outputs on every
/// input: a clone behaves exactly as its parent until one of them is
/// mutated, and a mutation with rate zero changes no behaviour.
pub proof fn lemma_same_weights_same_output(a: FeedforwardNetwork, b: FeedforwardNetwork, x: Seq<i64>)
    requires
        a.wf(),
        crate::network::same_weights(b, a),
    ensures
        out_seq(b, x) == out_seq(a, x),
{
    assert forall|j: int| 0 <= j < a.hidden_size implies a.hidden_val(x, j) == b.hidden_val(
        x,
        j,
    ) by {
        assert(b.w1@[j]@ == a.w1@[j]@);
    }
    assert(a.hidden_all(x) =~= b.hidden_all(x));
    assert forall|k: int| 0 <= k < a.output_size implies a.output_val(x, k) == b.output_val(
        x,
        k,
    ) by {
        assert(b.w2@[k]@ == a.w2@[k]@);
    }
    assert(out_seq(b, x) =~= out_seq(a, x));
}

/// `0 <= (v * s) / hi <= s` whenever `0 <= v <= hi`.
pub proof fn lemma_scaled_ratio_bounds(v: int, hi: int, s: int)
    requires
        0 <= v <= hi,
        1 <= hi,
        0 < s,
    ensures
        0 <= (v * s) / hi <= s,
{
    lemma_mul_inequality(v, hi, s);
    lemma_div_is_ordered(v * s, hi * s, hi);
    lemma_div_multiples_vanish(s, hi);
    assert(hi * s == s * hi) by (nonlinear_arith);
    lemma_div_is_ordered(0, v * s, hi);
}

impl Bub {
    /// Position within the world, a well-formed brain of the fixed
    /// sensory and action arities.
    pub open spec fn wf(&self, world: World) -> bool {
        &&& 0 <= self.x <= world.width
        &&& 0 <= self.y <= world.height
        &&& self.brain.wf()
        &&& self.brain.input_size == SENSE_SIZE
        &&& self.brain.output_size == ACTION_SIZE
    }

    /// A fresh agent at the given position with a newly drawn brain.
    pub fn new(x: i64, y: i64, world: World, rng: &mut rand::rngs::StdRng) -> (r: Self)
        requires
            world.wf(),
            0 <= x <= world.width,
            0 <= y <= world.height,
        ensures
            r.wf(world),
            r.x == x,
            r.y == y,
            r.is_alive,
            r.age == 0,
            r.brain.hidden_size == HIDDEN_UNITS,
    {
        let brain = FeedforwardNetwork::new(SENSE_SIZE, HIDDEN_UNITS, ACTION_SIZE, rng);
        Bub { x, y, brain, is_alive: true, age: 0 }
    }

    /// A fresh agent that inherits an existing brain.
    pub fn new_with_brain(x: i64, y: i64, world: World, brain: FeedforwardNetwork) -> (r: Self)
        requires
            world.wf(),
            0 <= x <= world.width,
            0 <= y <= world.height,
            brain.wf(),
            brain.input_size == SENSE_SIZE,
            brain.output_size == ACTION_SIZE,
        ensures
            r.wf(world),
            r.x == x,
            r.y == y,
            r.is_alive,
            r.age == 0,
            r.brain == brain,
    {
        Bub { x, y, brain, is_alive: true, age: 0 }
    }

    /// The agent's own state as a normalized input vector.
    pub fn sense(&self, world: World, max_time: u64) -> (r: Vec<i64>)
        requires
            self.wf(world),
            world.wf(),
            1 <= max_time <= MAX_TIME_CAP,
            self.age <= max_time,
        ensures
            r@ == sense_spec(*self, world, max_time),
            r@.len() == SENSE_SIZE,
            forall|i: int| 0 <= i < r@.len() ==> 0 <= #[trigger] r@[i] <= SENSE_ONE,
    {
        proof {
            lemma_scaled_ratio_bounds(self.x as int, world.width as int, SENSE_ONE as int);
            lemma_scaled_ratio_bounds(self.y as int, world.height as int, SENSE_ONE as int);
            lemma_scaled_ratio_bounds(self.age as int, max_time as int, SENSE_ONE as int);
        }
        let sx: u64 = ((self.x as u64) * (SENSE_ONE as u64)) / (world.width as u64);
        let sy: u64 = ((self.y as u64) * (SENSE_ONE as u64)) / (world.height as u64);
        let sa: u64 = (self.age * (SENSE_ONE as u64)) / max_time;
        let mut r: Vec<i64> = Vec::new();
        r.push(sx as i64);
        r.push(sy as i64);
        r.push(sa as i64);
        proof {
            assert(r@ =~= sense_spec(*self, world, max_time));
        }
        r
    }

    /// One simulation step of a live agent: age by one tick, run the
    /// network on the supplied input, take the decided unit step, and
    /// clamp the position back into the world. The brain and the liveness
    /// flag are untouched.
    pub fn update(&mut self, input: &Vec<i64>, world: World, policy: ActionPolicy)
        requires
            old(self).wf(world),
            world.wf(),
            input@.len() == SENSE_SIZE,
            forall|i: int|
                0 <= i < input@.len() ==> -(INPUT_MAX as int) <= #[trigger] input@[i]
                    <= INPUT_MAX as int,
            old(self).age < u64::MAX,
        ensures
            final(self).wf(world),
            final(self).age == old(self).age + 1,
            final(self).is_alive == old(self).is_alive,
            final(self).brain == old(self).brain,
            ({
                let step = action_spec(policy, out_seq(old(self).brain, input@));
                &&& final(self).x == clamp_spec(old(self).x + step.0, world.width as int)
                &&& final(self).y == clamp_spec(old(self).y + step.1, world.height as int)
            }),
    {
        self.age = self.age + 1;
        let out = self.brain.predict(input);
        let act = match Action::new(policy, &out) {
            Some(a) => a,
            None => unreached(),
        };
        proof {
            assert(ints_of(out@) =~= out_seq(self.brain, input@));
        }
        match act {
            Action::Move(dx, dy) => {
                self.x = clamp_coord(self.x + dx, world.width);
                self.y = clamp_coord(self.y + dy, world.height);
            },
        }
    }
}

impl Clone for Bub {
    /// A deep copy: same position, liveness, age and weights, with
    /// independently owned weight storage.
    fn clone(&self) -> (r: Self)
        ensures
            r.x == self.x,
            r.y == self.y,
            r.is_alive == self.is_alive,
            r.age == self.age,
            crate::network::same_weights(r.brain, self.brain),
            self.brain.wf() ==> r.brain.wf(),
    {
        Bub {
            x: self.x,
            y: self.y,
            brain: self.brain.clone(),
            is_alive: self.is_alive,
            age: self.age,
        }
    }
}

} // verus!
