//! What things cost, and the sums that a game's accounts are made of.
//!
//! Creating a game costs the sum of the rewards of its ships, so that the
//! pot can pay for every ship that may be sunk; the size of the grid does not
//! enter into it. The price of a shot is not flat: a shot costs two to the
//! power of the number of shots fired before it, capped at two to the tenth.
//! A peek costs two for each shot looked at.

use vstd::prelude::*;
use vstd::arithmetic::power2::lemma2_to64;
use vstd::arithmetic::power2::lemma_pow2_strictly_increases;
use vstd::arithmetic::power2::lemma_pow2_unfold;
use vstd::arithmetic::power2::pow2;
use crate::state::Ship;
use crate::state::ShipView;
use crate::state::ShotView;
use crate::state::fleet_view;

verus! {

/// The exponent at which the price of a shot stops growing.
pub const SHOT_COST_CAP: usize = 10;

/// The highest price of a shot, two to the tenth.
pub const MAX_SHOT_COST: u128 = 1024;

/// Price of a shot when `shots_fired` shots were fired before it.
pub open spec fn spec_shot_cost(shots_fired: nat) -> nat {
    pow2(
        if shots_fired < SHOT_COST_CAP {
            shots_fired
        } else {
            SHOT_COST_CAP as nat
        },
    )
}

/// Price of looking at `num_shots` shots.
pub open spec fn spec_peek_cost(num_shots: nat) -> nat {
    2 * num_shots
}

/// Sum of the rewards of all ships of a fleet.
pub open spec fn total_rewards(ships: Seq<ShipView>) -> nat
    decreases ships.len(),
{
    if ships.len() == 0 {
        0
    } else {
        total_rewards(ships.drop_last()) + ships.last().ship_type.spec_reward()
    }
}

/// Sum of the rewards of the sunk ships of a fleet.
pub open spec fn sunk_rewards(ships: Seq<ShipView>) -> nat
    decreases ships.len(),
{
    if ships.len() == 0 {
        0
    } else {
        sunk_rewards(ships.drop_last()) + if ships.last().is_sunk {
            ships.last().ship_type.spec_reward()
        } else {
            0
        }
    }
}

/// Sum of the fees of all shots of a history.
pub open spec fn fees_collected(shots: Seq<ShotView>) -> nat
    decreases shots.len(),
{
    if shots.len() == 0 {
        0
    } else {
        fees_collected(shots.drop_last()) + shots.last().cost as nat
    }
}

/// Sum of the rewards that the shots of a history paid out.
pub open spec fn rewards_paid(shots: Seq<ShotView>) -> nat
    decreases shots.len(),
{
    if shots.len() == 0 {
        0
    } else {
        rewards_paid(shots.drop_last()) + shots.last().outcome.spec_payout()
    }
}

/// The price of a shot never falls as shots are fired, and never exceeds
/// two to the tenth.
pub proof fn lemma_shot_cost_monotonic(a: nat, b: nat)
    requires
        a <= b,
    ensures
        1 <= spec_shot_cost(a) <= spec_shot_cost(b) <= MAX_SHOT_COST,
{
    lemma2_to64();
    if a < b && b <= 10 {
        lemma_pow2_strictly_increases(a, b);
    }
    if a < 10 && b > 10 {
        lemma_pow2_strictly_increases(a, 10);
    }
    if b < 10 {
        lemma_pow2_strictly_increases(b, 10);
    }
    if a > 0 {
        lemma_pow2_strictly_increases(0, a);
    }
}

/// Price of the next shot when `shots_fired_so_far` shots were fired.
pub fn shot_cost(shots_fired_so_far: usize) -> (cost: u128)
    ensures
        cost == spec_shot_cost(shots_fired_so_far as nat),
        1 <= cost <= MAX_SHOT_COST,
{
    let exponent: usize = if shots_fired_so_far < SHOT_COST_CAP {
        shots_fired_so_far
    } else {
        SHOT_COST_CAP
    };
    let mut cost: u128 = 1;
    let mut i: usize = 0;
    proof {
        lemma2_to64();
    }
    while i < exponent
        invariant
            i <= exponent <= 10,
            cost == pow2(i as nat),
            cost <= MAX_SHOT_COST,
        decreases exponent - i,
    {
        proof {
            lemma_pow2_unfold((i + 1) as nat);
            lemma2_to64();
            if i + 1 < 10 {
                lemma_pow2_strictly_increases((i + 1) as nat, 10);
            }
        }
        cost = cost * 2;
        i += 1;
    }
    proof {
        lemma_shot_cost_monotonic(shots_fired_so_far as nat, shots_fired_so_far as nat);
    }
    cost
}

/// Price of looking at `num_shots` shots, owed to the creator of the game.
pub fn peek_cost(num_shots: u64) -> (cost: u128)
    ensures
        cost == spec_peek_cost(num_shots as nat),
{
    2 * (num_shots as u128)
}

/// The rewards of a fleet sum to at most fifty per ship.
pub proof fn lemma_total_rewards_bound(ships: Seq<ShipView>)
    ensures
        sunk_rewards(ships) <= total_rewards(ships) <= 50 * ships.len(),
    decreases ships.len(),
{
    if ships.len() > 0 {
        lemma_total_rewards_bound(ships.drop_last());
    }
}

/// Price of creating a game with the fleet `ships`: the sum of the rewards of
/// its ships.
pub fn creation_cost(ships: &Vec<Ship>) -> (cost: u128)
    ensures
        cost == total_rewards(fleet_view(ships@)),
{
    let ghost fleet = fleet_view(ships@);
    let mut cost: u128 = 0;
    let mut i: usize = 0;
    while i < ships.len()
        invariant
            i <= ships.len(),
            fleet == fleet_view(ships@),
            cost == total_rewards(fleet.take(i as int)),
            cost <= 50 * i,
        decreases ships.len() - i,
    {
        proof {
            assert(fleet.take(i + 1).drop_last() =~= fleet.take(i as int));
            assert(fleet.take(i + 1).last() == ships[i as int]@);
        }
        cost = cost + ships[i].ship_type.reward();
        i += 1;
    }
    assert(fleet.take(ships.len() as int) =~= fleet);
    cost
}

} // verus!
