//! Deciding at run time whether a ship, a game or a registry that came from
//! outside satisfies its invariant.

use std::collections::HashSet;
use vstd::prelude::*;
use crate::invariants::lemma_costs_bounded;
use crate::pricing::MAX_SHOT_COST;
use crate::pricing::creation_cost;
use crate::pricing::fees_collected;
use crate::pricing::lemma_total_rewards_bound;
use crate::pricing::rewards_paid;
use crate::pricing::shot_cost;
use crate::pricing::spec_shot_cost;
use crate::pricing::sunk_rewards;
use crate::registry::Registry;
use crate::state::FLEET_SIZE;
use crate::state::Game;
use crate::state::GameStatus;
use crate::state::Ship;
use crate::state::ShotView;
use crate::state::run_tile;
use crate::utilities::is_fleet_sunk;
use crate::validation::is_tile;
use crate::validation::validate_not_already_shot;
use crate::validation::validate_ships_not_overlapping;
use crate::validation::was_shot;

verus! {

broadcast use vstd::std_specs::hash::group_hash_axioms;

impl Ship {
    /// Whether the ship satisfies its invariant.
    pub fn is_well_formed(&self) -> (ok: bool)
        ensures
            ok == self@.wf(),
    {
        let length: usize = self.ship_type.length() as usize;
        if self.tiles.len() != length || self.hits.len() != length {
            return false;
        }
        let start: usize = if self.is_horizontal {
            self.x as usize
        } else {
            self.y as usize
        };
        if start + length > 256 {
            return false;
        }
        let mut sunk: bool = true;
        let mut k: usize = 0;
        while k < length
            invariant
                k <= length,
                length == self.tiles.len(),
                length == self.hits.len(),
                length == self.ship_type.spec_length(),
                start == if self.is_horizontal {
                    self.x as int
                } else {
                    self.y as int
                },
                start + length <= 256,
                forall|j: int|
                    0 <= j < k ==> #[trigger] self.tiles[j] == run_tile(
                        self.x,
                        self.y,
                        self.is_horizontal,
                        j,
                    ),
                sunk == (forall|j: int| 0 <= j < k ==> self.hits[j]),
            decreases length - k,
        {
            let tile = self.tiles[k];
            let along: u8 = (start + k) as u8;
            let in_place = if self.is_horizontal {
                tile.x == along && tile.y == self.y
            } else {
                tile.x == self.x && tile.y == along
            };
            if !in_place {
                assert(self.tiles[k as int] != run_tile(
                    self.x,
                    self.y,
                    self.is_horizontal,
                    k as int,
                ));
                return false;
            }
            if !self.hits[k] {
                sunk = false;
            }
            k += 1;
        }
        self.is_sunk == sunk
    }

    /// Whether every square of the ship lies on a grid of side `size`.
    pub fn is_in_grid(&self, size: u8) -> (ok: bool)
        ensures
            ok == self@.in_grid(size),
    {
        let mut k: usize = 0;
        while k < self.tiles.len()
            invariant
                k <= self.tiles.len(),
                forall|j: int|
                    0 <= j < k ==> (#[trigger] self.tiles[j]).x < size && self.tiles[j].y < size,
            decreases self.tiles.len() - k,
        {
            if !(self.tiles[k].x < size && self.tiles[k].y < size) {
                assert(!(self@.tiles[k as int].x < size && self@.tiles[k as int].y < size));
                return false;
            }
            k += 1;
        }
        true
    }
}

/// The rewards paid by a part of a history are at most those paid by the
/// whole.
proof fn lemma_rewards_paid_prefix(shots: Seq<ShotView>, k: int)
    requires
        0 <= k <= shots.len(),
    ensures
        rewards_paid(shots.take(k)) <= rewards_paid(shots),
    decreases shots.len(),
{
    if k < shots.len() {
        assert(shots.drop_last().take(k) =~= shots.take(k));
        lemma_rewards_paid_prefix(shots.drop_last(), k);
    } else {
        assert(shots.take(k) =~= shots);
    }
}

/// Whether the coordinates of the first `k` shots are the squares that the
/// codes of `seen` stand for.
spec fn codes_of(shots: Seq<ShotView>, k: int, seen: Set<u16>) -> bool {
    forall|code: u16|
        seen.contains(code) <==> exists|j: int|
            0 <= j < k && shot_key(#[trigger] shots[j]) == code
}

/// The number that stands for the coordinate of a shot in the set of
/// coordinates fired at.
spec fn shot_key(shot: ShotView) -> u16 {
    (shot.x * 256 + shot.y) as u16
}

impl Game {
    /// Whether the board satisfies its invariant.
    pub fn board_is_well_formed(&self) -> (ok: bool)
        ensures
            ok == self@.board_wf(),
    {
        if self.ships.len() != FLEET_SIZE {
            return false;
        }
        let mut i: usize = 0;
        while i < self.ships.len()
            invariant
                i <= self.ships.len(),
                forall|j: int|
                    0 <= j < i ==> (#[trigger] self@.ships[j]).wf() && self@.ships[j].in_grid(
                        self.size,
                    ),
            decreases self.ships.len() - i,
        {
            if !self.ships[i].is_well_formed() || !self.ships[i].is_in_grid(self.size) {
                assert(self@.ships[i as int] == self.ships[i as int]@);
                return false;
            }
            assert(self@.ships[i as int] == self.ships[i as int]@);
            i += 1;
        }
        match validate_ships_not_overlapping(&self.ships) {
            Ok(_) => true,
            Err(_) => false,
        }
    }

    /// Whether the history satisfies its invariant, for a game whose board
    /// does.
    fn history_is_well_formed(&self) -> (ok: bool)
        requires
            self@.board_wf(),
        ensures
            ok == self@.history_wf(),
    {
        let ghost shots = self@.shots;
        let mut seen: HashSet<u16> = HashSet::new();
        let mut k: usize = 0;
        while k < self.shots.len()
            invariant
                k <= self.shots.len(),
                shots == self@.shots,
                shots.len() == self.shots.len(),
                forall|j: int|
                    0 <= j < k ==> (#[trigger] shots[j]).x < self.size && shots[j].y < self.size,
                forall|j: int, l: int|
                    0 <= j < l < k ==> !((#[trigger] shots[j]).x == (#[trigger] shots[l]).x
                        && shots[j].y == shots[l].y),
                forall|j: int|
                    0 <= j < k ==> (#[trigger] shots[j]).cost == spec_shot_cost(j as nat),
                codes_of(shots, k as int, seen@),
            decreases self.shots.len() - k,
        {
            let shot = &self.shots[k];
            assert(shots[k as int] == shot@);
            if !(shot.x < self.size && shot.y < self.size) {
                return false;
            }
            if shot.cost != shot_cost(k) {
                return false;
            }
            let code: u16 = (shot.x as u16) * 256 + (shot.y as u16);
            assert(code == shot_key(shots[k as int]));
            let fresh = seen.insert(code);
            if !fresh {
                proof {
                    let j = choose|j: int| 0 <= j < k && shot_key(#[trigger] shots[j]) == code;
                    assert(shots[j].x == shots[k as int].x && shots[j].y == shots[k as int].y);
                }
                return false;
            }
            proof {
                assert forall|j: int, l: int| 0 <= j < l < k + 1 implies !((#[trigger] shots[j]).x
                    == (#[trigger] shots[l]).x && shots[j].y == shots[l].y) by {
                    if l == k {
                        if shots[j].x == shots[l].x && shots[j].y == shots[l].y {
                            assert(shot_key(shots[j]) == code);
                        }
                    }
                }
                assert forall|c: u16| seen@.contains(c) <==> exists|j: int|
                    0 <= j < k + 1 && shot_key(#[trigger] shots[j]) == c by {
                    if c == code {
                        assert(shot_key(shots[k as int]) == c);
                    } else if seen@.contains(c) {
                        let j = choose|j: int| 0 <= j < k && shot_key(#[trigger] shots[j]) == c;
                        assert(0 <= j < k + 1 && shot_key(shots[j]) == c);
                    }
                    if exists|j: int| 0 <= j < k + 1 && shot_key(#[trigger] shots[j]) == c {
                        let j = choose|j: int|
                            0 <= j < k + 1 && shot_key(#[trigger] shots[j]) == c;
                        if j < k {
                            assert(shot_key(shots[j]) == c);
                        }
                    }
                }
            }
            k += 1;
        }
        let mut i: usize = 0;
        while i < self.ships.len()
            invariant
                i <= self.ships.len(),
                self@.board_wf(),
                forall|j: int, a: int|
                    0 <= j < i && #[trigger] is_tile(self@.ships, j, a) ==> self@.ships[j].hits[a]
                        == was_shot(
                        self@.shots,
                        self@.ships[j].tiles[a].x,
                        self@.ships[j].tiles[a].y,
                    ),
            decreases self.ships.len() - i,
        {
            let ship = &self.ships[i];
            assert(self@.ships[i as int] == ship@);
            assert(self@.ships[i as int].wf());
            let mut a: usize = 0;
            while a < ship.tiles.len()
                invariant
                    a <= ship.tiles.len(),
                    ship.hits.len() == ship.tiles.len(),
                    i < self.ships.len(),
                    self@.ships[i as int] == ship@,
                    forall|b: int|
                        0 <= b < a ==> #[trigger] ship.hits[b] == was_shot(
                            self@.shots,
                            ship.tiles[b].x,
                            ship.tiles[b].y,
                        ),
                decreases ship.tiles.len() - a,
            {
                let tile = ship.tiles[a];
                let shot_at = match validate_not_already_shot(&self.shots, tile.x, tile.y) {
                    Ok(_) => false,
                    Err(_) => true,
                };
                if ship.hits[a] != shot_at {
                    assert(is_tile(self@.ships, i as int, a as int));
                    return false;
                }
                a += 1;
            }
            proof {
                assert forall|j: int, b: int|
                    0 <= j < i + 1 && #[trigger] is_tile(
                        self@.ships,
                        j,
                        b,
                    ) implies self@.ships[j].hits[b] == was_shot(
                    self@.shots,
                    self@.ships[j].tiles[b].x,
                    self@.ships[j].tiles[b].y,
                ) by {
                    if j == i {
                        assert(ship.hits[b] == was_shot(
                            self@.shots,
                            ship.tiles[b].x,
                            ship.tiles[b].y,
                        ));
                    }
                }
            }
            i += 1;
        }
        true
    }

    /// Whether the accounts satisfy their invariant, for a game whose board
    /// and history do.
    fn accounts_are_balanced(&self) -> (ok: bool)
        requires
            self@.board_wf(),
            self@.history_wf(),
        ensures
            ok == self@.accounts_wf(),
    {
        let ghost shots = self@.shots;
        let ghost fleet = self@.ships;
        let cost = creation_cost(&self.ships);
        if self.creation_cost != cost {
            return false;
        }
        proof {
            lemma_total_rewards_bound(fleet);
            lemma_costs_bounded(shots);
        }
        let mut sunk: u128 = 0;
        let mut i: usize = 0;
        while i < self.ships.len()
            invariant
                i <= self.ships.len(),
                fleet == self@.ships,
                sunk == sunk_rewards(fleet.take(i as int)),
                sunk <= 50 * i,
            decreases self.ships.len() - i,
        {
            proof {
                assert(fleet.take(i + 1).drop_last() =~= fleet.take(i as int));
                assert(fleet.take(i + 1).last() == self.ships[i as int]@);
            }
            if self.ships[i].is_sunk {
                sunk = sunk + self.ships[i].ship_type.reward();
            }
            i += 1;
        }
        assert(fleet.take(self.ships.len() as int) =~= fleet);
        let mut fees: u128 = 0;
        let mut paid: u128 = 0;
        let mut k: usize = 0;
        while k < self.shots.len()
            invariant
                k <= self.shots.len(),
                shots == self@.shots,
                shots.len() == self.shots.len(),
                forall|j: int| 0 <= j < shots.len() ==> (#[trigger] shots[j]).cost <= MAX_SHOT_COST,
                fees == fees_collected(shots.take(k as int)),
                fees <= MAX_SHOT_COST * k,
                paid == rewards_paid(shots.take(k as int)),
                paid <= 150,
                fleet == self@.ships,
                sunk == sunk_rewards(fleet),
                sunk <= 150,
            decreases self.shots.len() - k,
        {
            let shot = &self.shots[k];
            proof {
                assert(shots.take(k + 1).drop_last() =~= shots.take(k as int));
                assert(shots.take(k + 1).last() == shot@);
                assert(shots[k as int] == shot@);
            }
            let payout = shot.outcome.payout();
            if payout > 150 - paid {
                proof {
                    lemma_rewards_paid_prefix(shots, k + 1);
                }
                return false;
            }
            paid = paid + payout;
            fees = fees + shot.cost;
            k += 1;
        }
        assert(shots.take(self.shots.len() as int) =~= shots);
        paid == sunk && self.total_pot == cost + fees - paid
    }

    /// Whether the game satisfies its invariant.
    pub fn is_well_formed(&self) -> (ok: bool)
        ensures
            ok == self@.wf(),
    {
        if !self.board_is_well_formed() {
            return false;
        }
        if !self.history_is_well_formed() {
            return false;
        }
        if !self.accounts_are_balanced() {
            return false;
        }
        let completed = match self.status {
            GameStatus::Completed => true,
            _ => false,
        };
        let active = match self.status {
            GameStatus::Active => true,
            _ => false,
        };
        completed == is_fleet_sunk(&self.ships) && !(self.winnings_collected && active)
    }
}

impl Registry {
    /// Whether the registry satisfies its invariant.
    pub fn is_well_formed(&self) -> (ok: bool)
        ensures
            ok == self@.wf(),
    {
        let count: usize = self.games.len();
        if self.next_id != count as u128 + 1 {
            return false;
        }
        if self.last_active_id < 1 || self.last_active_id > self.next_id {
            return false;
        }
        let mut i: usize = 0;
        while i < count
            invariant
                i <= count,
                count == self.games.len(),
                self.next_id == count + 1,
                1 <= self.last_active_id <= self.next_id,
                forall|j: int|
                    0 <= j < i ==> (#[trigger] self@.games[j]).id == j + 1 && self@.games[j].wf(),
                forall|j: int|
                    0 <= j < i && j < self.last_active_id - 1 ==> (#[trigger] self@.games[j]).status
                        != GameStatus::Active,
            decreases count - i,
        {
            let game = &self.games[i];
            assert(self@.games[i as int] == game@);
            if game.id != i as u128 + 1 {
                return false;
            }
            if !game.is_well_formed() {
                return false;
            }
            let active = match game.status {
                GameStatus::Active => true,
                _ => false,
            };
            if active && (i as u128) + 1 < self.last_active_id {
                return false;
            }
            i += 1;
        }
        true
    }
}

} // verus!
