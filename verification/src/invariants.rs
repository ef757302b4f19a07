//! Proofs that the operations on a game keep its invariant.

use vstd::prelude::*;
use vstd::set_lib::lemma_int_range;
use vstd::set_lib::lemma_len_subset;
use vstd::set_lib::set_int_range;
use crate::game::fleet_sunk;
use crate::game::has_target;
use crate::game::is_target;
use crate::game::new_game;
use crate::game::shot_result;
use crate::game::target_of;
use crate::msg::ShipConstructor;
use crate::pricing::MAX_SHOT_COST;
use crate::pricing::fees_collected;
use crate::pricing::lemma_shot_cost_monotonic;
use crate::pricing::lemma_total_rewards_bound;
use crate::pricing::rewards_paid;
use crate::pricing::spec_shot_cost;
use crate::pricing::sunk_rewards;
use crate::pricing::total_rewards;
use crate::ship::lemma_placed_ship_wf;
use crate::ship::lemma_tile_index_unique;
use crate::ship::placed_fleet;
use crate::ship::placed_ship;
use crate::ship::placement_fits;
use crate::state::FLEET_SIZE;
use crate::state::GameStatus;
use crate::state::GameView;
use crate::state::HitOutcome;
use crate::state::Pos;
use crate::state::ShipView;
use crate::state::ShotView;
use crate::validation::all_in_grid;
use crate::validation::is_tile;
use crate::validation::no_shared_tile;
use crate::validation::placement_in_grid;
use crate::validation::was_shot;

verus! {

/// A hit keeps a ship well formed and in place, sets at most the flag of the
/// square fired at, and never raises a ship that is sunk.
pub proof fn lemma_after_hit(ship: ShipView, x: u8, y: u8)
    requires
        ship.wf(),
    ensures
        ship.after_hit(x, y).wf(),
        ship.after_hit(x, y).tiles == ship.tiles,
        ship.after_hit(x, y).ship_type == ship.ship_type,
        ship.after_hit(x, y).hits.len() == ship.hits.len(),
        forall|a: int|
            0 <= a < ship.tiles.len() ==> #[trigger] ship.after_hit(x, y).hits[a] == (ship.hits[a]
                || ship.tiles[a] == Pos { x, y }),
        ship.is_sunk ==> ship.after_hit(x, y) == ship,
        ship.is_sunk ==> ship.after_hit(x, y).is_sunk,
        (ship.hit_outcome(x, y) == HitOutcome::Sunk) == (!ship.is_sunk && ship.after_hit(
            x,
            y,
        ).is_sunk),
{
    let after = ship.after_hit(x, y);
    if ship.occupies(x, y) {
        let i = ship.tile_index(x, y);
        assert(0 <= i < ship.tiles.len() && ship.tiles[i] == Pos { x, y });
        assert forall|a: int| 0 <= a < ship.tiles.len() implies #[trigger] after.hits[a] == (
        ship.hits[a] || ship.tiles[a] == Pos { x, y }) by {
            if ship.tiles[a] == (Pos { x, y }) {
                lemma_tile_index_unique(ship, a);
            }
        }
        if ship.is_sunk {
            assert(ship.hits.update(i, true) =~= ship.hits);
        }
    } else {
        assert forall|a: int| 0 <= a < ship.tiles.len() implies ship.tiles[a] != (Pos { x, y }) by {
            if ship.tiles[a] == (Pos { x, y }) {
                assert(ship.tiles.contains(Pos { x, y }));
            }
        }
    }
}

/// In a fleet of well-formed ships that share no square, at most one ship
/// occupies a coordinate, and the target of a shot is that ship.
pub proof fn lemma_target(ships: Seq<ShipView>, x: u8, y: u8)
    requires
        no_shared_tile(ships),
    ensures
        has_target(ships, x, y) ==> is_target(ships, target_of(ships, x, y), x, y),
        has_target(ships, x, y) ==> forall|j: int|
            0 <= j < ships.len() && j != target_of(ships, x, y) ==> !(#[trigger] ships[j]).occupies(
                x,
                y,
            ),
        !has_target(ships, x, y) ==> forall|j: int|
            0 <= j < ships.len() ==> !(#[trigger] ships[j]).occupies(x, y),
{
    if has_target(ships, x, y) {
        let t = target_of(ships, x, y);
        assert(is_target(ships, t, x, y));
        assert forall|j: int| 0 <= j < ships.len() && j != t implies !(
        #[trigger] ships[j]).occupies(x, y) by {
            if ships[j].occupies(x, y) {
                let a = ships[t].tiles.index_of(Pos { x, y });
                let b = ships[j].tiles.index_of(Pos { x, y });
                assert(is_tile(ships, t, a));
                assert(is_tile(ships, j, b));
            }
        }
    } else {
        lemma_no_target(ships, x, y, ships.len() as int);
    }
}

/// If no ship is the first to occupy a coordinate, none occupies it.
proof fn lemma_no_target(ships: Seq<ShipView>, x: u8, y: u8, n: int)
    requires
        !has_target(ships, x, y),
        0 <= n <= ships.len(),
    ensures
        forall|j: int| 0 <= j < n ==> !(#[trigger] ships[j]).occupies(x, y),
    decreases n,
{
    if n > 0 {
        lemma_no_target(ships, x, y, n - 1);
        if ships[n - 1].occupies(x, y) {
            assert(is_target(ships, n - 1, x, y));
        }
    }
}

/// Appending a shot adds its fee to the fees and its payout to the rewards
/// paid.
pub proof fn lemma_sums_push(shots: Seq<ShotView>, shot: ShotView)
    ensures
        fees_collected(shots.push(shot)) == fees_collected(shots) + shot.cost,
        rewards_paid(shots.push(shot)) == rewards_paid(shots) + shot.outcome.spec_payout(),
{
    assert(shots.push(shot).drop_last() =~= shots);
}

/// The fees of a history in which no shot cost more than the highest price
/// are at most that price per shot.
pub proof fn lemma_fees_bound(shots: Seq<ShotView>)
    requires
        forall|k: int| 0 <= k < shots.len() ==> (#[trigger] shots[k]).cost <= MAX_SHOT_COST,
    ensures
        fees_collected(shots) <= MAX_SHOT_COST * shots.len(),
    decreases shots.len(),
{
    if shots.len() > 0 {
        lemma_fees_bound(shots.drop_last());
    }
}

/// Replacing one ship by a ship of the same kind leaves the sum of all
/// rewards, and moves the sum of the sunk ships' rewards by that ship's
/// reward if it changes between afloat and sunk.
pub proof fn lemma_rewards_update(ships: Seq<ShipView>, t: int, ship: ShipView)
    requires
        0 <= t < ships.len(),
        ship.ship_type == ships[t].ship_type,
    ensures
        total_rewards(ships.update(t, ship)) == total_rewards(ships),
        sunk_rewards(ships.update(t, ship)) + (if ships[t].is_sunk {
            ship.ship_type.spec_reward()
        } else {
            0
        }) == sunk_rewards(ships) + (if ship.is_sunk {
            ship.ship_type.spec_reward()
        } else {
            0
        }),
    decreases ships.len(),
{
    let updated = ships.update(t, ship);
    if t == ships.len() - 1 {
        assert(updated.drop_last() =~= ships.drop_last());
    } else {
        assert(updated.drop_last() =~= ships.drop_last().update(t, ship));
        lemma_rewards_update(ships.drop_last(), t, ship);
    }
}

/// A fleet with no ship sunk has paid no reward.
pub proof fn lemma_afloat_fleet(ships: Seq<ShipView>)
    requires
        forall|i: int| 0 <= i < ships.len() ==> !(#[trigger] ships[i]).is_sunk,
    ensures
        sunk_rewards(ships) == 0,
    decreases ships.len(),
{
    if ships.len() > 0 {
        lemma_afloat_fleet(ships.drop_last());
    }
}

/// What was fired at before a shot was appended, and the coordinate of that
/// shot, is what was fired at afterwards.
pub proof fn lemma_was_shot_push(shots: Seq<ShotView>, shot: ShotView, x: u8, y: u8)
    ensures
        was_shot(shots.push(shot), x, y) == (was_shot(shots, x, y) || (shot.x == x && shot.y
            == y)),
{
    let pushed = shots.push(shot);
    if was_shot(shots, x, y) {
        let k = choose|k: int|
            0 <= k < shots.len() && (#[trigger] shots[k]).x == x && shots[k].y == y;
        assert(pushed[k].x == x && pushed[k].y == y);
    }
    if shot.x == x && shot.y == y {
        assert(pushed[shots.len() as int].x == x && pushed[shots.len() as int].y == y);
    }
    if was_shot(pushed, x, y) {
        let k = choose|k: int|
            0 <= k < pushed.len() && (#[trigger] pushed[k]).x == x && pushed[k].y == y;
        if k < shots.len() {
            assert(shots[k].x == x && shots[k].y == y);
        }
    }
}

/// The number that stands for the coordinate of a shot when shots are
/// counted.
pub open spec fn shot_code(shot: ShotView) -> int {
    shot.x * 256 + shot.y
}

/// A history in which no coordinate occurs twice has at most as many shots
/// as there are coordinates.
pub proof fn lemma_history_length(game: GameView)
    requires
        game.history_wf(),
    ensures
        game.shots.len() <= 65536,
{
    let codes = Seq::new(game.shots.len(), |k: int| shot_code(game.shots[k]));
    assert forall|k: int, l: int|
        0 <= k < codes.len() && 0 <= l < codes.len() && k != l implies codes[k] != codes[l] by {
        if k < l {
            assert(!(game.shots[k].x == game.shots[l].x && game.shots[k].y == game.shots[l].y));
        } else {
            assert(!(game.shots[l].x == game.shots[k].x && game.shots[l].y == game.shots[k].y));
        }
    }
    codes.unique_seq_to_set();
    lemma_int_range(0, 65536);
    assert forall|c: int| codes.to_set().contains(c) implies set_int_range(0, 65536).contains(
        c,
    ) by {
        let k = choose|k: int| 0 <= k < codes.len() && codes[k] == c;
        assert(codes[k] == shot_code(game.shots[k]));
    }
    lemma_len_subset(codes.to_set(), set_int_range(0, 65536));
}

/// In a well-formed history no shot cost more than the highest price.
pub proof fn lemma_costs_bounded(shots: Seq<ShotView>)
    requires
        forall|k: int|
            0 <= k < shots.len() ==> (#[trigger] shots[k]).cost == spec_shot_cost(k as nat),
    ensures
        forall|k: int| 0 <= k < shots.len() ==> (#[trigger] shots[k]).cost <= MAX_SHOT_COST,
{
    assert forall|k: int| 0 <= k < shots.len() implies (#[trigger] shots[k]).cost
        <= MAX_SHOT_COST by {
        lemma_shot_cost_monotonic(k as nat, k as nat);
    }
}

/// The pot of a well-formed game covers the rewards of the ships afloat, and
/// stays far below the largest amount that can be written down.
pub proof fn lemma_pot_bounds(game: GameView)
    requires
        game.wf(),
    ensures
        game.total_pot == fees_collected(game.shots) + total_rewards(game.ships) - sunk_rewards(
            game.ships,
        ),
        sunk_rewards(game.ships) <= total_rewards(game.ships) <= 150,
        fees_collected(game.shots) <= MAX_SHOT_COST * game.shots.len(),
        game.shots.len() <= 65536,
{
    lemma_history_length(game);
    lemma_total_rewards_bound(game.ships);
    assert forall|k: int| 0 <= k < game.shots.len() implies (#[trigger] game.shots[k]).cost
        <= MAX_SHOT_COST by {
        lemma_shot_cost_monotonic(k as nat, k as nat);
    }
    lemma_fees_bound(game.shots);
}

/// An accepted shot keeps the game's invariant: the fleet stays in place,
/// the history grows by one fresh coordinate, the flags follow the history,
/// and the books balance.
pub proof fn lemma_after_shot_wf(game: GameView, x: u8, y: u8, shooter: Seq<char>, now: u64)
    requires
        game.wf(),
        game.status == GameStatus::Active,
        x < game.size,
        y < game.size,
        !was_shot(game.shots, x, y),
    ensures
        game.after_shot(x, y, shooter, now).wf(),
        game.after_shot(x, y, shooter, now).total_pot == game.total_pot + game.next_shot_cost()
            - shot_result(game.ships, x, y).spec_payout(),
        game.total_pot + game.next_shot_cost() <= u128::MAX,
        shot_result(game.ships, x, y).spec_payout() <= game.total_pot,
        game.next_shot_cost() == spec_shot_cost(game.shots.len()),
{
    let ships = game.ships;
    let after = game.after_shot(x, y, shooter, now);
    let record = game.shot_record(x, y, shooter, now);
    let result = shot_result(ships, x, y);
    lemma_target(ships, x, y);
    lemma_pot_bounds(game);
    lemma_shot_cost_monotonic(game.shots.len(), game.shots.len());
    lemma_sums_push(game.shots, record);
    assert forall|i: int| 0 <= i < ships.len() implies (#[trigger] after.ships[i]).wf()
        && after.ships[i].in_grid(game.size) && after.ships[i].tiles == ships[i].tiles
        && after.ships[i].ship_type == ships[i].ship_type by {
        lemma_after_hit(ships[i], x, y);
    }
    assert(no_shared_tile(after.ships)) by {
        assert forall|i: int, a: int, j: int, b: int|
            #![trigger is_tile(after.ships, i, a), is_tile(after.ships, j, b)]
            is_tile(after.ships, i, a) && is_tile(after.ships, j, b) && (i != j || a
                != b) implies after.ships[i].tiles[a] != after.ships[j].tiles[b] by {
            assert(is_tile(ships, i, a));
            assert(is_tile(ships, j, b));
        }
    }
    if has_target(ships, x, y) {
        let t = target_of(ships, x, y);
        let ship = ships[t];
        lemma_after_hit(ship, x, y);
        lemma_rewards_update(ships, t, ship.after_hit(x, y));
        let a = ship.tile_index(x, y);
        assert(0 <= a < ship.tiles.len() && ship.tiles[a] == Pos { x, y });
        assert(is_tile(ships, t, a));
        assert(!ship.hits[a]);
        assert(!ship.is_sunk);
        lemma_total_rewards_bound(after.ships);
    }
    assert(after.accounts_wf());
    assert forall|i: int, a: int| #[trigger]
        is_tile(after.ships, i, a) implies after.ships[i].hits[a] == was_shot(
        after.shots,
        after.ships[i].tiles[a].x,
        after.ships[i].tiles[a].y,
    ) by {
        assert(is_tile(ships, i, a));
        let tile = ships[i].tiles[a];
        lemma_was_shot_push(game.shots, record, tile.x, tile.y);
        lemma_after_hit(ships[i], x, y);
        if tile == (Pos { x, y }) {
            assert(ships[i].tiles.contains(tile));
            assert(ships[i].occupies(x, y));
        }
    }
    assert forall|k: int, l: int| 0 <= k < l < after.shots.len() implies !((
    #[trigger] after.shots[k]).x == (#[trigger] after.shots[l]).x && after.shots[k].y
        == after.shots[l].y) by {
        if l == game.shots.len() {
            assert(game.shots[k] == after.shots[k]);
        } else {
            assert(game.shots[k] == after.shots[k]);
            assert(game.shots[l] == after.shots[l]);
        }
    }
    assert(after.history_wf());
    assert(!fleet_sunk(ships));
}

/// Settling a game keeps its invariant, and leaves no game marked active
/// that no longer accepts shots; so does an accepted claim.
pub proof fn lemma_settled_wf(game: GameView, now: u64)
    requires
        game.wf(),
    ensures
        game.settled(now).wf(),
        game.settled(now).status == GameStatus::Active <==> game.active_at(now),
        !game.active_at(now) ==> game.after_claim(now).wf(),
        !game.active_at(now) ==> game.after_claim(now).status != GameStatus::Active,
{
}

/// A placement that ends inside the grid fits, and the ship it describes is
/// well formed and lies on the grid.
pub proof fn lemma_placed_in_grid(size: u8, c: ShipConstructor)
    requires
        placement_in_grid(size, c.ship_type, c.position.x, c.position.y, c.is_horizontal),
    ensures
        placement_fits(c),
        placed_ship(c).wf(),
        placed_ship(c).in_grid(size),
        !placed_ship(c).is_sunk,
{
    lemma_placed_ship_wf(c);
}

/// A game made from three placements on the grid that share no square
/// satisfies the game's invariant.
pub proof fn lemma_new_game_wf(
    id: u128,
    creator: Seq<char>,
    entry_fee: u128,
    size: u8,
    name: Seq<char>,
    placements: Seq<ShipConstructor>,
    now: u64,
)
    requires
        placements.len() == FLEET_SIZE,
        all_in_grid(size, placements),
        no_shared_tile(placed_fleet(placements)),
    ensures
        new_game(id, creator, entry_fee, size, name, placements, now).wf(),
        total_rewards(placed_fleet(placements)) <= 150,
{
    let game = new_game(id, creator, entry_fee, size, name, placements, now);
    let ships = placed_fleet(placements);
    assert forall|i: int| 0 <= i < ships.len() implies (#[trigger] ships[i]).wf()
        && ships[i].in_grid(size) && !ships[i].is_sunk by {
        lemma_placed_in_grid(size, placements[i]);
    }
    lemma_afloat_fleet(ships);
    lemma_total_rewards_bound(ships);
    assert(!ships[0].is_sunk);
    assert forall|i: int, a: int| #[trigger] is_tile(ships, i, a) implies ships[i].hits[a]
        == was_shot(game.shots, ships[i].tiles[a].x, ships[i].tiles[a].y) by {
    }
}

} // verus!
