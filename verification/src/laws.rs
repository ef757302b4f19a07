//! What holds of the engine as a whole, proved from the definitions of its
//! steps.

use vstd::prelude::*;
use crate::bank::CoinView;
use crate::contract::lemma_with_game_at_wf;
use crate::contract::lemma_with_game_wf;
use crate::contract::rejected;
use crate::contract::spec_collect_winnings;
use crate::contract::spec_execute;
use crate::contract::spec_take_shot;
use crate::error::ContractError;
use crate::error::PlacementError;
use crate::game::create_check;
use crate::game::fleet_after_shot;
use crate::game::has_target;
use crate::game::new_game;
use crate::game::shot_result;
use crate::game::target_of;
use crate::invariants::lemma_after_hit;
use crate::invariants::lemma_after_shot_wf;
use crate::invariants::lemma_new_game_wf;
use crate::invariants::lemma_settled_wf;
use crate::invariants::lemma_target;
use crate::invariants::lemma_was_shot_push;
use crate::ledger::PlayerStats;
use crate::msg::ExecuteMsgView;
use crate::msg::ResponseView;
use crate::msg::ShipConstructor;
use crate::pricing::total_rewards;
use crate::registry::RegistryView;
use crate::ship::lemma_placed_ship_wf;
use crate::ship::lemma_tile_index_unique;
use crate::ship::placed_fleet;
use crate::ship::placed_ship;
use crate::ship::placement_fits;
use crate::state::FLEET_SIZE;
use crate::state::GameStatus;
use crate::state::GameView;
use crate::state::HitOutcome;
use crate::state::ShipType;
use crate::state::ShipView;
use crate::utilities::lemma_after_sweep_wf;
use crate::validation::is_tile;
use crate::validation::no_shared_tile;
use crate::validation::placement_in_grid;
use crate::validation::spec_validate_funds;
use crate::validation::spec_validate_ships;

verus! {

/// Coordinates of the square `k` steps from the anchor `(x, y)` along the
/// ship's axis, as unbounded integers.
pub open spec fn square(x: u8, y: u8, is_horizontal: bool, k: int) -> (int, int) {
    if is_horizontal {
        (x + k, y as int)
    } else {
        (x as int, y + k)
    }
}

/// Whether every square of the placement lies on a grid of side `grid_size`.
pub open spec fn squares_in_grid(grid_size: u8, c: ShipConstructor) -> bool {
    forall|k: int|
        0 <= k < c.ship_type.spec_length() ==> 0 <= (#[trigger] square(
            c.position.x,
            c.position.y,
            c.is_horizontal,
            k,
        )).0 < grid_size && 0 <= square(c.position.x, c.position.y, c.is_horizontal, k).1
            < grid_size
}

/// Whether two placements have a square in common.
pub open spec fn placements_overlap(a: ShipConstructor, b: ShipConstructor) -> bool {
    exists|k: int, l: int|
        0 <= k < a.ship_type.spec_length() && 0 <= l < b.ship_type.spec_length()
            && #[trigger] square(a.position.x, a.position.y, a.is_horizontal, k)
            == #[trigger] square(b.position.x, b.position.y, b.is_horizontal, l)
}

/// A placement is accepted exactly if every square of the ship lies on the
/// grid; a placement with a square off the grid is out of bounds.
pub proof fn law_placement_accepted_iff_on_grid(grid_size: u8, c: ShipConstructor)
    ensures
        placement_in_grid(grid_size, c.ship_type, c.position.x, c.position.y, c.is_horizontal)
            <==> squares_in_grid(grid_size, c),
{
    let len = c.ship_type.spec_length() as int;
    if squares_in_grid(grid_size, c) {
        let first = square(c.position.x, c.position.y, c.is_horizontal, 0);
        let last = square(c.position.x, c.position.y, c.is_horizontal, len - 1);
        assert(0 <= first.0 < grid_size && 0 <= first.1 < grid_size);
        assert(0 <= last.0 < grid_size && 0 <= last.1 < grid_size);
    }
}

/// Placements that fit and of which no two have a square in common make a
/// fleet that passes the check for overlaps, however many they are.
pub proof fn law_disjoint_fleet_does_not_overlap(placements: Seq<ShipConstructor>)
    requires
        forall|i: int| 0 <= i < placements.len() ==> placement_fits(#[trigger] placements[i]),
        forall|i: int, j: int|
            0 <= i < j < placements.len() ==> !placements_overlap(placements[i], placements[j]),
    ensures
        no_shared_tile(placed_fleet(placements)),
{
    let fleet = placed_fleet(placements);
    assert forall|i: int, a: int, j: int, b: int|
        #![trigger is_tile(fleet, i, a), is_tile(fleet, j, b)]
        is_tile(fleet, i, a) && is_tile(fleet, j, b) && (i != j || a != b) implies fleet[i].tiles[a]
        != fleet[j].tiles[b] by {
        let ci = placements[i];
        let cj = placements[j];
        assert(placement_fits(ci) && placement_fits(cj));
        let si = square(ci.position.x, ci.position.y, ci.is_horizontal, a);
        let sj = square(cj.position.x, cj.position.y, cj.is_horizontal, b);
        if fleet[i].tiles[a] == fleet[j].tiles[b] {
            assert(si == sj);
            if i < j {
                assert(placements_overlap(ci, cj));
            } else if j < i {
                assert(placements_overlap(cj, ci));
            }
        }
    }
}

/// Three placements whose squares all lie on the grid and of which no two
/// have a square in common pass both checks on the fleet: the check of
/// count and bounds, and the check for overlaps on the fleet built from
/// them. What is left to decide is the payment.
pub proof fn law_valid_fleet_is_accepted(
    grid_size: u8,
    placements: Seq<ShipConstructor>,
    funds: Seq<CoinView>,
)
    requires
        placements.len() == FLEET_SIZE,
        forall|i: int| 0 <= i < placements.len() ==> squares_in_grid(grid_size, placements[i]),
        forall|i: int, j: int|
            0 <= i < j < placements.len() ==> !placements_overlap(placements[i], placements[j]),
    ensures
        spec_validate_ships(grid_size, placements) == Ok::<(), PlacementError>(()),
        no_shared_tile(placed_fleet(placements)),
        create_check(grid_size, placements, funds) == spec_validate_funds(
            funds,
            total_rewards(placed_fleet(placements)) as u128,
        ),
{
    assert forall|i: int| 0 <= i < placements.len() implies placement_in_grid(
        grid_size,
        (#[trigger] placements[i]).ship_type,
        placements[i].position.x,
        placements[i].position.y,
        placements[i].is_horizontal,
    ) && placement_fits(placements[i]) by {
        law_placement_accepted_iff_on_grid(grid_size, placements[i]);
    }
    law_disjoint_fleet_does_not_overlap(placements);
}

/// A list of three placements of which one has a square off the grid is
/// rejected as out of bounds.
pub proof fn law_off_grid_fleet_is_rejected(
    grid_size: u8,
    placements: Seq<ShipConstructor>,
    funds: Seq<CoinView>,
    i: int,
)
    requires
        placements.len() == FLEET_SIZE,
        0 <= i < placements.len(),
        !squares_in_grid(grid_size, placements[i]),
    ensures
        spec_validate_ships(grid_size, placements) == Err::<(), PlacementError>(
            PlacementError::OutOfBounds,
        ),
        create_check(grid_size, placements, funds) == Err::<(), ContractError>(
            ContractError::OutOfBounds,
        ),
{
    law_placement_accepted_iff_on_grid(grid_size, placements[i]);
}

/// Once a coordinate was fired at, a second shot at it is a duplicate: if
/// the game still accepts shots and the shooter is allowed, the second
/// attempt is rejected as `DuplicateShot`, whoever fires, whatever is paid;
/// the registry and the shooter's statistics stay as they were, so nothing
/// is charged.
pub proof fn law_second_shot_is_duplicate(
    registry: RegistryView,
    stats: PlayerStats,
    now: u64,
    sender: Seq<char>,
    funds: Seq<CoinView>,
    game_id: u128,
    x: u8,
    y: u8,
    later_stats: PlayerStats,
    later: u64,
    later_sender: Seq<char>,
    later_funds: Seq<CoinView>,
)
    requires
        registry.wf(),
        spec_take_shot(registry, stats, now, sender, funds, game_id, x, y).result is Ok,
        spec_take_shot(
            registry,
            stats,
            now,
            sender,
            funds,
            game_id,
            x,
            y,
        ).registry.game(game_id).active_at(later),
        !(registry.forbid_owner_shots && registry.game(game_id).owner == later_sender),
    ensures
        ({
            let first = spec_take_shot(registry, stats, now, sender, funds, game_id, x, y);
            spec_take_shot(
                first.registry,
                later_stats,
                later,
                later_sender,
                later_funds,
                game_id,
                x,
                y,
            ) == rejected(first.registry, later_stats, ContractError::DuplicateShot)
        }),
{
    let game = registry.game(game_id);
    let record = game.shot_record(x, y, sender, now);
    lemma_was_shot_push(game.shots, record, x, y);
}

/// A ship sinks once. The hit that reports `Sunk` is the one that takes the
/// ship from afloat to sunk; a sunk ship stays sunk and is not changed by any
/// further hit, which reports `NoEffect`. Hitting a square a second time
/// changes nothing and never reports `Sunk`.
pub proof fn law_ship_sinks_once(ship: ShipView, x: u8, y: u8)
    requires
        ship.wf(),
    ensures
        (ship.hit_outcome(x, y) == HitOutcome::Sunk) <==> (!ship.is_sunk && ship.after_hit(
            x,
            y,
        ).is_sunk),
        ship.is_sunk ==> ship.after_hit(x, y) == ship && ship.hit_outcome(x, y)
            == HitOutcome::NoEffect,
        ship.after_hit(x, y).after_hit(x, y) == ship.after_hit(x, y),
        ship.after_hit(x, y).hit_outcome(x, y) != HitOutcome::Sunk,
{
    lemma_after_hit(ship, x, y);
    let after = ship.after_hit(x, y);
    lemma_after_hit(after, x, y);
    if ship.occupies(x, y) {
        let i = ship.tile_index(x, y);
        assert(0 <= i < ship.tiles.len());
        assert(after.hits[i]);
        assert(after.occupies(x, y));
        assert(after.tile_index(x, y) == i);
        assert(after.hits.update(i, true) =~= after.hits);
    }
}

/// A destroyer sinks with the second of its two squares: the hit on one
/// square reports `Hit`, the hit on the other reports `Sunk`, and every hit
/// after that reports `NoEffect` and leaves the ship as it is.
pub proof fn law_destroyer_sinks_on_second_hit(c: ShipConstructor, first: int, x: u8, y: u8)
    requires
        c.ship_type == ShipType::Destroyer,
        placement_fits(c),
        first == 0 || first == 1,
    ensures
        ({
            let ship = placed_ship(c);
            let a = ship.tiles[first];
            let b = ship.tiles[1 - first];
            let once = ship.after_hit(a.x, a.y);
            let twice = once.after_hit(b.x, b.y);
            &&& ship.hit_outcome(a.x, a.y) == HitOutcome::Hit
            &&& once.hit_outcome(b.x, b.y) == HitOutcome::Sunk
            &&& twice.is_sunk
            &&& twice.hit_outcome(x, y) == HitOutcome::NoEffect
            &&& twice.after_hit(x, y) == twice
        }),
{
    let ship = placed_ship(c);
    lemma_placed_ship_wf(c);
    let a = ship.tiles[first];
    let b = ship.tiles[1 - first];
    lemma_tile_index_unique(ship, first);
    lemma_tile_index_unique(ship, 1 - first);
    let once = ship.after_hit(a.x, a.y);
    lemma_after_hit(ship, a.x, a.y);
    assert(once.hits[first]);
    assert(!once.hits[1 - first]);
    lemma_tile_index_unique(once, 1 - first);
    let twice = once.after_hit(b.x, b.y);
    lemma_after_hit(once, b.x, b.y);
    assert(twice.hits[0] && twice.hits[1]);
    law_ship_sinks_once(twice, x, y);
}

/// In a game, a reward is paid by the shot that sinks a ship and by no
/// other: a shot earns a reward exactly if its target was afloat before it
/// and is sunk after it, and the reward is that of the target.
pub proof fn law_reward_is_paid_at_the_sinking(game: GameView, x: u8, y: u8)
    requires
        game.wf(),
    ensures
        ({
            let result = shot_result(game.ships, x, y);
            let t = target_of(game.ships, x, y);
            &&& result.spec_payout() > 0 <==> has_target(game.ships, x, y)
                && !game.ships[t].is_sunk && fleet_after_shot(
                game.ships,
                x,
                y,
            )[t].is_sunk
            &&& result.spec_payout() > 0 ==> result.spec_payout()
                == game.ships[t].ship_type.spec_reward()
        }),
{
    lemma_target(game.ships, x, y);
    if has_target(game.ships, x, y) {
        let t = target_of(game.ships, x, y);
        lemma_after_hit(game.ships[t], x, y);
    }
}

/// The pot is claimed once. After an accepted claim, a second claim by the
/// owner is rejected as `AlreadyClaimed` at any time, and changes nothing.
pub proof fn law_claim_succeeds_once(
    registry: RegistryView,
    now: u64,
    sender: Seq<char>,
    game_id: u128,
    later: u64,
)
    requires
        registry.wf(),
        spec_collect_winnings(registry, now, sender, game_id).1 is Ok,
    ensures
        ({
            let claimed = spec_collect_winnings(registry, now, sender, game_id).0;
            spec_collect_winnings(claimed, later, sender, game_id) == (
                claimed,
                Err::<ResponseView, ContractError>(ContractError::AlreadyClaimed),
            )
        }),
{
    let game = registry.game(game_id);
    assert(game.wf());
    lemma_settled_wf(game, now);
}

/// On a registry with room for one more game, every command keeps the
/// registry's invariant, never lowers the next identifier or the cursor,
/// never lowers a counter of the sender's statistics, and leaves everything
/// as it was when it is rejected. Every game that existed still exists under
/// its identifier, with what it was created with, its ships in place, its
/// history grown at most, and its status unchanged if that was final.
pub proof fn law_execute_keeps_invariant(
    registry: RegistryView,
    stats: PlayerStats,
    now: u64,
    sender: Seq<char>,
    funds: Seq<CoinView>,
    msg: ExecuteMsgView,
)
    requires
        registry.wf(),
        registry.games.len() < usize::MAX,
    ensures
        ({
            let after = spec_execute(registry, stats, now, sender, funds, msg);
            &&& after.registry.wf()
            &&& after.registry.next_id >= registry.next_id
            &&& after.registry.last_active_id >= registry.last_active_id
            &&& after.stats.no_less_than(stats)
            &&& forall|id: u128|
                registry.has_game(id) ==> after.registry.has_game(id) && (
                #[trigger] after.registry.game(id)).extends(registry.game(id))
            &&& after.result is Err ==> after.registry == registry && after.stats == stats
        }),
{
    let after = spec_execute(registry, stats, now, sender, funds, msg);
    match msg {
        ExecuteMsgView::CreateGame { entry_fee, size, ships, name } => {
            if create_check(size, ships, funds) is Ok {
                let game = new_game(registry.next_id, sender, entry_fee, size, name, ships, now);
                lemma_new_game_wf(registry.next_id, sender, entry_fee, size, name, ships, now);
                lemma_with_game_wf(registry, game);
                lemma_after_sweep_wf(registry.with_game(game), now);
            }
        },
        ExecuteMsgView::TakeShot { game_id, x, y } => {
            if registry.has_game(game_id) {
                let game = registry.game(game_id);
                assert(game.wf());
                let forbid = registry.forbid_owner_shots;
                if game.fire_shot_check(x, y, sender, funds, now, forbid) is Ok {
                    lemma_after_shot_wf(game, x, y, sender, now);
                    lemma_with_game_at_wf(registry, game_id, game.after_shot(x, y, sender, now));
                }
            }
        },
        ExecuteMsgView::PeekShots { game_id, num_shots } => {},
        ExecuteMsgView::CollectWinnings { game_id } => {
            if registry.has_game(game_id) {
                let game = registry.game(game_id);
                assert(game.wf());
                if game.claim_check(sender, now) is Ok {
                    lemma_settled_wf(game, now);
                    lemma_with_game_at_wf(registry, game_id, game.after_claim(now));
                }
            }
        },
    }
    assert forall|id: u128| registry.has_game(id) implies after.registry.has_game(id) && (
    #[trigger] after.registry.game(id)).extends(registry.game(id)) by {
        let earlier = registry.game(id);
        assert(earlier == registry.games[id - 1]);
        assert(earlier.wf());
        match msg {
            ExecuteMsgView::TakeShot { game_id, x, y } => {
                if game_id == id && after.result is Ok {
                    law_shot_extends_game(earlier, x, y, sender, now);
                }
            },
            _ => {},
        }
    }
}

/// An accepted shot leaves the game what it was created with, its ships in
/// place, and its history longer by the record of the shot.
pub proof fn law_shot_extends_game(game: GameView, x: u8, y: u8, shooter: Seq<char>, now: u64)
    requires
        game.wf(),
        game.status == GameStatus::Active,
    ensures
        game.after_shot(x, y, shooter, now).extends(game),
        game.after_shot(x, y, shooter, now).shots == game.shots.push(
            game.shot_record(x, y, shooter, now),
        ),
{
    let after = game.after_shot(x, y, shooter, now);
    assert forall|i: int| 0 <= i < after.ships.len() implies (#[trigger] after.ships[i]).tiles
        == game.ships[i].tiles && after.ships[i].ship_type == game.ships[i].ship_type by {
        lemma_after_hit(game.ships[i], x, y);
    }
}

/// A game that is completed or abandoned stays so: no shot is accepted, and
/// neither a claim nor a sweep changes its status.
pub proof fn law_final_states_are_final(
    game: GameView,
    x: u8,
    y: u8,
    shooter: Seq<char>,
    funds: Seq<CoinView>,
    now: u64,
    forbid_owner_shots: bool,
)
    requires
        game.status != GameStatus::Active,
    ensures
        game.fire_shot_check(x, y, shooter, funds, now, forbid_owner_shots) == Err::<
            (),
            ContractError,
        >(ContractError::NotActive),
        game.after_claim(now).status == game.status,
        game.settled(now).status == game.status,
{
}

} // verus!
