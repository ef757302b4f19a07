//! The checks that a command must pass before it changes anything.

use std::collections::HashSet;
use vstd::prelude::*;
use vstd::string::StringExecFns;
use crate::bank::Coin;
use crate::bank::CoinView;
use crate::bank::funds_view;
use crate::bank::game_denom;
use crate::error::ContractError;
use crate::error::PlacementError;
use crate::error::ShotError;
use crate::msg::ShipConstructor;
use crate::state::FLEET_SIZE;
use crate::state::Game;
use crate::state::GameView;
use crate::state::Pos;
use crate::state::Ship;
use crate::state::ShipType;
use crate::state::ShipView;
use crate::state::Shot;
use crate::state::ShotView;
use crate::state::fleet_view;
use crate::state::history_view;

verus! {

broadcast use vstd::std_specs::hash::group_hash_axioms;

/// Whether a ship of kind `ship_type` anchored at `(start_x, start_y)` ends
/// inside a grid of side `grid_size`: its last coordinate along its axis,
/// `start + length - 1`, and its coordinate on the other axis are both below
/// `grid_size`.
pub open spec fn placement_in_grid(
    grid_size: u8,
    ship_type: ShipType,
    start_x: u8,
    start_y: u8,
    is_horizontal: bool,
) -> bool {
    let end_x = if is_horizontal {
        start_x + ship_type.spec_length() - 1
    } else {
        start_x as int
    };
    let end_y = if is_horizontal {
        start_y as int
    } else {
        start_y + ship_type.spec_length() - 1
    };
    end_x < grid_size && end_y < grid_size
}

/// Whether every placement of the list ends inside the grid.
pub open spec fn all_in_grid(grid_size: u8, ships: Seq<ShipConstructor>) -> bool {
    forall|i: int|
        0 <= i < ships.len() ==> placement_in_grid(
            grid_size,
            (#[trigger] ships[i]).ship_type,
            ships[i].position.x,
            ships[i].position.y,
            ships[i].is_horizontal,
        )
}

/// What [`validate_ships`] answers.
pub open spec fn spec_validate_ships(grid_size: u8, ships: Seq<ShipConstructor>) -> Result<
    (),
    PlacementError,
> {
    if ships.len() != FLEET_SIZE {
        Err(PlacementError::WrongShipCount)
    } else if !all_in_grid(grid_size, ships) {
        Err(PlacementError::OutOfBounds)
    } else {
        Ok(())
    }
}

/// Whether `b` is the index of a square of ship `j` of the fleet.
pub open spec fn is_tile(ships: Seq<ShipView>, j: int, b: int) -> bool {
    0 <= j < ships.len() && 0 <= b < ships[j].tiles.len()
}

/// Whether no square is listed twice in the fleet, be it by two ships or by
/// one.
pub open spec fn no_shared_tile(ships: Seq<ShipView>) -> bool {
    forall|i: int, a: int, j: int, b: int|
        #![trigger is_tile(ships, i, a), is_tile(ships, j, b)]
        is_tile(ships, i, a) && is_tile(ships, j, b) && (i != j || a != b) ==> ships[i].tiles[a]
            != ships[j].tiles[b]
}

/// Whether some shot of the history was fired at `(x, y)`.
pub open spec fn was_shot(shots: Seq<ShotView>, x: u8, y: u8) -> bool {
    exists|k: int| 0 <= k < shots.len() && (#[trigger] shots[k]).x == x && shots[k].y == y
}

/// What [`validate_funds`] answers.
pub open spec fn spec_validate_funds(funds: Seq<CoinView>, required: u128) -> Result<
    (),
    ContractError,
> {
    if funds.len() == 0 {
        if required > 0 {
            Err(ContractError::InsufficientFunds)
        } else {
            Ok(())
        }
    } else if funds[0].denom != game_denom() {
        Err(ContractError::WrongDenomination)
    } else if funds[0].amount < required {
        Err(ContractError::InsufficientFunds)
    } else {
        Ok(())
    }
}

/// What [`validate_shot`] answers.
pub open spec fn spec_validate_shot(
    x: u8,
    y: u8,
    game: GameView,
    sender: Seq<char>,
    forbid_owner_shots: bool,
) -> Result<(), ContractError> {
    if forbid_owner_shots && game.owner == sender {
        Err(ContractError::Unauthorized)
    } else if !(x < game.size && y < game.size) {
        Err(ContractError::InvalidCoordinates)
    } else if was_shot(game.shots, x, y) {
        Err(ContractError::DuplicateShot)
    } else {
        Ok(())
    }
}

/// Accepts a placement whose ship ends inside the grid, and rejects any other
/// as out of bounds.
pub fn validate_placement(
    grid_size: u8,
    ship_type: ShipType,
    start_x: u8,
    start_y: u8,
    is_horizontal: bool,
) -> (res: Result<(), PlacementError>)
    ensures
        res == if placement_in_grid(grid_size, ship_type, start_x, start_y, is_horizontal) {
            Ok::<(), PlacementError>(())
        } else {
            Err::<(), PlacementError>(PlacementError::OutOfBounds)
        },
{
    let length: u16 = ship_type.length() as u16;
    let size: u16 = grid_size as u16;
    let inside = if is_horizontal {
        start_x as u16 + length - 1 < size && start_y < grid_size
    } else {
        start_y as u16 + length - 1 < size && start_x < grid_size
    };
    if inside {
        Ok(())
    } else {
        Err(PlacementError::OutOfBounds)
    }
}

/// Accepts a list of exactly three placements that all end inside the grid.
/// A list of another length is rejected for its count, whatever it holds;
/// otherwise one placement out of the grid has the list rejected as out of
/// bounds.
pub fn validate_ships(size: u8, ships: &Vec<ShipConstructor>) -> (res: Result<
    (),
    PlacementError,
>)
    ensures
        res == spec_validate_ships(size, ships@),
{
    if ships.len() != FLEET_SIZE {
        return Err(PlacementError::WrongShipCount);
    }
    let mut i: usize = 0;
    while i < ships.len()
        invariant
            i <= ships.len(),
            ships.len() == FLEET_SIZE,
            all_in_grid(size, ships@.take(i as int)),
        decreases ships.len() - i,
    {
        let c = ships[i];
        match validate_placement(size, c.ship_type, c.position.x, c.position.y, c.is_horizontal) {
            Ok(_) => {},
            Err(_) => {
                assert(ships@[i as int] == c);
                return Err(PlacementError::OutOfBounds);
            },
        }
        assert forall|k: int| 0 <= k < i + 1 implies placement_in_grid(
            size,
            (#[trigger] ships@.take(i + 1)[k]).ship_type,
            ships@.take(i + 1)[k].position.x,
            ships@.take(i + 1)[k].position.y,
            ships@.take(i + 1)[k].is_horizontal,
        ) by {
            if k < i {
                assert(ships@.take(i + 1)[k] == ships@.take(i as int)[k]);
            }
        }
        i += 1;
    }
    assert(ships@.take(ships.len() as int) =~= ships@);
    Ok(())
}

/// The number that stands for a square in the set of occupied squares.
pub open spec fn tile_code(p: Pos) -> u16 {
    (p.x * 256 + p.y) as u16
}

/// Whether square `b` of ship `j` is read before square `a` of ship `i` when
/// the fleet is read ship by ship.
pub open spec fn read_before(ships: Seq<ShipView>, j: int, b: int, i: int, a: int) -> bool {
    is_tile(ships, j, b) && (j < i || (j == i && b < a))
}

/// Whether a square with the code `code` is read before square `a` of ship
/// `i`.
pub open spec fn code_read_before(ships: Seq<ShipView>, i: int, a: int, code: u16) -> bool {
    exists|j: int, b: int| #[trigger]
        read_before(ships, j, b, i, a) && tile_code(ships[j].tiles[b]) == code
}

/// Whether the squares read before square `a` of ship `i` are pairwise
/// different.
pub open spec fn distinct_before(ships: Seq<ShipView>, i: int, a: int) -> bool {
    forall|j: int, b: int, k: int, c: int|
        #![trigger read_before(ships, j, b, i, a), read_before(ships, k, c, i, a)]
        read_before(ships, j, b, i, a) && read_before(ships, k, c, i, a) && (j != k || b != c)
            ==> ships[j].tiles[b] != ships[k].tiles[c]
}

/// Accepts a fleet in which no square is listed twice, and rejects any other
/// as overlapping. The squares are entered one by one into a set of occupied
/// squares; the first that is already there ends the check.
pub fn validate_ships_not_overlapping(ships: &Vec<Ship>) -> (res: Result<(), PlacementError>)
    ensures
        res == if no_shared_tile(fleet_view(ships@)) {
            Ok::<(), PlacementError>(())
        } else {
            Err::<(), PlacementError>(PlacementError::OverlappingShips)
        },
{
    let ghost fleet = fleet_view(ships@);
    let mut seen: HashSet<u16> = HashSet::new();
    let mut i: usize = 0;
    while i < ships.len()
        invariant
            i <= ships.len(),
            fleet == fleet_view(ships@),
            forall|code: u16| seen@.contains(code) <==> code_read_before(fleet, i as int, 0, code),
            distinct_before(fleet, i as int, 0),
        decreases ships.len() - i,
    {
        let ship = &ships[i];
        let mut a: usize = 0;
        while a < ship.tiles.len()
            invariant
                i < ships.len(),
                ship == &ships[i as int],
                a <= ship.tiles.len(),
                fleet == fleet_view(ships@),
                forall|code: u16|
                    seen@.contains(code) <==> code_read_before(fleet, i as int, a as int, code),
                distinct_before(fleet, i as int, a as int),
            decreases ship.tiles.len() - a,
        {
            let tile = ship.tiles[a];
            let code: u16 = (tile.x as u16) * 256 + (tile.y as u16);
            assert(fleet[i as int].tiles[a as int] == tile);
            assert(code == tile_code(tile));
            assert(is_tile(fleet, i as int, a as int));
            let fresh = seen.insert(code);
            if !fresh {
                proof {
                    assert(code_read_before(fleet, i as int, a as int, code));
                    let (j, b) = choose|j: int, b: int| #[trigger]
                        read_before(fleet, j, b, i as int, a as int) && tile_code(
                            fleet[j].tiles[b],
                        ) == code;
                    assert(is_tile(fleet, j, b));
                    assert(fleet[j].tiles[b] == tile);
                    assert(!no_shared_tile(fleet));
                }
                return Err(PlacementError::OverlappingShips);
            }
            proof {
                assert forall|c: u16| seen@.contains(c) <==> code_read_before(
                    fleet,
                    i as int,
                    a + 1,
                    c,
                ) by {
                    if code_read_before(fleet, i as int, a + 1, c) {
                        let (j, b) = choose|j: int, b: int| #[trigger]
                            read_before(fleet, j, b, i as int, a + 1) && tile_code(
                                fleet[j].tiles[b],
                            ) == c;
                        if j == i && b == a {
                        } else {
                            assert(read_before(fleet, j, b, i as int, a as int));
                        }
                    }
                    if c == code {
                        assert(read_before(fleet, i as int, a as int, i as int, a + 1));
                    } else if seen@.contains(c) {
                        let (j, b) = choose|j: int, b: int| #[trigger]
                            read_before(fleet, j, b, i as int, a as int) && tile_code(
                                fleet[j].tiles[b],
                            ) == c;
                        assert(read_before(fleet, j, b, i as int, a + 1));
                    }
                }
                assert forall|j: int, b: int, k: int, c: int|
                    #![trigger
                        read_before(fleet, j, b, i as int, a + 1),
                        read_before(fleet, k, c, i as int, a + 1)]
                    read_before(fleet, j, b, i as int, a + 1) && read_before(
                        fleet,
                        k,
                        c,
                        i as int,
                        a + 1,
                    ) && (j != k || b != c) implies fleet[j].tiles[b] != fleet[k].tiles[c] by {
                    let first_new = j == i && b == a;
                    let second_new = k == i && c == a;
                    if !first_new {
                        assert(read_before(fleet, j, b, i as int, a as int));
                    }
                    if !second_new {
                        assert(read_before(fleet, k, c, i as int, a as int));
                    }
                    if first_new && !second_new {
                        assert(!code_read_before(fleet, i as int, a as int, code));
                    }
                    if second_new && !first_new {
                        assert(!code_read_before(fleet, i as int, a as int, code));
                    }
                }
            }
            a += 1;
        }
        proof {
            assert forall|c: u16| seen@.contains(c) <==> code_read_before(fleet, i + 1, 0, c) by {
                if code_read_before(fleet, i + 1, 0, c) {
                    let (j, b) = choose|j: int, b: int| #[trigger]
                        read_before(fleet, j, b, i + 1, 0) && tile_code(fleet[j].tiles[b]) == c;
                    assert(read_before(fleet, j, b, i as int, a as int));
                }
                if seen@.contains(c) {
                    let (j, b) = choose|j: int, b: int| #[trigger]
                        read_before(fleet, j, b, i as int, a as int) && tile_code(
                            fleet[j].tiles[b],
                        ) == c;
                    assert(read_before(fleet, j, b, i + 1, 0));
                }
            }
            assert forall|j: int, b: int, k: int, c: int|
                #![trigger read_before(fleet, j, b, i + 1, 0), read_before(fleet, k, c, i + 1, 0)]
                read_before(fleet, j, b, i + 1, 0) && read_before(fleet, k, c, i + 1, 0) && (j != k
                    || b != c) implies fleet[j].tiles[b] != fleet[k].tiles[c] by {
                assert(read_before(fleet, j, b, i as int, a as int));
                assert(read_before(fleet, k, c, i as int, a as int));
            }
        }
        i += 1;
    }
    proof {
        assert forall|i2: int, a2: int, j: int, b: int|
            #![trigger is_tile(fleet, i2, a2), is_tile(fleet, j, b)]
            is_tile(fleet, i2, a2) && is_tile(fleet, j, b) && (i2 != j || a2
                != b) implies fleet[i2].tiles[a2] != fleet[j].tiles[b] by {
            assert(read_before(fleet, i2, a2, i as int, 0));
            assert(read_before(fleet, j, b, i as int, 0));
        }
    }
    Ok(())
}

/// Accepts a payment that covers `required`. Nothing attached pays nothing;
/// otherwise the first coin counts: one of another denomination is rejected
/// whatever its amount, and one of the game's denomination is rejected when
/// its amount is below `required`.
pub fn validate_funds(funds: &Vec<Coin>, required: u128) -> (res: Result<(), ContractError>)
    ensures
        res == spec_validate_funds(funds_view(funds@), required),
{
    if funds.len() < 1 {
        if required > 0 {
            return Err(ContractError::InsufficientFunds);
        }
        return Ok(());
    }
    let denom = String::from_str("uscrt");
    if !(funds[0].denom == denom) {
        return Err(ContractError::WrongDenomination);
    }
    if funds[0].amount < required {
        return Err(ContractError::InsufficientFunds);
    }
    Ok(())
}

/// Accepts a coordinate of the grid, and rejects any other as out of bounds.
pub fn validate_shot_coordinate(grid_size: u8, x: u8, y: u8) -> (res: Result<(), ShotError>)
    ensures
        res == if x < grid_size && y < grid_size {
            Ok::<(), ShotError>(())
        } else {
            Err::<(), ShotError>(ShotError::OutOfBounds)
        },
{
    if x < grid_size && y < grid_size {
        Ok(())
    } else {
        Err(ShotError::OutOfBounds)
    }
}

/// Accepts a coordinate that no shot of the history was fired at, and rejects
/// any other as a duplicate.
pub fn validate_not_already_shot(shots: &Vec<Shot>, x: u8, y: u8) -> (res: Result<(), ShotError>)
    ensures
        res == if was_shot(history_view(shots@), x, y) {
            Err::<(), ShotError>(ShotError::DuplicateShot)
        } else {
            Ok::<(), ShotError>(())
        },
{
    let ghost history = history_view(shots@);
    let mut i: usize = 0;
    while i < shots.len()
        invariant
            i <= shots.len(),
            history == history_view(shots@),
            forall|k: int| 0 <= k < i ==> !((#[trigger] history[k]).x == x && history[k].y == y),
        decreases shots.len() - i,
    {
        if shots[i].x == x && shots[i].y == y {
            assert(history[i as int].x == x && history[i as int].y == y);
            return Err(ShotError::DuplicateShot);
        }
        i += 1;
    }
    Ok(())
}

/// The checks on a shot that depend on the game alone, in this order: the
/// owner may not fire where the rules forbid it, the coordinate must lie on
/// the grid, and it must not have been fired at before.
pub fn validate_shot(x: u8, y: u8, game: &Game, sender: &String, forbid_owner_shots: bool) -> (res:
    Result<(), ContractError>)
    ensures
        res == spec_validate_shot(x, y, game@, sender@, forbid_owner_shots),
{
    if forbid_owner_shots && game.owner == *sender {
        return Err(ContractError::Unauthorized);
    }
    match validate_shot_coordinate(game.size, x, y) {
        Ok(_) => {},
        Err(e) => {
            return Err(ContractError::from_shot(e));
        },
    }
    match validate_not_already_shot(&game.shots, x, y) {
        Ok(_) => {},
        Err(e) => {
            return Err(ContractError::from_shot(e));
        },
    }
    Ok(())
}

} // verus!
