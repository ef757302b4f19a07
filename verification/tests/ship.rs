use battleship::msg::ShipConstructor;
use battleship::ship::generate_real_ships;
use battleship::state::HitOutcome;
use battleship::state::Pos;
use battleship::state::Ship;
use battleship::state::ShipType;
use battleship::state::Shot;
use battleship::state::ShotResult;
use battleship::utilities::check_shot;
use battleship::utilities::is_fleet_sunk;

fn place(x: u8, y: u8, ship_type: ShipType, is_horizontal: bool) -> ShipConstructor {
    ShipConstructor { position: Pos { x, y }, ship_type, is_horizontal }
}

fn shot_at(x: u8, y: u8) -> Shot {
    Shot { x, y, shooter: String::from("shooter"), outcome: ShotResult::Miss, cost: 1, time: 7 }
}

#[test]
fn horizontal_ship_runs_along_x() {
    let ship = Ship::place(place(2, 3, ShipType::Cruiser, true));
    assert_eq!(ship.tiles, vec![Pos { x: 2, y: 3 }, Pos { x: 3, y: 3 }, Pos { x: 4, y: 3 }]);
    assert_eq!(ship.hits, vec![false, false, false]);
    assert!(!ship.is_sunk);
    assert_eq!(ship.ship_type, ShipType::Cruiser);
    assert_eq!((ship.x, ship.y, ship.is_horizontal), (2, 3, true));
}

#[test]
fn vertical_ship_runs_along_y() {
    let ship = Ship::place(place(2, 3, ShipType::Battleship, false));
    assert_eq!(
        ship.tiles,
        vec![Pos { x: 2, y: 3 }, Pos { x: 2, y: 4 }, Pos { x: 2, y: 5 }, Pos { x: 2, y: 6 }]
    );
    assert_eq!(ship.hits, vec![false; 4]);
}

#[test]
fn ship_may_end_on_the_highest_coordinate() {
    let ship = Ship::place(place(254, 0, ShipType::Destroyer, true));
    assert_eq!(ship.tiles, vec![Pos { x: 254, y: 0 }, Pos { x: 255, y: 0 }]);
    let ship = Ship::place(place(7, 252, ShipType::Battleship, false));
    assert_eq!(ship.tiles[3], Pos { x: 7, y: 255 });
}

#[test]
fn fleet_is_built_ship_by_ship() {
    let fleet = generate_real_ships(&vec![
        place(0, 0, ShipType::Destroyer, true),
        place(2, 2, ShipType::Cruiser, false),
    ]);
    assert_eq!(fleet.len(), 2);
    assert_eq!(fleet[0], Ship::place(place(0, 0, ShipType::Destroyer, true)));
    assert_eq!(fleet[1], Ship::place(place(2, 2, ShipType::Cruiser, false)));
    assert_eq!(generate_real_ships(&vec![]), Vec::<Ship>::new());
}

#[test]
fn ship_occupies_its_own_squares_only() {
    let ship = Ship::place(place(2, 3, ShipType::Cruiser, true));
    assert!(ship.occupies(2, 3));
    assert!(ship.occupies(3, 3));
    assert!(ship.occupies(4, 3));
    assert!(!ship.occupies(1, 3));
    assert!(!ship.occupies(5, 3));
    assert!(!ship.occupies(3, 2));
    assert!(!ship.occupies(3, 4));
    assert!(!ship.occupies(3, 2));
}

#[test]
fn destroyer_is_hit_then_sunk_then_unmoved() {
    let mut ship = Ship::place(place(0, 0, ShipType::Destroyer, true));
    assert_eq!(ship.apply_hit(0, 0), HitOutcome::Hit);
    assert_eq!(ship.hits, vec![true, false]);
    assert!(!ship.is_sunk);
    assert_eq!(ship.apply_hit(1, 0), HitOutcome::Sunk);
    assert_eq!(ship.hits, vec![true, true]);
    assert!(ship.is_sunk);
    let sunk = ship.clone();
    assert_eq!(ship.apply_hit(0, 0), HitOutcome::NoEffect);
    assert_eq!(ship.apply_hit(1, 0), HitOutcome::NoEffect);
    assert_eq!(ship.apply_hit(5, 5), HitOutcome::NoEffect);
    assert_eq!(ship, sunk);
}

#[test]
fn hit_in_any_order_sinks_with_the_last_square() {
    let mut ship = Ship::place(place(4, 4, ShipType::Cruiser, false));
    assert_eq!(ship.apply_hit(4, 6), HitOutcome::Hit);
    assert_eq!(ship.apply_hit(4, 4), HitOutcome::Hit);
    assert_eq!(ship.hits, vec![true, false, true]);
    assert_eq!(ship.apply_hit(4, 5), HitOutcome::Sunk);
    assert!(ship.is_sunk);
}

#[test]
fn hit_off_the_ship_has_no_effect() {
    let mut ship = Ship::place(place(0, 0, ShipType::Cruiser, true));
    let fresh = ship.clone();
    assert_eq!(ship.apply_hit(0, 1), HitOutcome::NoEffect);
    assert_eq!(ship.apply_hit(3, 0), HitOutcome::NoEffect);
    assert_eq!(ship, fresh);
}

#[test]
fn repeated_hit_on_a_ship_afloat_changes_nothing() {
    let mut ship = Ship::place(place(0, 0, ShipType::Cruiser, true));
    assert_eq!(ship.apply_hit(1, 0), HitOutcome::Hit);
    let once = ship.clone();
    assert_eq!(ship.apply_hit(1, 0), HitOutcome::Hit);
    assert_eq!(ship, once);
    assert_eq!(ship.apply_hit(0, 0), HitOutcome::Hit);
    assert_eq!(ship.apply_hit(0, 0), HitOutcome::Hit);
    assert!(!ship.is_sunk);
    assert_eq!(ship.apply_hit(2, 0), HitOutcome::Sunk);
    assert_eq!(ship.apply_hit(2, 0), HitOutcome::NoEffect);
}

#[test]
fn shot_is_resolved_against_the_first_ship_that_lies_there() {
    let mut fleet = generate_real_ships(&vec![
        place(0, 0, ShipType::Destroyer, true),
        place(2, 2, ShipType::Cruiser, true),
        place(5, 5, ShipType::Battleship, true),
    ]);
    let miss = check_shot(shot_at(9, 9), &mut fleet);
    assert_eq!(miss.outcome, ShotResult::Miss);
    assert_eq!((miss.x, miss.y, miss.cost, miss.time), (9, 9, 1, 7));
    assert_eq!(miss.shooter, "shooter");
    assert_eq!(check_shot(shot_at(3, 2), &mut fleet).outcome, ShotResult::Hit);
    assert_eq!(fleet[1].hits, vec![false, true, false]);
    assert_eq!(fleet[0].hits, vec![false, false]);
    assert_eq!(check_shot(shot_at(0, 0), &mut fleet).outcome, ShotResult::Hit);
    assert_eq!(
        check_shot(shot_at(1, 0), &mut fleet).outcome,
        ShotResult::Sunk { ship_type: ShipType::Destroyer, reward: 10 }
    );
    assert!(fleet[0].is_sunk);
    assert!(!is_fleet_sunk(&fleet));
}

#[test]
fn fleet_is_sunk_when_every_ship_is() {
    let mut fleet = generate_real_ships(&vec![
        place(0, 0, ShipType::Destroyer, true),
        place(0, 1, ShipType::Destroyer, true),
    ]);
    assert!(!is_fleet_sunk(&fleet));
    check_shot(shot_at(0, 0), &mut fleet);
    check_shot(shot_at(1, 0), &mut fleet);
    assert!(!is_fleet_sunk(&fleet));
    check_shot(shot_at(0, 1), &mut fleet);
    let last = check_shot(shot_at(1, 1), &mut fleet);
    assert_eq!(last.outcome, ShotResult::Sunk { ship_type: ShipType::Destroyer, reward: 10 });
    assert!(is_fleet_sunk(&fleet));
    assert!(is_fleet_sunk(&Vec::new()));
}

#[test]
fn shot_results_know_their_payout() {
    assert_eq!(ShotResult::Miss.payout(), 0);
    assert_eq!(ShotResult::Hit.payout(), 0);
    assert_eq!(ShotResult::Sunk { ship_type: ShipType::Cruiser, reward: 25 }.payout(), 25);
    assert!(!ShotResult::Miss.is_hit());
    assert!(ShotResult::Hit.is_hit());
    assert!(ShotResult::Sunk { ship_type: ShipType::Cruiser, reward: 25 }.is_hit());
}
