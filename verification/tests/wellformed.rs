use battleship::bank::Coin;
use battleship::contract::instantiate;
use battleship::contract::try_collect_winnings;
use battleship::contract::try_make_game;
use battleship::contract::try_take_shot;
use battleship::ledger::PlayerStats;
use battleship::msg::InstantiateMsg;
use battleship::msg::ShipConstructor;
use battleship::registry::Registry;
use battleship::state::Game;
use battleship::state::GameStatus;
use battleship::state::Pos;
use battleship::state::Ship;
use battleship::state::ShipType;
use battleship::state::Shot;
use battleship::state::ShotResult;

const SECOND: u64 = 1_000_000_000;
const DAY: u64 = 86_400 * SECOND;

fn place(x: u8, y: u8, ship_type: ShipType, is_horizontal: bool) -> ShipConstructor {
    ShipConstructor { position: Pos { x, y }, ship_type, is_horizontal }
}

fn uscrt(amount: u128) -> Vec<Coin> {
    vec![Coin { denom: String::from("uscrt"), amount }]
}

fn standard_fleet() -> Vec<ShipConstructor> {
    vec![
        place(0, 0, ShipType::Destroyer, true),
        place(2, 2, ShipType::Cruiser, true),
        place(5, 5, ShipType::Battleship, true),
    ]
}

fn standard_game() -> Game {
    Game::create(
        1,
        String::from("creator"),
        0,
        10,
        String::from("first"),
        &standard_fleet(),
        &uscrt(85),
        0,
    )
    .unwrap()
}

fn fire(game: &mut Game, x: u8, y: u8) {
    let cost = 1u128 << game.shots.len().min(10);
    game.fire_shot(x, y, String::from("shooter"), &uscrt(cost), SECOND, true).unwrap();
}

fn played_game() -> Game {
    let mut game = standard_game();
    fire(&mut game, 0, 0);
    fire(&mut game, 9, 9);
    fire(&mut game, 1, 0);
    fire(&mut game, 3, 2);
    game
}

fn played_registry() -> Registry {
    let mut registry = instantiate(InstantiateMsg { forbid_owner_shots: true });
    let mut stats = PlayerStats::new();
    for _ in 0..3 {
        try_make_game(
            &mut registry,
            &mut stats,
            0,
            String::from("creator"),
            uscrt(85),
            0,
            10,
            standard_fleet(),
            String::from("a game"),
        )
        .unwrap();
    }
    try_take_shot(&mut registry, &mut stats, SECOND, String::from("shooter"), uscrt(1), 2, 0, 0)
        .unwrap();
    registry
}

#[test]
fn placed_ships_are_well_formed() {
    for ship_type in [ShipType::Destroyer, ShipType::Cruiser, ShipType::Battleship] {
        for is_horizontal in [true, false] {
            let mut ship = Ship::place(place(3, 4, ship_type, is_horizontal));
            assert!(ship.is_well_formed());
            let needed = if is_horizontal {
                (3 + ship_type.length()).max(5)
            } else {
                (4 + ship_type.length()).max(4)
            };
            for size in 0..12u8 {
                assert_eq!(ship.is_in_grid(size), size >= needed);
            }
            ship.apply_hit(3, 4);
            assert!(ship.is_well_formed());
        }
    }
    assert!(Ship::place(place(252, 0, ShipType::Battleship, true)).is_well_formed());
}

#[test]
fn ship_on_the_edge_of_a_grid_is_in_it_by_one_square() {
    let ship = Ship::place(place(6, 2, ShipType::Battleship, true));
    assert!(ship.is_in_grid(10));
    assert!(!ship.is_in_grid(9));
    let ship = Ship::place(place(2, 6, ShipType::Battleship, false));
    assert!(ship.is_in_grid(10));
    assert!(!ship.is_in_grid(9));
}

#[test]
fn tampered_ships_are_not_well_formed() {
    let fresh = Ship::place(place(3, 4, ShipType::Cruiser, true));
    let mut ship = fresh.clone();
    ship.tiles[1] = Pos { x: 3, y: 5 };
    assert!(!ship.is_well_formed());
    let mut ship = fresh.clone();
    ship.tiles.pop();
    assert!(!ship.is_well_formed());
    let mut ship = fresh.clone();
    ship.hits.push(false);
    assert!(!ship.is_well_formed());
    let mut ship = fresh.clone();
    ship.is_sunk = true;
    assert!(!ship.is_well_formed());
    let mut ship = fresh.clone();
    ship.hits = vec![true, true, true];
    assert!(!ship.is_well_formed());
    ship.is_sunk = true;
    assert!(ship.is_well_formed());
    let mut ship = fresh.clone();
    ship.is_horizontal = false;
    assert!(!ship.is_well_formed());
    let mut ship = fresh.clone();
    ship.ship_type = ShipType::Battleship;
    assert!(!ship.is_well_formed());
    let mut ship = fresh;
    ship.x = 2;
    assert!(!ship.is_well_formed());
}

#[test]
fn games_stay_well_formed_through_their_life() {
    let mut game = standard_game();
    assert!(game.is_well_formed());
    for (x, y) in [(0, 0), (9, 9), (1, 0), (2, 2), (3, 2), (4, 2), (5, 5), (6, 5), (7, 5)] {
        fire(&mut game, x, y);
        assert!(game.is_well_formed());
        assert_eq!(game.status, GameStatus::Active);
    }
    fire(&mut game, 8, 5);
    assert_eq!(game.status, GameStatus::Completed);
    assert!(game.is_well_formed());
    game.claim_winnings(&String::from("creator"), 2 * SECOND).unwrap();
    assert!(game.is_well_formed());
    let mut expired = played_game();
    expired.settle(DAY);
    assert!(expired.is_well_formed());
    expired.claim_winnings(&String::from("creator"), DAY).unwrap();
    assert!(expired.is_well_formed());
}

#[test]
fn tampered_boards_are_not_well_formed() {
    let game = played_game();
    assert!(game.board_is_well_formed());
    let mut tampered = game.clone();
    tampered.ships.pop();
    assert!(!tampered.board_is_well_formed());
    let mut tampered = game.clone();
    tampered.size = 8;
    assert!(!tampered.board_is_well_formed());
    let mut tampered = game.clone();
    tampered.ships[1] = Ship::place(place(1, 0, ShipType::Cruiser, false));
    assert!(!tampered.board_is_well_formed());
    let mut tampered = game;
    tampered.ships[0].tiles[0] = Pos { x: 9, y: 9 };
    assert!(!tampered.is_well_formed());
}

#[test]
fn tampered_histories_are_not_well_formed() {
    let game = played_game();
    assert!(game.is_well_formed());
    let mut tampered = game.clone();
    tampered.shots[1].x = 10;
    assert!(!tampered.is_well_formed());
    let mut tampered = game.clone();
    tampered.shots[1].x = 0;
    tampered.shots[1].y = 0;
    assert!(!tampered.is_well_formed());
    let mut tampered = game.clone();
    tampered.shots[2].cost = 2;
    assert!(!tampered.is_well_formed());
    let mut tampered = game.clone();
    tampered.ships[2].hits[0] = true;
    assert!(!tampered.is_well_formed());
    let mut tampered = game.clone();
    tampered.ships[1].hits[1] = false;
    assert!(!tampered.is_well_formed());
    let mut tampered = game;
    tampered.shots.remove(3);
    assert!(!tampered.is_well_formed());
}

#[test]
fn tampered_accounts_are_not_well_formed() {
    let game = played_game();
    assert!(game.is_well_formed());
    assert_eq!(game.total_pot, 85 + 15 - 10);
    let mut tampered = game.clone();
    tampered.total_pot += 1;
    assert!(!tampered.is_well_formed());
    let mut tampered = game.clone();
    tampered.total_pot -= 1;
    assert!(!tampered.is_well_formed());
    let mut tampered = game.clone();
    tampered.creation_cost = 84;
    assert!(!tampered.is_well_formed());
    let mut tampered = game.clone();
    tampered.shots[0].outcome = ShotResult::Sunk { ship_type: ShipType::Destroyer, reward: 10 };
    assert!(!tampered.is_well_formed());
    let mut tampered = game.clone();
    tampered.shots[2].outcome = ShotResult::Hit;
    assert!(!tampered.is_well_formed());
    let mut tampered = game;
    tampered.shots[2].outcome =
        ShotResult::Sunk { ship_type: ShipType::Destroyer, reward: u128::MAX };
    assert!(!tampered.is_well_formed());
}

#[test]
fn tampered_status_is_not_well_formed() {
    let game = played_game();
    let mut tampered = game.clone();
    tampered.status = GameStatus::Completed;
    assert!(!tampered.is_well_formed());
    let mut tampered = game.clone();
    tampered.winnings_collected = true;
    assert!(!tampered.is_well_formed());
    let mut tampered = game;
    tampered.status = GameStatus::Abandoned;
    tampered.winnings_collected = true;
    assert!(tampered.is_well_formed());
}

#[test]
fn history_of_a_stranger_is_not_well_formed() {
    let mut game = standard_game();
    game.shots.push(Shot {
        x: 9,
        y: 9,
        shooter: String::from("shooter"),
        outcome: ShotResult::Miss,
        cost: 1,
        time: 0,
    });
    assert!(!game.is_well_formed());
    game.total_pot = 86;
    assert!(game.is_well_formed());
}

#[test]
fn registries_stay_well_formed_through_their_life() {
    let mut registry = instantiate(InstantiateMsg { forbid_owner_shots: false });
    assert!(registry.is_well_formed());
    registry = played_registry();
    assert!(registry.is_well_formed());
    let mut stats = PlayerStats::new();
    try_make_game(
        &mut registry,
        &mut stats,
        DAY,
        String::from("creator"),
        uscrt(85),
        0,
        10,
        standard_fleet(),
        String::from("late"),
    )
    .unwrap();
    assert_eq!(registry.last_active_id, 4);
    assert!(registry.is_well_formed());
    try_collect_winnings(&mut registry, DAY, String::from("creator"), 2).unwrap();
    assert!(registry.is_well_formed());
}

#[test]
fn tampered_registries_are_not_well_formed() {
    let registry = played_registry();
    let mut tampered = registry.clone();
    tampered.next_id = 5;
    assert!(!tampered.is_well_formed());
    let mut tampered = registry.clone();
    tampered.last_active_id = 0;
    assert!(!tampered.is_well_formed());
    let mut tampered = registry.clone();
    tampered.last_active_id = 5;
    assert!(!tampered.is_well_formed());
    let mut tampered = registry.clone();
    tampered.last_active_id = 2;
    assert!(!tampered.is_well_formed());
    let mut tampered = registry.clone();
    tampered.games.swap(0, 2);
    assert!(!tampered.is_well_formed());
    let mut tampered = registry.clone();
    tampered.games[1].total_pot += 1;
    assert!(!tampered.is_well_formed());
    let mut tampered = registry;
    tampered.games[0].status = GameStatus::Abandoned;
    tampered.last_active_id = 2;
    assert!(tampered.is_well_formed());
}
