use battleship::bank::Coin;
use battleship::error::ContractError;
use battleship::msg::ShipConstructor;
use battleship::state::Game;
use battleship::state::GameStatus;
use battleship::state::Pos;
use battleship::state::ShipType;
use battleship::state::ShotReceipt;
use battleship::state::ShotResult;
use battleship::utilities::is_game_active;

const SECOND: u64 = 1_000_000_000;
const DAY: u64 = 86_400 * SECOND;

fn place(x: u8, y: u8, ship_type: ShipType, is_horizontal: bool) -> ShipConstructor {
    ShipConstructor { position: Pos { x, y }, ship_type, is_horizontal }
}

fn uscrt(amount: u128) -> Vec<Coin> {
    vec![Coin { denom: String::from("uscrt"), amount }]
}

fn standard_fleet() -> Vec<ShipConstructor> {
    vec![
        place(0, 0, ShipType::Destroyer, true),
        place(2, 2, ShipType::Cruiser, true),
        place(5, 5, ShipType::Battleship, true),
    ]
}

fn create(placements: &Vec<ShipConstructor>, funds: &Vec<Coin>) -> Result<Game, ContractError> {
    Game::create(
        1,
        String::from("creator"),
        0,
        10,
        String::from("first"),
        placements,
        funds,
        1000 * SECOND,
    )
}

fn standard_game() -> Game {
    create(&standard_fleet(), &uscrt(85)).unwrap()
}

fn fire(game: &mut Game, x: u8, y: u8) -> Result<ShotReceipt, ContractError> {
    let cost = 1u128 << game.shots.len().min(10);
    game.fire_shot(x, y, String::from("shooter"), &uscrt(cost), 1001 * SECOND, true)
}

const FLEET_SQUARES: [(u8, u8); 9] =
    [(0, 0), (1, 0), (2, 2), (3, 2), (4, 2), (5, 5), (6, 5), (7, 5), (8, 5)];

#[test]
fn new_game_holds_what_it_was_created_with() {
    let game = Game::create(
        7,
        String::from("creator"),
        3,
        10,
        String::from("first"),
        &standard_fleet(),
        &uscrt(90),
        1000 * SECOND,
    )
    .unwrap();
    assert_eq!(game.id, 7);
    assert_eq!(game.owner, "creator");
    assert_eq!(game.name, "first");
    assert_eq!(game.size, 10);
    assert_eq!(game.entry_fee, 3);
    assert_eq!(game.created, 1000 * SECOND);
    assert_eq!(game.status, GameStatus::Active);
    assert_eq!(game.creation_cost, 85);
    assert_eq!(game.total_pot, 85);
    assert!(!game.winnings_collected);
    assert!(game.shots.is_empty());
    assert_eq!(game.ships.len(), 3);
    assert_eq!(game.ships[1].tiles, vec![Pos { x: 2, y: 2 }, Pos { x: 3, y: 2 }, Pos { x: 4, y: 2 }]);
    assert!(game.ships.iter().all(|ship| !ship.is_sunk && ship.hits.iter().all(|hit| !hit)));
}

#[test]
fn pot_is_the_sum_of_the_rewards_whatever_the_entry_fee() {
    assert_eq!(standard_game().total_pot, 10 + 25 + 50);
    let destroyers = vec![
        place(0, 0, ShipType::Destroyer, true),
        place(0, 1, ShipType::Destroyer, true),
        place(0, 2, ShipType::Destroyer, true),
    ];
    assert_eq!(create(&destroyers, &uscrt(30)).unwrap().total_pot, 30);
}

#[test]
fn creation_checks_come_in_order() {
    let mut two = standard_fleet();
    two.pop();
    two[0] = place(9, 9, ShipType::Destroyer, true);
    assert_eq!(create(&two, &vec![]), Err(ContractError::WrongShipCount));
    let off_grid_and_overlapping = vec![
        place(9, 0, ShipType::Destroyer, true),
        place(2, 2, ShipType::Cruiser, true),
        place(2, 2, ShipType::Cruiser, true),
    ];
    assert_eq!(create(&off_grid_and_overlapping, &vec![]), Err(ContractError::OutOfBounds));
    let overlapping = vec![
        place(0, 0, ShipType::Destroyer, true),
        place(2, 2, ShipType::Cruiser, true),
        place(4, 0, ShipType::Battleship, false),
    ];
    assert_eq!(create(&overlapping, &vec![]), Err(ContractError::OverlappingShips));
    assert_eq!(create(&standard_fleet(), &vec![]), Err(ContractError::InsufficientFunds));
    assert_eq!(create(&standard_fleet(), &uscrt(84)), Err(ContractError::InsufficientFunds));
    let other = vec![Coin { denom: String::from("uatom"), amount: 85 }];
    assert_eq!(create(&standard_fleet(), &other), Err(ContractError::WrongDenomination));
    assert!(create(&standard_fleet(), &uscrt(85)).is_ok());
}

#[test]
fn first_shot_costs_one_and_hits_the_destroyer() {
    let mut game = standard_game();
    let receipt = fire(&mut game, 0, 0).unwrap();
    assert_eq!(receipt, ShotReceipt { result: ShotResult::Hit, cost: 1, paid_out: 0 });
    assert_eq!(game.total_pot, 86);
    assert_eq!(game.shots.len(), 1);
    let shot = &game.shots[0];
    assert_eq!((shot.x, shot.y, shot.cost, shot.time), (0, 0, 1, 1001 * SECOND));
    assert_eq!(shot.shooter, "shooter");
    assert_eq!(shot.outcome, ShotResult::Hit);
    assert_eq!(game.ships[0].hits, vec![true, false]);
    assert_eq!(game.status, GameStatus::Active);
}

#[test]
fn second_shot_costs_two_and_misses_on_empty_water() {
    let mut game = standard_game();
    fire(&mut game, 0, 0).unwrap();
    let receipt = fire(&mut game, 9, 9).unwrap();
    assert_eq!(receipt, ShotReceipt { result: ShotResult::Miss, cost: 2, paid_out: 0 });
    assert_eq!(game.total_pot, 88);
    assert_eq!(game.shots[1].outcome, ShotResult::Miss);
}

#[test]
fn destroyer_sinks_with_its_second_square() {
    let mut game = standard_game();
    assert_eq!(fire(&mut game, 0, 0).unwrap().result, ShotResult::Hit);
    let receipt = fire(&mut game, 1, 0).unwrap();
    assert_eq!(
        receipt,
        ShotReceipt {
            result: ShotResult::Sunk { ship_type: ShipType::Destroyer, reward: 10 },
            cost: 2,
            paid_out: 10,
        }
    );
    assert_eq!(game.total_pot, 85 + 1 + 2 - 10);
    assert!(game.ships[0].is_sunk);
    assert_eq!(game.status, GameStatus::Active);
}

#[test]
fn second_shot_at_a_coordinate_is_a_duplicate_and_costs_nothing() {
    let mut game = standard_game();
    fire(&mut game, 0, 0).unwrap();
    let before = game.clone();
    assert_eq!(fire(&mut game, 0, 0), Err(ContractError::DuplicateShot));
    assert_eq!(game, before);
    // Even with no payment at all the duplicate is what is reported.
    assert_eq!(
        game.fire_shot(0, 0, String::from("other"), &vec![], 1002 * SECOND, true),
        Err(ContractError::DuplicateShot)
    );
    assert_eq!(game, before);
    fire(&mut game, 9, 9).unwrap();
    let before = game.clone();
    assert_eq!(fire(&mut game, 9, 9), Err(ContractError::DuplicateShot));
    assert_eq!(fire(&mut game, 0, 0), Err(ContractError::DuplicateShot));
    assert_eq!(game, before);
}

#[test]
fn sunk_ship_pays_once() {
    let mut game = standard_game();
    fire(&mut game, 0, 0).unwrap();
    fire(&mut game, 1, 0).unwrap();
    let before = game.clone();
    assert_eq!(fire(&mut game, 0, 0), Err(ContractError::DuplicateShot));
    assert_eq!(fire(&mut game, 1, 0), Err(ContractError::DuplicateShot));
    assert_eq!(game, before);
    assert_eq!(game.total_pot, 78);
    let paid: u128 = game.shots.iter().map(|shot| shot.outcome.payout()).sum();
    assert_eq!(paid, 10);
}

#[test]
fn fire_shot_checks_come_in_order() {
    let mut game = standard_game();
    let before = game.clone();
    let shoot = |game: &mut Game, x: u8, y: u8, who: &str, funds: &Vec<Coin>, now: u64| {
        game.fire_shot(x, y, String::from(who), funds, now, true)
    };
    // Expired, owner, off the grid, unpaid: expiry is reported.
    assert_eq!(
        shoot(&mut game, 10, 10, "creator", &vec![], 1000 * SECOND + DAY),
        Err(ContractError::NotActive)
    );
    // Owner, off the grid, unpaid: the owner is reported.
    assert_eq!(
        shoot(&mut game, 10, 10, "creator", &vec![], 1000 * SECOND),
        Err(ContractError::Unauthorized)
    );
    // Off the grid, unpaid: the coordinate is reported.
    assert_eq!(
        shoot(&mut game, 10, 0, "shooter", &vec![], 1000 * SECOND),
        Err(ContractError::InvalidCoordinates)
    );
    assert_eq!(
        shoot(&mut game, 0, 10, "shooter", &vec![], 1000 * SECOND),
        Err(ContractError::InvalidCoordinates)
    );
    // On the grid, unpaid.
    assert_eq!(
        shoot(&mut game, 0, 0, "shooter", &vec![], 1000 * SECOND),
        Err(ContractError::InsufficientFunds)
    );
    assert_eq!(
        shoot(&mut game, 0, 0, "shooter", &uscrt(0), 1000 * SECOND),
        Err(ContractError::InsufficientFunds)
    );
    assert_eq!(game, before);
    assert!(shoot(&mut game, 0, 0, "shooter", &uscrt(1), 1000 * SECOND).is_ok());
    assert_eq!(
        shoot(&mut game, 1, 0, "shooter", &uscrt(1), 1000 * SECOND),
        Err(ContractError::InsufficientFunds)
    );
}

#[test]
fn owner_may_fire_where_the_rules_allow_it() {
    let mut game = standard_game();
    let receipt = game
        .fire_shot(0, 0, String::from("creator"), &uscrt(1), 1000 * SECOND, false)
        .unwrap();
    assert_eq!(receipt.result, ShotResult::Hit);
}

#[test]
fn overpayment_is_accepted_and_the_price_is_what_is_booked() {
    let mut game = standard_game();
    let receipt = game
        .fire_shot(9, 9, String::from("shooter"), &uscrt(1000), 1000 * SECOND, true)
        .unwrap();
    assert_eq!(receipt.cost, 1);
    assert_eq!(game.total_pot, 86);
}

#[test]
fn price_of_a_shot_stops_growing_at_the_cap() {
    let mut game = standard_game();
    let mut costs = Vec::new();
    for y in 6..8u8 {
        for x in 0..10u8 {
            if costs.len() < 13 {
                costs.push(fire(&mut game, x, y).unwrap().cost);
            }
        }
    }
    assert_eq!(costs, vec![1, 2, 4, 8, 16, 32, 64, 128, 256, 512, 1024, 1024, 1024]);
    assert_eq!(game.total_pot, 85 + 1023 + 3 * 1024);
    assert_eq!(
        game.fire_shot(0, 9, String::from("shooter"), &uscrt(1023), 1001 * SECOND, true),
        Err(ContractError::InsufficientFunds)
    );
}

#[test]
fn game_is_completed_when_the_last_ship_sinks() {
    let mut game = standard_game();
    let mut results = Vec::new();
    for (x, y) in FLEET_SQUARES {
        assert_eq!(game.status, GameStatus::Active);
        results.push(fire(&mut game, x, y).unwrap().result);
    }
    assert_eq!(
        results,
        vec![
            ShotResult::Hit,
            ShotResult::Sunk { ship_type: ShipType::Destroyer, reward: 10 },
            ShotResult::Hit,
            ShotResult::Hit,
            ShotResult::Sunk { ship_type: ShipType::Cruiser, reward: 25 },
            ShotResult::Hit,
            ShotResult::Hit,
            ShotResult::Hit,
            ShotResult::Sunk { ship_type: ShipType::Battleship, reward: 50 },
        ]
    );
    assert_eq!(game.status, GameStatus::Completed);
    assert_eq!(game.total_pot, 85 + 511 - 85);
    assert!(!is_game_active(&game, 1001 * SECOND));
    assert_eq!(fire(&mut game, 9, 9), Err(ContractError::NotActive));
    assert_eq!(fire(&mut game, 0, 0), Err(ContractError::NotActive));
}

#[test]
fn creator_claims_the_rest_of_the_pot_of_a_completed_game() {
    let mut game = standard_game();
    for (x, y) in FLEET_SQUARES {
        fire(&mut game, x, y).unwrap();
    }
    let creator = String::from("creator");
    assert_eq!(game.claim_winnings(&creator, 1002 * SECOND), Ok(511));
    assert!(game.winnings_collected);
    assert_eq!(game.status, GameStatus::Completed);
    assert_eq!(game.total_pot, 511);
}

#[test]
fn claim_succeeds_once() {
    let mut game = standard_game();
    for (x, y) in FLEET_SQUARES {
        fire(&mut game, x, y).unwrap();
    }
    let creator = String::from("creator");
    assert!(game.claim_winnings(&creator, 1002 * SECOND).is_ok());
    let claimed = game.clone();
    assert_eq!(game.claim_winnings(&creator, 1002 * SECOND), Err(ContractError::AlreadyClaimed));
    assert_eq!(game.claim_winnings(&creator, 1002 * SECOND + DAY), Err(ContractError::AlreadyClaimed));
    assert_eq!(game.claim_winnings(&creator, 0), Err(ContractError::AlreadyClaimed));
    assert_eq!(game, claimed);
}

#[test]
fn claim_checks_come_in_order() {
    let mut game = standard_game();
    let before = game.clone();
    let creator = String::from("creator");
    let shooter = String::from("shooter");
    assert_eq!(game.claim_winnings(&shooter, 1001 * SECOND), Err(ContractError::Unauthorized));
    assert_eq!(game.claim_winnings(&creator, 1001 * SECOND), Err(ContractError::GameStillActive));
    assert_eq!(game, before);
    assert_eq!(game.claim_winnings(&shooter, 1000 * SECOND + DAY), Err(ContractError::Unauthorized));
    assert_eq!(game.claim_winnings(&creator, 1000 * SECOND + DAY), Ok(85));
    assert_eq!(game.claim_winnings(&shooter, 1000 * SECOND + DAY), Err(ContractError::Unauthorized));
    assert_eq!(
        game.claim_winnings(&creator, 1000 * SECOND + DAY),
        Err(ContractError::AlreadyClaimed)
    );
}

#[test]
fn game_is_abandoned_once_its_day_is_over() {
    let mut game = standard_game();
    fire(&mut game, 0, 0).unwrap();
    // The window is counted in whole seconds from the second of creation.
    assert!(is_game_active(&game, 1000 * SECOND + DAY - 1));
    assert!(is_game_active(&game, 1000 * SECOND + DAY - SECOND + 999_999_999));
    assert!(!is_game_active(&game, 1000 * SECOND + DAY));
    assert!(!is_game_active(&game, u64::MAX));
    assert!(is_game_active(&game, 0));
    assert_eq!(
        game.fire_shot(1, 0, String::from("shooter"), &uscrt(2), 1000 * SECOND + DAY, true),
        Err(ContractError::NotActive)
    );
    assert_eq!(game.status, GameStatus::Active);
    let creator = String::from("creator");
    assert_eq!(game.claim_winnings(&creator, 1000 * SECOND + DAY), Ok(86));
    assert_eq!(game.status, GameStatus::Abandoned);
    assert!(game.winnings_collected);
    assert!(!is_game_active(&game, 1000 * SECOND));
}

#[test]
fn window_is_measured_in_seconds_not_in_nanoseconds() {
    let game = Game::create(
        1,
        String::from("creator"),
        0,
        10,
        String::from("first"),
        &standard_fleet(),
        &uscrt(85),
        999_999_999,
    )
    .unwrap();
    // Created within second 0: the window ends with second 86 399.
    assert!(is_game_active(&game, 86_400));
    assert!(is_game_active(&game, 86_399 * SECOND + 999_999_999));
    assert!(!is_game_active(&game, 86_400 * SECOND));
}

#[test]
fn settling_turns_an_expired_game_into_an_abandoned_one() {
    let mut game = standard_game();
    game.settle(1000 * SECOND + DAY - 1);
    assert_eq!(game.status, GameStatus::Active);
    game.settle(1000 * SECOND + DAY);
    assert_eq!(game.status, GameStatus::Abandoned);
    game.settle(1000 * SECOND);
    assert_eq!(game.status, GameStatus::Abandoned);
    assert_eq!(fire(&mut game, 0, 0), Err(ContractError::NotActive));
}

#[test]
fn peek_costs_twice_the_number_of_shots_and_changes_nothing() {
    let mut game = standard_game();
    fire(&mut game, 0, 0).unwrap();
    let before = game.clone();
    assert_eq!(game.peek(&uscrt(6), 3), Ok(6));
    assert_eq!(game.peek(&uscrt(100), 3), Ok(6));
    assert_eq!(game.peek(&uscrt(5), 3), Err(ContractError::InsufficientFunds));
    assert_eq!(game.peek(&vec![], 3), Err(ContractError::InsufficientFunds));
    assert_eq!(game.peek(&vec![], 0), Ok(0));
    assert_eq!(game, before);
}

#[test]
fn game_on_the_largest_grid_reaches_its_last_square() {
    let placements = vec![
        place(251, 254, ShipType::Battleship, true),
        place(0, 252, ShipType::Cruiser, false),
        place(253, 0, ShipType::Destroyer, true),
    ];
    let mut game = Game::create(
        1,
        String::from("creator"),
        0,
        255,
        String::from("large"),
        &placements,
        &uscrt(85),
        0,
    )
    .unwrap();
    assert_eq!(fire(&mut game, 254, 254).unwrap().result, ShotResult::Hit);
    assert_eq!(fire(&mut game, 0, 254).unwrap().result, ShotResult::Hit);
    assert_eq!(fire(&mut game, 254, 253).unwrap().result, ShotResult::Miss);
    assert_eq!(fire(&mut game, 255, 0), Err(ContractError::InvalidCoordinates));
    assert_eq!(fire(&mut game, 0, 255), Err(ContractError::InvalidCoordinates));
    assert!(game.is_well_formed());
    let off = vec![
        place(252, 254, ShipType::Battleship, true),
        place(0, 252, ShipType::Cruiser, false),
        place(253, 0, ShipType::Destroyer, true),
    ];
    assert_eq!(
        Game::create(1, String::new(), 0, 255, String::new(), &off, &uscrt(85), 0).err(),
        Some(ContractError::OutOfBounds)
    );
}

#[test]
fn game_is_active_before_the_time_of_its_creation() {
    let game = standard_game();
    assert!(is_game_active(&game, 0));
    assert!(is_game_active(&game, 999 * SECOND));
}

#[test]
fn shooter_and_time_are_recorded_with_each_shot() {
    let mut game = standard_game();
    game.fire_shot(4, 4, String::from("alice"), &uscrt(1), 1005 * SECOND + 17, true).unwrap();
    game.fire_shot(4, 5, String::from("bob"), &uscrt(2), 1003 * SECOND, true).unwrap();
    assert_eq!(game.shots[0].shooter, "alice");
    assert_eq!(game.shots[0].time, 1005 * SECOND + 17);
    assert_eq!(game.shots[1].shooter, "bob");
    assert_eq!(game.shots[1].time, 1003 * SECOND);
}
