use battleship::msg::ShipConstructor;
use battleship::pricing::creation_cost;
use battleship::pricing::peek_cost;
use battleship::pricing::shot_cost;
use battleship::pricing::MAX_SHOT_COST;
use battleship::ship::generate_real_ships;
use battleship::state::Pos;
use battleship::state::ShipType;

fn at(x: u8, y: u8, ship_type: ShipType) -> ShipConstructor {
    ShipConstructor { position: Pos { x, y }, ship_type, is_horizontal: true }
}

#[test]
fn shot_cost_doubles_until_the_cap() {
    assert_eq!(shot_cost(0), 1);
    assert_eq!(shot_cost(1), 2);
    assert_eq!(shot_cost(2), 4);
    assert_eq!(shot_cost(3), 8);
    assert_eq!(shot_cost(9), 512);
    assert_eq!(shot_cost(10), 1024);
    assert_eq!(shot_cost(11), 1024);
    assert_eq!(shot_cost(usize::MAX), 1024);
}

#[test]
fn shot_cost_never_falls_and_stays_below_the_cap() {
    let mut previous = 0u128;
    for n in 0..40usize {
        let cost = shot_cost(n);
        assert!(cost >= previous);
        assert!(cost <= MAX_SHOT_COST);
        previous = cost;
    }
}

#[test]
fn peek_cost_is_twice_the_number_of_shots() {
    assert_eq!(peek_cost(0), 0);
    assert_eq!(peek_cost(1), 2);
    assert_eq!(peek_cost(7), 14);
    assert_eq!(peek_cost(u64::MAX), 2 * (u64::MAX as u128));
}

#[test]
fn creation_cost_is_the_sum_of_the_rewards() {
    let fleet = generate_real_ships(&vec![
        at(0, 0, ShipType::Destroyer),
        at(2, 2, ShipType::Cruiser),
        at(5, 5, ShipType::Battleship),
    ]);
    assert_eq!(creation_cost(&fleet), 85);
    assert_eq!(creation_cost(&generate_real_ships(&vec![])), 0);
    assert_eq!(creation_cost(&generate_real_ships(&vec![at(0, 0, ShipType::Battleship)])), 50);
}

#[test]
fn ship_kinds_have_fixed_lengths_and_rewards() {
    assert_eq!(ShipType::Destroyer.length(), 2);
    assert_eq!(ShipType::Cruiser.length(), 3);
    assert_eq!(ShipType::Battleship.length(), 4);
    assert_eq!(ShipType::Destroyer.reward(), 10);
    assert_eq!(ShipType::Cruiser.reward(), 25);
    assert_eq!(ShipType::Battleship.reward(), 50);
}
