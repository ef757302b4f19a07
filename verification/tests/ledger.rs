use battleship::error::ContractError;
use battleship::error::ErrorKind;
use battleship::error::PlacementError;
use battleship::error::ShotError;
use battleship::ledger::record_game_created;
use battleship::ledger::record_shot;
use battleship::ledger::record_sunk;
use battleship::ledger::PlayerStats;

#[test]
fn new_player_has_done_nothing() {
    assert_eq!(
        PlayerStats::new(),
        PlayerStats { games_created: 0, shots_fired: 0, ships_sunk: 0, tokens_spent: 0, tokens_won: 0 }
    );
}

#[test]
fn each_record_moves_its_own_counters() {
    let mut stats = PlayerStats::new();
    record_game_created(&mut stats);
    assert_eq!(stats, PlayerStats { games_created: 1, ..PlayerStats::new() });
    record_shot(&mut stats, 4);
    assert_eq!(
        stats,
        PlayerStats { games_created: 1, shots_fired: 1, tokens_spent: 4, ..PlayerStats::new() }
    );
    record_sunk(&mut stats, 25);
    assert_eq!(
        stats,
        PlayerStats { games_created: 1, shots_fired: 1, ships_sunk: 1, tokens_spent: 4, tokens_won: 25 }
    );
    record_shot(&mut stats, 8);
    assert_eq!(stats.shots_fired, 2);
    assert_eq!(stats.tokens_spent, 12);
}

#[test]
fn counters_stay_at_the_top_instead_of_wrapping() {
    let mut stats = PlayerStats {
        games_created: u64::MAX,
        shots_fired: u64::MAX,
        ships_sunk: u64::MAX - 1,
        tokens_spent: u128::MAX - 3,
        tokens_won: u128::MAX,
    };
    record_game_created(&mut stats);
    record_shot(&mut stats, 10);
    record_sunk(&mut stats, 50);
    assert_eq!(
        stats,
        PlayerStats {
            games_created: u64::MAX,
            shots_fired: u64::MAX,
            ships_sunk: u64::MAX,
            tokens_spent: u128::MAX,
            tokens_won: u128::MAX,
        }
    );
}

#[test]
fn every_rejection_belongs_to_a_family() {
    assert_eq!(ContractError::Unauthorized.kind(), ErrorKind::Unauthorized);
    assert_eq!(ContractError::GameNotFound.kind(), ErrorKind::NotFound);
    assert_eq!(ContractError::ShotNotFound.kind(), ErrorKind::NotFound);
    assert_eq!(ContractError::InvalidCoordinates.kind(), ErrorKind::InvalidInput);
    assert_eq!(ContractError::DuplicateShot.kind(), ErrorKind::InvalidInput);
    assert_eq!(ContractError::OutOfBounds.kind(), ErrorKind::InvalidInput);
    assert_eq!(ContractError::OverlappingShips.kind(), ErrorKind::InvalidInput);
    assert_eq!(ContractError::WrongShipCount.kind(), ErrorKind::InvalidInput);
    assert_eq!(ContractError::WrongDenomination.kind(), ErrorKind::InvalidInput);
    assert_eq!(ContractError::InsufficientFunds.kind(), ErrorKind::InsufficientFunds);
    assert_eq!(ContractError::NotActive.kind(), ErrorKind::InvalidState);
    assert_eq!(ContractError::GameStillActive.kind(), ErrorKind::InvalidState);
    assert_eq!(ContractError::AlreadyClaimed.kind(), ErrorKind::InvalidState);
}

#[test]
fn every_rejection_has_its_text() {
    assert_eq!(ContractError::Unauthorized.message(), "Unauthorized");
    assert_eq!(ContractError::GameNotFound.message(), "Game not found");
    assert_eq!(ContractError::ShotNotFound.message(), "Shot not found");
    assert_eq!(ContractError::InvalidCoordinates.message(), "Invalid coordinates");
    assert_eq!(ContractError::DuplicateShot.message(), "Shot already taken at this location");
    assert_eq!(ContractError::OutOfBounds.message(), "Ship out of bounds");
    assert_eq!(ContractError::OverlappingShips.message(), "Ships overlap");
    assert_eq!(ContractError::WrongShipCount.message(), "Wrong number of ships");
    assert_eq!(ContractError::WrongDenomination.message(), "Wrong denomination");
    assert_eq!(ContractError::InsufficientFunds.message(), "Insufficient funds");
    assert_eq!(ContractError::NotActive.message(), "Game is finished");
    assert_eq!(ContractError::GameStillActive.message(), "Game is still active");
    assert_eq!(ContractError::AlreadyClaimed.message(), "Winnings already collected");
}

#[test]
fn placement_and_shot_errors_become_rejections() {
    assert_eq!(ContractError::from_placement(PlacementError::OutOfBounds), ContractError::OutOfBounds);
    assert_eq!(
        ContractError::from_placement(PlacementError::OverlappingShips),
        ContractError::OverlappingShips
    );
    assert_eq!(
        ContractError::from_placement(PlacementError::WrongShipCount),
        ContractError::WrongShipCount
    );
    assert_eq!(ContractError::from_shot(ShotError::OutOfBounds), ContractError::InvalidCoordinates);
    assert_eq!(ContractError::from_shot(ShotError::DuplicateShot), ContractError::DuplicateShot);
}

#[test]
fn unknown_player_starts_from_nothing() {
    assert_eq!(PlayerStats::or_new(None), PlayerStats::new());
    let known = PlayerStats { games_created: 2, shots_fired: 3, ships_sunk: 1, tokens_spent: 7, tokens_won: 10 };
    assert_eq!(PlayerStats::or_new(Some(known)), known);
}
