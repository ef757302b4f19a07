//! Why a command was rejected.

use vstd::prelude::*;
use vstd::string::StringExecFns;

verus! {

/// Why a fleet cannot be placed.
#[derive(Clone, Copy, Debug, PartialEq, Eq, Structural)]
pub enum PlacementError {
    OutOfBounds,
    OverlappingShips,
    WrongShipCount,
}

/// Why a coordinate cannot be fired upon.
#[derive(Clone, Copy, Debug, PartialEq, Eq, Structural)]
pub enum ShotError {
    OutOfBounds,
    DuplicateShot,
}

/// The five families that every rejection belongs to.
#[derive(Clone, Copy, Debug, PartialEq, Eq, Structural)]
pub enum ErrorKind {
    NotFound,
    InvalidInput,
    Unauthorized,
    InsufficientFunds,
    InvalidState,
}

/// Why a command was rejected. A rejected command changes nothing.
#[derive(Clone, Copy, Debug, PartialEq, Eq, Structural)]
pub enum ContractError {
    Unauthorized,
    GameNotFound,
    ShotNotFound,
    InvalidCoordinates,
    DuplicateShot,
    OutOfBounds,
    OverlappingShips,
    WrongShipCount,
    WrongDenomination,
    InsufficientFunds,
    NotActive,
    GameStillActive,
    AlreadyClaimed,
}

impl ContractError {
    /// The rejection that a placement error becomes at the level of a command.
    pub open spec fn spec_from_placement(e: PlacementError) -> ContractError {
        match e {
            PlacementError::OutOfBounds => ContractError::OutOfBounds,
            PlacementError::OverlappingShips => ContractError::OverlappingShips,
            PlacementError::WrongShipCount => ContractError::WrongShipCount,
        }
    }

    pub fn from_placement(e: PlacementError) -> (err: ContractError)
        ensures
            err == Self::spec_from_placement(e),
    {
        match e {
            PlacementError::OutOfBounds => ContractError::OutOfBounds,
            PlacementError::OverlappingShips => ContractError::OverlappingShips,
            PlacementError::WrongShipCount => ContractError::WrongShipCount,
        }
    }

    /// The rejection that a shot error becomes at the level of a command.
    pub open spec fn spec_from_shot(e: ShotError) -> ContractError {
        match e {
            ShotError::OutOfBounds => ContractError::InvalidCoordinates,
            ShotError::DuplicateShot => ContractError::DuplicateShot,
        }
    }

    pub fn from_shot(e: ShotError) -> (err: ContractError)
        ensures
            err == Self::spec_from_shot(e),
    {
        match e {
            ShotError::OutOfBounds => ContractError::InvalidCoordinates,
            ShotError::DuplicateShot => ContractError::DuplicateShot,
        }
    }

    /// The family of this rejection.
    pub open spec fn spec_kind(self) -> ErrorKind {
        match self {
            ContractError::Unauthorized => ErrorKind::Unauthorized,
            ContractError::GameNotFound => ErrorKind::NotFound,
            ContractError::ShotNotFound => ErrorKind::NotFound,
            ContractError::InvalidCoordinates => ErrorKind::InvalidInput,
            ContractError::DuplicateShot => ErrorKind::InvalidInput,
            ContractError::OutOfBounds => ErrorKind::InvalidInput,
            ContractError::OverlappingShips => ErrorKind::InvalidInput,
            ContractError::WrongShipCount => ErrorKind::InvalidInput,
            ContractError::WrongDenomination => ErrorKind::InvalidInput,
            ContractError::InsufficientFunds => ErrorKind::InsufficientFunds,
            ContractError::NotActive => ErrorKind::InvalidState,
            ContractError::GameStillActive => ErrorKind::InvalidState,
            ContractError::AlreadyClaimed => ErrorKind::InvalidState,
        }
    }

    pub fn kind(self) -> (kind: ErrorKind)
        ensures
            kind == self.spec_kind(),
    {
        match self {
            ContractError::Unauthorized => ErrorKind::Unauthorized,
            ContractError::GameNotFound => ErrorKind::NotFound,
            ContractError::ShotNotFound => ErrorKind::NotFound,
            ContractError::InvalidCoordinates => ErrorKind::InvalidInput,
            ContractError::DuplicateShot => ErrorKind::InvalidInput,
            ContractError::OutOfBounds => ErrorKind::InvalidInput,
            ContractError::OverlappingShips => ErrorKind::InvalidInput,
            ContractError::WrongShipCount => ErrorKind::InvalidInput,
            ContractError::WrongDenomination => ErrorKind::InvalidInput,
            ContractError::InsufficientFunds => ErrorKind::InsufficientFunds,
            ContractError::NotActive => ErrorKind::InvalidState,
            ContractError::GameStillActive => ErrorKind::InvalidState,
            ContractError::AlreadyClaimed => ErrorKind::InvalidState,
        }
    }

    /// The text shown to the caller for this rejection.
    pub open spec fn spec_message(self) -> Seq<char> {
        match self {
            ContractError::Unauthorized => "Unauthorized"@,
            ContractError::GameNotFound => "Game not found"@,
            ContractError::ShotNotFound => "Shot not found"@,
            ContractError::InvalidCoordinates => "Invalid coordinates"@,
            ContractError::DuplicateShot => "Shot already taken at this location"@,
            ContractError::OutOfBounds => "Ship out of bounds"@,
            ContractError::OverlappingShips => "Ships overlap"@,
            ContractError::WrongShipCount => "Wrong number of ships"@,
            ContractError::WrongDenomination => "Wrong denomination"@,
            ContractError::InsufficientFunds => "Insufficient funds"@,
            ContractError::NotActive => "Game is finished"@,
            ContractError::GameStillActive => "Game is still active"@,
            ContractError::AlreadyClaimed => "Winnings already collected"@,
        }
    }

    pub fn message(self) -> (text: String)
        ensures
            text@ == self.spec_message(),
    {
        match self {
            ContractError::Unauthorized => String::from_str("Unauthorized"),
            ContractError::GameNotFound => String::from_str("Game not found"),
            ContractError::ShotNotFound => String::from_str("Shot not found"),
            ContractError::InvalidCoordinates => String::from_str("Invalid coordinates"),
            ContractError::DuplicateShot => String::from_str("Shot already taken at this location"),
            ContractError::OutOfBounds => String::from_str("Ship out of bounds"),
            ContractError::OverlappingShips => String::from_str("Ships overlap"),
            ContractError::WrongShipCount => String::from_str("Wrong number of ships"),
            ContractError::WrongDenomination => String::from_str("Wrong denomination"),
            ContractError::InsufficientFunds => String::from_str("Insufficient funds"),
            ContractError::NotActive => String::from_str("Game is finished"),
            ContractError::GameStillActive => String::from_str("Game is still active"),
            ContractError::AlreadyClaimed => String::from_str("Winnings already collected"),
        }
    }
}

} // verus!
