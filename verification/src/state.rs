//! The data a game is made of, and the mathematical view of each piece.

use vstd::prelude::*;

verus! {

/// Number of ships a game is created with.
pub const FLEET_SIZE: usize = 3;

/// A square of the grid.
#[derive(Clone, Copy, Debug, PartialEq, Eq, Structural)]
pub struct Pos {
    pub x: u8,
    pub y: u8,
}

/// The closed set of ship kinds.
#[derive(Clone, Copy, Debug, PartialEq, Eq, Structural)]
pub enum ShipType {
    Destroyer,
    Cruiser,
    Battleship,
}

impl ShipType {
    /// Number of squares a ship of this kind covers.
    pub open spec fn spec_length(self) -> nat {
        match self {
            ShipType::Destroyer => 2,
            ShipType::Cruiser => 3,
            ShipType::Battleship => 4,
        }
    }

    /// Amount paid to whoever sinks a ship of this kind.
    pub open spec fn spec_reward(self) -> nat {
        match self {
            ShipType::Destroyer => 10,
            ShipType::Cruiser => 25,
            ShipType::Battleship => 50,
        }
    }

    pub fn length(self) -> (n: u8)
        ensures
            n == self.spec_length(),
    {
        match self {
            ShipType::Destroyer => 2,
            ShipType::Cruiser => 3,
            ShipType::Battleship => 4,
        }
    }

    pub fn reward(self) -> (r: u128)
        ensures
            r == self.spec_reward(),
    {
        match self {
            ShipType::Destroyer => 10,
            ShipType::Cruiser => 25,
            ShipType::Battleship => 50,
        }
    }
}

/// What a hit attempt did to one ship.
#[derive(Clone, Copy, Debug, PartialEq, Eq, Structural)]
pub enum HitOutcome {
    NoEffect,
    Hit,
    Sunk,
}

/// What a shot did to the fleet.
#[derive(Clone, Copy, Debug, PartialEq, Eq, Structural)]
pub enum ShotResult {
    Miss,
    Hit,
    Sunk { ship_type: ShipType, reward: u128 },
}

impl ShotResult {
    /// Amount owed to the shooter for this result.
    pub open spec fn spec_payout(self) -> nat {
        match self {
            ShotResult::Sunk { reward, .. } => reward as nat,
            _ => 0,
        }
    }

    pub fn payout(self) -> (amount: u128)
        ensures
            amount == self.spec_payout(),
    {
        match self {
            ShotResult::Sunk { reward, .. } => reward,
            _ => 0,
        }
    }

    /// Whether the shot landed on a ship.
    pub open spec fn spec_is_hit(self) -> bool {
        self != ShotResult::Miss
    }

    pub fn is_hit(self) -> (hit: bool)
        ensures
            hit == self.spec_is_hit(),
    {
        match self {
            ShotResult::Miss => false,
            _ => true,
        }
    }
}

/// What the shooter learns of an accepted shot: what it did, what it cost,
/// and what it earned.
#[derive(Clone, Copy, Debug, PartialEq, Eq, Structural)]
pub struct ShotReceipt {
    pub result: ShotResult,
    pub cost: u128,
    pub paid_out: u128,
}

/// Lifecycle of a game. `Completed` and `Abandoned` are final.
#[derive(Clone, Copy, Debug, PartialEq, Eq, Structural)]
pub enum GameStatus {
    Active,
    Completed,
    Abandoned,
}

/// The square `k` steps from the anchor `(x, y)` along the ship's axis.
pub open spec fn run_tile(x: u8, y: u8, is_horizontal: bool, k: int) -> Pos {
    if is_horizontal {
        Pos { x: (x + k) as u8, y }
    } else {
        Pos { x, y: (y + k) as u8 }
    }
}

/// Whether every flag of `hits` is set.
pub open spec fn all_hit(hits: Seq<bool>) -> bool {
    forall|k: int| 0 <= k < hits.len() ==> hits[k]
}

/// A ship on the grid: where it lies and which of its squares were hit.
#[derive(Clone, Debug, PartialEq, Eq)]
pub struct Ship {
    pub ship_type: ShipType,
    /// Anchor of the ship: its square with the lowest coordinates.
    pub x: u8,
    pub y: u8,
    /// Whether the ship runs along x; otherwise it runs along y.
    pub is_horizontal: bool,
    /// The squares of the ship, from the anchor on.
    pub tiles: Vec<Pos>,
    /// For each square, in the order of `tiles`, whether it was hit.
    pub hits: Vec<bool>,
    /// Whether every square was hit.
    pub is_sunk: bool,
}

/// Mathematical view of a [`Ship`].
pub struct ShipView {
    pub ship_type: ShipType,
    pub x: u8,
    pub y: u8,
    pub is_horizontal: bool,
    pub tiles: Seq<Pos>,
    pub hits: Seq<bool>,
    pub is_sunk: bool,
}

impl View for Ship {
    type V = ShipView;

    open spec fn view(&self) -> ShipView {
        ShipView {
            ship_type: self.ship_type,
            x: self.x,
            y: self.y,
            is_horizontal: self.is_horizontal,
            tiles: self.tiles@,
            hits: self.hits@,
            is_sunk: self.is_sunk,
        }
    }
}

impl ShipView {
    /// The ship's invariant: its squares are the contiguous run of its
    /// length from the anchor along its axis, one hit flag belongs to each
    /// square, and `is_sunk` caches whether all flags are set.
    pub open spec fn wf(self) -> bool {
        &&& self.tiles.len() == self.ship_type.spec_length()
        &&& self.hits.len() == self.tiles.len()
        &&& self.is_horizontal ==> self.x + self.tiles.len() <= 256
        &&& !self.is_horizontal ==> self.y + self.tiles.len() <= 256
        &&& forall|k: int|
            0 <= k < self.tiles.len() ==> #[trigger] self.tiles[k] == run_tile(
                self.x,
                self.y,
                self.is_horizontal,
                k,
            )
        &&& self.is_sunk == all_hit(self.hits)
    }

    /// Whether every square of the ship lies on a grid of side `size`.
    pub open spec fn in_grid(self, size: u8) -> bool {
        forall|k: int|
            0 <= k < self.tiles.len() ==> (#[trigger] self.tiles[k]).x < size && self.tiles[k].y
                < size
    }

    /// Whether `(x, y)` is one of the ship's squares.
    pub open spec fn occupies(self, x: u8, y: u8) -> bool {
        self.tiles.contains(Pos { x, y })
    }
}

/// One shot, as recorded in a game's history.
#[derive(Clone, Debug, PartialEq, Eq)]
pub struct Shot {
    pub x: u8,
    pub y: u8,
    /// Identity of the player who fired.
    pub shooter: String,
    pub outcome: ShotResult,
    /// Fee paid for the shot.
    pub cost: u128,
    /// When the shot was fired, in nanoseconds since the Unix epoch.
    pub time: u64,
}

/// Mathematical view of a [`Shot`].
pub struct ShotView {
    pub x: u8,
    pub y: u8,
    pub shooter: Seq<char>,
    pub outcome: ShotResult,
    pub cost: u128,
    pub time: u64,
}

impl View for Shot {
    type V = ShotView;

    open spec fn view(&self) -> ShotView {
        ShotView {
            x: self.x,
            y: self.y,
            shooter: self.shooter@,
            outcome: self.outcome,
            cost: self.cost,
            time: self.time,
        }
    }
}

/// Views of the ships of a fleet, in order.
pub open spec fn fleet_view(ships: Seq<Ship>) -> Seq<ShipView> {
    Seq::new(ships.len(), |i: int| ships[i]@)
}

/// Views of the shots of a history, in order.
pub open spec fn history_view(shots: Seq<Shot>) -> Seq<ShotView> {
    Seq::new(shots.len(), |i: int| shots[i]@)
}

/// A game: its owner, its board and its accounts.
#[derive(Clone, Debug, PartialEq, Eq)]
pub struct Game {
    pub id: u128,
    /// Identity of the player who created the game.
    pub owner: String,
    pub name: String,
    /// Side of the square grid.
    pub size: u8,
    /// The shots fired so far, oldest first.
    pub shots: Vec<Shot>,
    pub status: GameStatus,
    pub ships: Vec<Ship>,
    /// When the game was created, in nanoseconds since the Unix epoch.
    pub created: u64,
    /// The entry fee as the creator stated it.
    pub entry_fee: u128,
    /// What creating the game cost: the sum of the rewards of its ships.
    pub creation_cost: u128,
    /// Whether the owner has claimed the pot.
    pub winnings_collected: bool,
    /// What is in the pot: the creation cost and the fees of all shots, less
    /// the rewards paid out.
    pub total_pot: u128,
}

/// Mathematical view of a [`Game`].
pub struct GameView {
    pub id: u128,
    pub owner: Seq<char>,
    pub name: Seq<char>,
    pub size: u8,
    pub shots: Seq<ShotView>,
    pub status: GameStatus,
    pub ships: Seq<ShipView>,
    pub created: u64,
    pub entry_fee: u128,
    pub creation_cost: u128,
    pub winnings_collected: bool,
    pub total_pot: u128,
}

impl View for Game {
    type V = GameView;

    open spec fn view(&self) -> GameView {
        GameView {
            id: self.id,
            owner: self.owner@,
            name: self.name@,
            size: self.size,
            shots: history_view(self.shots@),
            status: self.status,
            ships: fleet_view(self.ships@),
            created: self.created,
            entry_fee: self.entry_fee,
            creation_cost: self.creation_cost,
            winnings_collected: self.winnings_collected,
            total_pot: self.total_pot,
        }
    }
}

} // verus!
