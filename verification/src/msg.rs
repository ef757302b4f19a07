//! Commands, queries and their answers.

use vstd::prelude::*;
use crate::bank::Payout;
use crate::bank::PayoutView;
use crate::state::Pos;
use crate::state::ShipType;
use crate::state::ShotReceipt;

verus! {

/// The rules a registry is set up with.
#[derive(Clone, Copy, Debug, PartialEq, Eq, Structural)]
pub struct InstantiateMsg {
    /// Whether the owner of a game is barred from firing at it.
    pub forbid_owner_shots: bool,
}

/// Where the creator of a game wants one ship to lie.
#[derive(Clone, Copy, Debug, PartialEq, Eq, Structural)]
pub struct ShipConstructor {
    pub position: Pos,
    pub ship_type: ShipType,
    pub is_horizontal: bool,
}

/// A command. It comes with the identity of its sender and the funds
/// attached to it.
#[derive(Clone, Debug, PartialEq, Eq)]
pub enum ExecuteMsg {
    CreateGame { entry_fee: u128, size: u8, ships: Vec<ShipConstructor>, name: String },
    TakeShot { game_id: u128, x: u8, y: u8 },
    PeekShots { game_id: u128, num_shots: u64 },
    CollectWinnings { game_id: u128 },
}

/// Mathematical view of an [`ExecuteMsg`].
pub enum ExecuteMsgView {
    CreateGame { entry_fee: u128, size: u8, ships: Seq<ShipConstructor>, name: Seq<char> },
    TakeShot { game_id: u128, x: u8, y: u8 },
    PeekShots { game_id: u128, num_shots: u64 },
    CollectWinnings { game_id: u128 },
}

impl View for ExecuteMsg {
    type V = ExecuteMsgView;

    open spec fn view(&self) -> ExecuteMsgView {
        match self {
            ExecuteMsg::CreateGame { entry_fee, size, ships, name } => ExecuteMsgView::CreateGame {
                entry_fee: *entry_fee,
                size: *size,
                ships: ships@,
                name: name@,
            },
            ExecuteMsg::TakeShot { game_id, x, y } => ExecuteMsgView::TakeShot {
                game_id: *game_id,
                x: *x,
                y: *y,
            },
            ExecuteMsg::PeekShots { game_id, num_shots } => ExecuteMsgView::PeekShots {
                game_id: *game_id,
                num_shots: *num_shots,
            },
            ExecuteMsg::CollectWinnings { game_id } => ExecuteMsgView::CollectWinnings {
                game_id: *game_id,
            },
        }
    }
}

/// What a command that was accepted hands back: the identifier of a game it
/// created, the receipt of a shot it fired, and a payment it asks the host
/// to make.
#[derive(Clone, Debug, PartialEq, Eq)]
pub struct Response {
    pub game_id: Option<u128>,
    pub shot: Option<ShotReceipt>,
    pub payout: Option<Payout>,
}

/// Mathematical view of a [`Response`].
pub struct ResponseView {
    pub game_id: Option<u128>,
    pub shot: Option<ShotReceipt>,
    pub payout: Option<PayoutView>,
}

impl View for Response {
    type V = ResponseView;

    open spec fn view(&self) -> ResponseView {
        ResponseView {
            game_id: self.game_id,
            shot: self.shot,
            payout: match self.payout {
                Some(p) => Some(p@),
                None => None,
            },
        }
    }
}

/// A question about the registry. Answering it changes nothing.
#[derive(Clone, Copy, Debug, PartialEq, Eq, Structural)]
pub enum QueryMsg {
    Game { game_id: u128 },
    AllGames {  },
    RecentGames {  },
    Shot { game_id: u128, x: u8, y: u8 },
}

/// One shot as the public sees it: where it went and whether it landed.
#[derive(Clone, Copy, Debug, PartialEq, Eq, Structural)]
pub struct ShotFired {
    pub position: Pos,
    pub hit: bool,
}

/// What the public may know of a game.
#[derive(Clone, Debug, PartialEq, Eq)]
pub struct GameResponse {
    pub game_id: u128,
    pub size: u8,
    pub total_reward: u128,
    pub shots_taken: Vec<ShotFired>,
    pub name: String,
    pub ships: Vec<u8>,
    pub owner: String,
}

/// Mathematical view of a [`GameResponse`].
pub struct GameResponseView {
    pub game_id: u128,
    pub size: u8,
    pub total_reward: u128,
    pub shots_taken: Seq<ShotFired>,
    pub name: Seq<char>,
    pub ships: Seq<u8>,
    pub owner: Seq<char>,
}

impl View for GameResponse {
    type V = GameResponseView;

    open spec fn view(&self) -> GameResponseView {
        GameResponseView {
            game_id: self.game_id,
            size: self.size,
            total_reward: self.total_reward,
            shots_taken: self.shots_taken@,
            name: self.name@,
            ships: self.ships@,
            owner: self.owner@,
        }
    }
}

/// A list of game identifiers.
#[derive(Clone, Debug, PartialEq, Eq)]
pub struct AllGamesResponse {
    pub ids: Vec<u128>,
}

impl View for AllGamesResponse {
    type V = Seq<u128>;

    open spec fn view(&self) -> Seq<u128> {
        self.ids@
    }
}

/// The answer to a question.
#[derive(Clone, Debug, PartialEq, Eq)]
pub enum QueryAnswer {
    Game {
        game_id: u128,
        size: u8,
        total_reward: u128,
        shots_taken: Vec<ShotFired>,
        name: String,
        ships: Vec<u8>,
        owner: String,
    },
    AllGames { ids: Vec<u128> },
    Shot { shot: ShotFired },
}

/// Mathematical view of a [`QueryAnswer`].
pub enum QueryAnswerView {
    Game { game: GameResponseView },
    AllGames { ids: Seq<u128> },
    Shot { shot: ShotFired },
}

impl View for QueryAnswer {
    type V = QueryAnswerView;

    open spec fn view(&self) -> QueryAnswerView {
        match self {
            QueryAnswer::Game {
                game_id,
                size,
                total_reward,
                shots_taken,
                name,
                ships,
                owner,
            } => QueryAnswerView::Game {
                game: GameResponseView {
                    game_id: *game_id,
                    size: *size,
                    total_reward: *total_reward,
                    shots_taken: shots_taken@,
                    name: name@,
                    ships: ships@,
                    owner: owner@,
                },
            },
            QueryAnswer::AllGames { ids } => QueryAnswerView::AllGames { ids: ids@ },
            QueryAnswer::Shot { shot } => QueryAnswerView::Shot { shot: *shot },
        }
    }
}

} // verus!
