//! The registry of all games: the identifier of the next game, the cursor
//! to the oldest game that may still be active, and the games themselves.
//!
//! Identifiers start at 1 and are handed out in order, so the game with
//! identifier `id` is the game at index `id - 1`.

use vstd::prelude::*;
use crate::error::ContractError;
use crate::state::Game;
use crate::state::GameStatus;
use crate::state::GameView;

verus! {

/// How many games a listing of recent games shows unless told otherwise.
pub const RECENT_GAMES: usize = 10;

/// All games and the counters that go with them.
#[derive(Clone, Debug, PartialEq, Eq)]
pub struct Registry {
    /// The identifier that the next game will get.
    pub next_id: u128,
    /// The cursor: no game with a lower identifier is active.
    pub last_active_id: u128,
    /// Whether the owner of a game is barred from firing at it.
    pub forbid_owner_shots: bool,
    /// The games, in the order of their identifiers.
    pub games: Vec<Game>,
}

/// Mathematical view of a [`Registry`].
pub struct RegistryView {
    pub next_id: u128,
    pub last_active_id: u128,
    pub forbid_owner_shots: bool,
    pub games: Seq<GameView>,
}

/// Views of the games of a list, in order.
pub open spec fn games_view(games: Seq<Game>) -> Seq<GameView> {
    Seq::new(games.len(), |i: int| games[i]@)
}

impl View for Registry {
    type V = RegistryView;

    open spec fn view(&self) -> RegistryView {
        RegistryView {
            next_id: self.next_id,
            last_active_id: self.last_active_id,
            forbid_owner_shots: self.forbid_owner_shots,
            games: games_view(self.games@),
        }
    }
}

/// The identifiers from `low` up to, but without, `high`, in ascending order.
pub open spec fn id_range(low: int, high: int) -> Seq<u128> {
    Seq::new(
        if low <= high {
            (high - low) as nat
        } else {
            0
        },
        |k: int| (low + k) as u128,
    )
}

impl RegistryView {
    /// The registry's invariant: the next identifier is one more than the
    /// number of games, each game carries the identifier of its place and is
    /// well formed, the cursor lies between 1 and the next identifier, and
    /// no game before the cursor is marked active.
    pub open spec fn wf(self) -> bool {
        &&& self.next_id == self.games.len() + 1
        &&& self.games.len() <= usize::MAX
        &&& 1 <= self.last_active_id <= self.next_id
        &&& forall|i: int|
            0 <= i < self.games.len() ==> (#[trigger] self.games[i]).id == i + 1
                && self.games[i].wf()
        &&& forall|i: int|
            0 <= i < self.last_active_id - 1 ==> (#[trigger] self.games[i]).status
                != GameStatus::Active
    }

    /// Whether a game with the identifier `id` exists.
    pub open spec fn has_game(self, id: u128) -> bool {
        1 <= id <= self.games.len()
    }

    /// The game with the identifier `id`.
    pub open spec fn game(self, id: u128) -> GameView {
        self.games[id - 1]
    }

    /// Whether the game at index `i` is the first from the cursor on that
    /// accepts shots at `now`.
    pub open spec fn is_first_active(self, i: int, now: u64) -> bool {
        &&& self.last_active_id - 1 <= i < self.games.len()
        &&& self.games[i].active_at(now)
        &&& forall|j: int|
            self.last_active_id - 1 <= j < i ==> !(#[trigger] self.games[j]).active_at(now)
    }

    /// Where a sweep at `now` leaves the cursor: at the first game from the
    /// cursor on that accepts shots, or past the last game if none does.
    pub open spec fn swept_cursor(self, now: u64) -> u128 {
        if exists|i: int| self.is_first_active(i, now) {
            ((choose|i: int| self.is_first_active(i, now)) + 1) as u128
        } else {
            self.next_id
        }
    }

    /// The registry after a sweep at `now`: the cursor has moved on to the
    /// oldest game that accepts shots, and every game it passed has its
    /// status settled.
    pub open spec fn after_sweep(self, now: u64) -> RegistryView {
        let cursor = self.swept_cursor(now);
        RegistryView {
            last_active_id: cursor,
            games: Seq::new(
                self.games.len(),
                |i: int|
                    if self.last_active_id - 1 <= i < cursor - 1 {
                        self.games[i].settled(now)
                    } else {
                        self.games[i]
                    },
            ),
            ..self
        }
    }

    /// The registry after the game `game` was added under the next
    /// identifier.
    pub open spec fn with_game(self, game: GameView) -> RegistryView {
        RegistryView { next_id: (self.next_id + 1) as u128, games: self.games.push(game), ..self }
    }

    /// The registry after the game with the identifier `id` was replaced by
    /// `game`.
    pub open spec fn with_game_at(self, id: u128, game: GameView) -> RegistryView {
        RegistryView { games: self.games.update(id - 1, game), ..self }
    }

    /// Identifiers of the `limit` most recent games, or of all games if
    /// there are fewer, in ascending order.
    pub open spec fn recent_ids(self, limit: usize) -> Seq<u128> {
        if self.games.len() <= limit {
            id_range(1, (self.games.len() + 1) as int)
        } else {
            id_range(self.games.len() + 1 - limit, (self.games.len() + 1) as int)
        }
    }

    /// Identifiers from the cursor to the newest game, in ascending order.
    pub open spec fn active_window(self) -> Seq<u128> {
        id_range(self.last_active_id as int, self.next_id as int)
    }
}

impl Registry {
    /// An empty registry: the first game will get the identifier 1, and the
    /// cursor waits for it.
    pub fn new(forbid_owner_shots: bool) -> (registry: Registry)
        ensures
            registry@ == (RegistryView {
                next_id: 1,
                last_active_id: 1,
                forbid_owner_shots,
                games: Seq::empty(),
            }),
            registry@.wf(),
    {
        let registry = Registry {
            next_id: 1,
            last_active_id: 1,
            forbid_owner_shots,
            games: Vec::new(),
        };
        assert(registry@.games =~= Seq::<GameView>::empty());
        registry
    }

    /// The identifier that the next game will get. It starts at 1, grows by
    /// one with each game created, and is never handed out twice.
    pub fn next_id(&self) -> (id: u128)
        ensures
            id == self@.next_id,
    {
        self.next_id
    }

    /// Identifiers of the `limit` most recent games, or of all games if
    /// there are fewer, in ascending order.
    pub fn list_recent(&self, limit: usize) -> (ids: Vec<u128>)
        ensures
            ids@ == self@.recent_ids(limit),
    {
        let count: usize = self.games.len();
        let first: usize = if count <= limit {
            0
        } else {
            count - limit
        };
        let mut ids: Vec<u128> = Vec::new();
        let mut i: usize = first;
        while i < count
            invariant
                first <= i <= count,
                count == self.games.len(),
                ids.len() == i - first,
                forall|k: int| 0 <= k < ids.len() ==> ids[k] == first + 1 + k,
            decreases count - i,
        {
            ids.push(i as u128 + 1);
            i += 1;
        }
        assert(ids@ =~= self@.recent_ids(limit));
        ids
    }

    /// Identifiers from the cursor to the newest game, in ascending order.
    pub fn list_active_window(&self) -> (ids: Vec<u128>)
        ensures
            ids@ == self@.active_window(),
    {
        let mut ids: Vec<u128> = Vec::new();
        let mut id: u128 = self.last_active_id;
        while id < self.next_id
            invariant
                self.last_active_id <= id,
                id <= self.next_id || ids.len() == 0,
                ids.len() == id - self.last_active_id,
                forall|k: int| 0 <= k < ids.len() ==> ids[k] == self.last_active_id + k,
            decreases self.next_id - id,
        {
            ids.push(id);
            id += 1;
        }
        assert(ids@ =~= self@.active_window());
        ids
    }
}

/// Looks a game up by its identifier. This is the one lookup that every
/// command uses: an identifier that no game carries is answered with
/// `GameNotFound`.
pub fn get_game(game_id: u128, registry: &Registry) -> (res: Result<&Game, ContractError>)
    ensures
        match res {
            Ok(game) => registry@.has_game(game_id) && game@ == registry@.game(game_id),
            Err(e) => !registry@.has_game(game_id) && e == ContractError::GameNotFound,
        },
{
    if game_id < 1 || game_id > registry.games.len() as u128 {
        return Err(ContractError::GameNotFound);
    }
    let index: usize = (game_id - 1) as usize;
    Ok(&registry.games[index])
}

} // verus!
