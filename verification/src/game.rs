//! One game as a state machine: what it must always satisfy, and what
//! creating it, firing at it and claiming its pot do to it.

use vstd::prelude::*;
use crate::bank::Coin;
use crate::bank::CoinView;
use crate::bank::funds_view;
use crate::clock::GAME_WINDOW_SECONDS;
use crate::clock::seconds_of;
use crate::clock::within_window;
use crate::error::ContractError;
use crate::invariants::lemma_after_shot_wf;
use crate::invariants::lemma_new_game_wf;
use crate::invariants::lemma_placed_in_grid;
use crate::invariants::lemma_settled_wf;
use crate::msg::ShipConstructor;
use crate::pricing::creation_cost;
use crate::pricing::fees_collected;
use crate::pricing::peek_cost;
use crate::pricing::rewards_paid;
use crate::pricing::shot_cost;
use crate::pricing::spec_peek_cost;
use crate::pricing::spec_shot_cost;
use crate::pricing::sunk_rewards;
use crate::pricing::total_rewards;
use crate::ship::generate_real_ships;
use crate::ship::placed_fleet;
use crate::ship::placement_fits;
use crate::state::FLEET_SIZE;
use crate::state::Game;
use crate::state::GameStatus;
use crate::state::GameView;
use crate::state::HitOutcome;
use crate::state::ShipView;
use crate::state::Shot;
use crate::state::ShotReceipt;
use crate::state::ShotResult;
use crate::state::ShotView;
use crate::utilities::check_shot;
use crate::utilities::is_fleet_sunk;
use crate::utilities::is_game_active;
use crate::validation::is_tile;
use crate::validation::no_shared_tile;
use crate::validation::spec_validate_funds;
use crate::validation::spec_validate_ships;
use crate::validation::spec_validate_shot;
use crate::validation::validate_funds;
use crate::validation::validate_ships;
use crate::validation::validate_ships_not_overlapping;
use crate::validation::validate_shot;
use crate::validation::was_shot;

verus! {

/// Whether every ship of the fleet is sunk.
pub open spec fn fleet_sunk(ships: Seq<ShipView>) -> bool {
    forall|i: int| 0 <= i < ships.len() ==> (#[trigger] ships[i]).is_sunk
}

/// Whether ship `i` is the first of the fleet that occupies `(x, y)`.
pub open spec fn is_target(ships: Seq<ShipView>, i: int, x: u8, y: u8) -> bool {
    &&& 0 <= i < ships.len()
    &&& ships[i].occupies(x, y)
    &&& forall|j: int| 0 <= j < i ==> !(#[trigger] ships[j]).occupies(x, y)
}

/// Whether some ship of the fleet occupies `(x, y)`.
pub open spec fn has_target(ships: Seq<ShipView>, x: u8, y: u8) -> bool {
    exists|i: int| is_target(ships, i, x, y)
}

/// Index of the first ship of the fleet that occupies `(x, y)`.
pub open spec fn target_of(ships: Seq<ShipView>, x: u8, y: u8) -> int {
    choose|i: int| is_target(ships, i, x, y)
}

/// What a shot at `(x, y)` does to the fleet: it misses where no ship lies;
/// otherwise the first ship that lies there answers, and sinking it earns its
/// reward.
pub open spec fn shot_result(ships: Seq<ShipView>, x: u8, y: u8) -> ShotResult {
    if !has_target(ships, x, y) {
        ShotResult::Miss
    } else {
        let ship = ships[target_of(ships, x, y)];
        match ship.hit_outcome(x, y) {
            HitOutcome::Sunk => ShotResult::Sunk {
                ship_type: ship.ship_type,
                reward: ship.ship_type.spec_reward() as u128,
            },
            _ => ShotResult::Hit,
        }
    }
}

/// The fleet after a shot at `(x, y)`: the first ship that lies there takes
/// the hit, every other ship stays as it was.
pub open spec fn fleet_after_shot(ships: Seq<ShipView>, x: u8, y: u8) -> Seq<ShipView> {
    if !has_target(ships, x, y) {
        ships
    } else {
        let t = target_of(ships, x, y);
        ships.update(t, ships[t].after_hit(x, y))
    }
}

impl GameView {
    /// The board's invariant: three well-formed ships on the grid, no square
    /// listed twice.
    pub open spec fn board_wf(self) -> bool {
        &&& self.ships.len() == FLEET_SIZE
        &&& forall|i: int|
            0 <= i < self.ships.len() ==> (#[trigger] self.ships[i]).wf() && self.ships[i].in_grid(
                self.size,
            )
        &&& no_shared_tile(self.ships)
    }

    /// The history's invariant: every shot lies on the grid, no coordinate
    /// was fired at twice, shot number `k` cost what a shot costs after `k`
    /// shots, and a square's hit flag is set exactly if it was fired at.
    pub open spec fn history_wf(self) -> bool {
        &&& forall|k: int|
            0 <= k < self.shots.len() ==> (#[trigger] self.shots[k]).x < self.size
                && self.shots[k].y < self.size
        &&& forall|k: int, l: int|
            0 <= k < l < self.shots.len() ==> !((#[trigger] self.shots[k]).x == (
            #[trigger] self.shots[l]).x && self.shots[k].y == self.shots[l].y)
        &&& forall|k: int|
            0 <= k < self.shots.len() ==> (#[trigger] self.shots[k]).cost == spec_shot_cost(
                k as nat,
            )
        &&& forall|i: int, a: int| #[trigger]
            is_tile(self.ships, i, a) ==> self.ships[i].hits[a] == was_shot(
                self.shots,
                self.ships[i].tiles[a].x,
                self.ships[i].tiles[a].y,
            )
    }

    /// The accounts' invariant: creating the game cost the sum of its ships'
    /// rewards, the rewards paid are those of the sunk ships, and the pot is
    /// the creation cost plus the fees of all shots minus the rewards paid.
    pub open spec fn accounts_wf(self) -> bool {
        &&& self.creation_cost == total_rewards(self.ships)
        &&& rewards_paid(self.shots) == sunk_rewards(self.ships)
        &&& self.total_pot == self.creation_cost + fees_collected(self.shots) - rewards_paid(
            self.shots,
        )
    }

    /// The game's invariant. Beyond board, history and accounts: the game is
    /// completed exactly if its whole fleet is sunk, and its pot can only
    /// have been claimed once it was no longer active.
    pub open spec fn wf(self) -> bool {
        &&& self.board_wf()
        &&& self.history_wf()
        &&& self.accounts_wf()
        &&& (self.status == GameStatus::Completed) == fleet_sunk(self.ships)
        &&& self.winnings_collected ==> self.status != GameStatus::Active
    }

    /// Whether this game can have come from `earlier` by any number of
    /// commands: what a game is created with never changes, its ships stay
    /// where they are, its history only grows, a final status stays, and a
    /// game whose pot was claimed is never touched again.
    pub open spec fn extends(self, earlier: GameView) -> bool {
        &&& self.id == earlier.id
        &&& self.owner == earlier.owner
        &&& self.name == earlier.name
        &&& self.size == earlier.size
        &&& self.created == earlier.created
        &&& self.entry_fee == earlier.entry_fee
        &&& self.creation_cost == earlier.creation_cost
        &&& self.ships.len() == earlier.ships.len()
        &&& forall|i: int|
            0 <= i < self.ships.len() ==> (#[trigger] self.ships[i]).tiles == earlier.ships[i].tiles
                && self.ships[i].ship_type == earlier.ships[i].ship_type
        &&& earlier.shots.is_prefix_of(self.shots)
        &&& earlier.status != GameStatus::Active ==> self.status == earlier.status && self.shots
            == earlier.shots
        &&& earlier.winnings_collected ==> self == earlier
    }

    /// Whether the game is within its time window at `now`.
    pub open spec fn within_window(self, now: u64) -> bool {
        seconds_of(now) < seconds_of(self.created) + GAME_WINDOW_SECONDS
    }

    /// Whether the game accepts shots at `now`: it is marked active, some
    /// ship is afloat, and its time window has not elapsed.
    pub open spec fn active_at(self, now: u64) -> bool {
        !fleet_sunk(self.ships) && self.within_window(now) && self.status == GameStatus::Active
    }

    /// The status that the game has at `now`. A game marked completed or
    /// abandoned stays so. A game marked active is completed if its whole
    /// fleet is sunk, abandoned if its time window has elapsed, and active
    /// otherwise.
    pub open spec fn status_at(self, now: u64) -> GameStatus {
        if self.status != GameStatus::Active {
            self.status
        } else if fleet_sunk(self.ships) {
            GameStatus::Completed
        } else if !self.within_window(now) {
            GameStatus::Abandoned
        } else {
            GameStatus::Active
        }
    }

    /// The game with its status settled as of `now`.
    pub open spec fn settled(self, now: u64) -> GameView {
        GameView { status: self.status_at(now), ..self }
    }

    /// Price of the next shot at this game.
    pub open spec fn next_shot_cost(self) -> u128 {
        spec_shot_cost(self.shots.len()) as u128
    }

    /// Why a shot is rejected, if it is. The checks come in this order: the
    /// game must be active, the shooter allowed, the coordinate on the grid
    /// and fresh, and only then must the payment cover the price.
    pub open spec fn fire_shot_check(
        self,
        x: u8,
        y: u8,
        shooter: Seq<char>,
        funds: Seq<CoinView>,
        now: u64,
        forbid_owner_shots: bool,
    ) -> Result<(), ContractError> {
        if !self.active_at(now) {
            Err(ContractError::NotActive)
        } else {
            match spec_validate_shot(x, y, self, shooter, forbid_owner_shots) {
                Err(e) => Err(e),
                Ok(_) => spec_validate_funds(funds, self.next_shot_cost()),
            }
        }
    }

    /// The record of an accepted shot at `(x, y)`.
    pub open spec fn shot_record(self, x: u8, y: u8, shooter: Seq<char>, now: u64) -> ShotView {
        ShotView {
            x,
            y,
            shooter,
            outcome: shot_result(self.ships, x, y),
            cost: self.next_shot_cost(),
            time: now,
        }
    }

    /// The game after an accepted shot at `(x, y)`: the fleet takes the hit,
    /// the shot is appended to the history, the pot gains the fee and loses
    /// the reward, and the game is completed if the whole fleet is now sunk.
    pub open spec fn after_shot(self, x: u8, y: u8, shooter: Seq<char>, now: u64) -> GameView {
        let record = self.shot_record(x, y, shooter, now);
        let ships = fleet_after_shot(self.ships, x, y);
        GameView {
            ships,
            shots: self.shots.push(record),
            total_pot: (self.total_pot + record.cost - record.outcome.spec_payout()) as u128,
            status: if fleet_sunk(ships) {
                GameStatus::Completed
            } else {
                self.status
            },
            ..self
        }
    }

    /// Why a claim is rejected, if it is: only the owner may claim, only once
    /// the game no longer accepts shots, and only once.
    pub open spec fn claim_check(self, claimant: Seq<char>, now: u64) -> Result<(), ContractError> {
        if self.owner != claimant {
            Err(ContractError::Unauthorized)
        } else if self.active_at(now) {
            Err(ContractError::GameStillActive)
        } else if self.winnings_collected {
            Err(ContractError::AlreadyClaimed)
        } else {
            Ok(())
        }
    }

    /// The game after an accepted claim at `now`: its status is settled and
    /// its pot marked as claimed.
    pub open spec fn after_claim(self, now: u64) -> GameView {
        GameView { winnings_collected: true, ..self.settled(now) }
    }

    /// Why a peek at `num_shots` shots is rejected, if it is.
    pub open spec fn peek_check(self, funds: Seq<CoinView>, num_shots: u64) -> Result<
        (),
        ContractError,
    > {
        spec_validate_funds(funds, spec_peek_cost(num_shots as nat) as u128)
    }
}

/// Why a game cannot be created, if it cannot. The checks come in this
/// order: the number of ships, their bounds, their overlaps, and only then
/// the payment, which must cover the sum of the ships' rewards.
pub open spec fn create_check(size: u8, placements: Seq<ShipConstructor>, funds: Seq<CoinView>)
    -> Result<(), ContractError> {
    match spec_validate_ships(size, placements) {
        Err(e) => Err(ContractError::spec_from_placement(e)),
        Ok(_) => if !no_shared_tile(placed_fleet(placements)) {
            Err(ContractError::OverlappingShips)
        } else {
            spec_validate_funds(funds, total_rewards(placed_fleet(placements)) as u128)
        },
    }
}

/// The game that an accepted creation makes: active, with a fresh fleet, an
/// empty history, and a pot equal to the sum of the ships' rewards.
pub open spec fn new_game(
    id: u128,
    creator: Seq<char>,
    entry_fee: u128,
    size: u8,
    name: Seq<char>,
    placements: Seq<ShipConstructor>,
    now: u64,
) -> GameView {
    let ships = placed_fleet(placements);
    GameView {
        id,
        owner: creator,
        name,
        size,
        shots: Seq::empty(),
        status: GameStatus::Active,
        ships,
        created: now,
        entry_fee,
        creation_cost: total_rewards(ships) as u128,
        winnings_collected: false,
        total_pot: total_rewards(ships) as u128,
    }
}

impl Game {
    /// Creates a game. The placements are checked first, then the payment,
    /// which must cover the sum of the ships' rewards; that sum becomes the
    /// pot. The entry fee that the creator states is recorded as stated.
    pub fn create(
        id: u128,
        creator: String,
        entry_fee: u128,
        size: u8,
        name: String,
        placements: &Vec<ShipConstructor>,
        funds: &Vec<Coin>,
        now: u64,
    ) -> (res: Result<Game, ContractError>)
        ensures
            match res {
                Ok(game) => {
                    &&& create_check(size, placements@, funds_view(funds@)) is Ok
                    &&& game@ == new_game(id, creator@, entry_fee, size, name@, placements@, now)
                    &&& game@.wf()
                },
                Err(e) => create_check(size, placements@, funds_view(funds@)) == Err::<
                    (),
                    ContractError,
                >(e),
            },
    {
        match validate_ships(size, placements) {
            Ok(_) => {},
            Err(e) => {
                return Err(ContractError::from_placement(e));
            },
        }
        proof {
            assert forall|i: int| 0 <= i < placements.len() implies placement_fits(
                #[trigger] placements[i],
            ) by {
                lemma_placed_in_grid(size, placements[i]);
            }
        }
        let ships = generate_real_ships(placements);
        match validate_ships_not_overlapping(&ships) {
            Ok(_) => {},
            Err(e) => {
                return Err(ContractError::from_placement(e));
            },
        }
        let cost = creation_cost(&ships);
        match validate_funds(funds, cost) {
            Ok(_) => {},
            Err(e) => {
                return Err(e);
            },
        }
        proof {
            lemma_new_game_wf(id, creator@, entry_fee, size, name@, placements@, now);
        }
        let game = Game {
            id,
            owner: creator,
            name,
            size,
            shots: Vec::new(),
            status: GameStatus::Active,
            ships,
            created: now,
            entry_fee,
            creation_cost: cost,
            winnings_collected: false,
            total_pot: cost,
        };
        assert(game@.shots =~= Seq::<ShotView>::empty());
        Ok(game)
    }

    /// Fires at `(x, y)`. A rejected shot changes nothing and charges
    /// nothing. An accepted shot is resolved against the fleet and recorded;
    /// its fee goes to the pot, the reward of a ship it sinks leaves the pot,
    /// and the game is completed when the last ship sinks.
    pub fn fire_shot(
        &mut self,
        x: u8,
        y: u8,
        shooter: String,
        funds: &Vec<Coin>,
        now: u64,
        forbid_owner_shots: bool,
    ) -> (res: Result<ShotReceipt, ContractError>)
        requires
            old(self)@.wf(),
        ensures
            final(self)@.wf(),
            match res {
                Ok(receipt) => {
                    &&& old(self)@.fire_shot_check(
                        x,
                        y,
                        shooter@,
                        funds_view(funds@),
                        now,
                        forbid_owner_shots,
                    ) is Ok
                    &&& final(self)@ == old(self)@.after_shot(x, y, shooter@, now)
                    &&& receipt.result == shot_result(old(self)@.ships, x, y)
                    &&& receipt.cost == old(self)@.next_shot_cost()
                    &&& receipt.paid_out == receipt.result.spec_payout()
                },
                Err(e) => {
                    &&& old(self)@.fire_shot_check(
                        x,
                        y,
                        shooter@,
                        funds_view(funds@),
                        now,
                        forbid_owner_shots,
                    ) == Err::<(), ContractError>(e)
                    &&& final(self)@ == old(self)@
                },
            },
    {
        if !is_game_active(self, now) {
            return Err(ContractError::NotActive);
        }
        match validate_shot(x, y, self, &shooter, forbid_owner_shots) {
            Ok(_) => {},
            Err(e) => {
                return Err(e);
            },
        }
        let cost = shot_cost(self.shots.len());
        match validate_funds(funds, cost) {
            Ok(_) => {},
            Err(e) => {
                return Err(e);
            },
        }
        proof {
            lemma_after_shot_wf(self@, x, y, shooter@, now);
            assert forall|i: int| 0 <= i < self.ships.len() implies (
            #[trigger] self.ships[i])@.wf() by {
                assert(self@.ships[i].wf());
            }
        }
        let shot = Shot { x, y, shooter, outcome: ShotResult::Miss, cost, time: now };
        let shot = check_shot(shot, &mut self.ships);
        let result = shot.outcome;
        let paid_out = result.payout();
        self.total_pot = self.total_pot + cost - paid_out;
        self.shots.push(shot);
        if is_fleet_sunk(&self.ships) {
            self.status = GameStatus::Completed;
        }
        proof {
            let before = old(self)@;
            assert(self@.shots =~= before.shots.push(before.shot_record(x, y, shooter@, now)));
            assert(self@ == before.after_shot(x, y, shooter@, now));
        }
        Ok(ShotReceipt { result, cost, paid_out })
    }

    /// Claims the pot. Only the owner may claim, only once the game no
    /// longer accepts shots, and only once. An accepted claim settles the
    /// game's status, marks the pot as claimed and returns what is in it.
    pub fn claim_winnings(&mut self, claimant: &String, now: u64) -> (res: Result<
        u128,
        ContractError,
    >)
        requires
            old(self)@.wf(),
        ensures
            final(self)@.wf(),
            match res {
                Ok(amount) => {
                    &&& old(self)@.claim_check(claimant@, now) is Ok
                    &&& final(self)@ == old(self)@.after_claim(now)
                    &&& amount == old(self)@.total_pot
                    &&& amount == old(self)@.creation_cost + fees_collected(old(self)@.shots)
                        - rewards_paid(old(self)@.shots)
                },
                Err(e) => {
                    &&& old(self)@.claim_check(claimant@, now) == Err::<(), ContractError>(e)
                    &&& final(self)@ == old(self)@
                },
            },
    {
        if !(self.owner == *claimant) {
            return Err(ContractError::Unauthorized);
        }
        if is_game_active(self, now) {
            return Err(ContractError::GameStillActive);
        }
        if self.winnings_collected {
            return Err(ContractError::AlreadyClaimed);
        }
        proof {
            lemma_settled_wf(self@, now);
        }
        let amount = self.total_pot;
        self.settle(now);
        self.winnings_collected = true;
        Ok(amount)
    }

    /// Settles the status as of `now`: a game still marked active becomes
    /// completed if its whole fleet is sunk, and abandoned if its time window
    /// has elapsed.
    pub fn settle(&mut self, now: u64)
        requires
            old(self)@.wf(),
        ensures
            final(self)@ == old(self)@.settled(now),
            final(self)@.wf(),
    {
        let marked_active = match self.status {
            GameStatus::Active => true,
            _ => false,
        };
        if marked_active {
            if is_fleet_sunk(&self.ships) {
                self.status = GameStatus::Completed;
            } else if !within_window(self.created, now) {
                self.status = GameStatus::Abandoned;
            }
        }
    }

    /// Prices a look at `num_shots` shots. The game is not changed; the fee,
    /// twice the number of shots, is owed to the game's owner.
    pub fn peek(&self, funds: &Vec<Coin>, num_shots: u64) -> (res: Result<u128, ContractError>)
        ensures
            match res {
                Ok(owed) => self@.peek_check(funds_view(funds@), num_shots) is Ok && owed
                    == spec_peek_cost(num_shots as nat),
                Err(e) => self@.peek_check(funds_view(funds@), num_shots) == Err::<
                    (),
                    ContractError,
                >(e),
            },
    {
        let cost = peek_cost(num_shots);
        match validate_funds(funds, cost) {
            Ok(_) => Ok(cost),
            Err(e) => Err(e),
        }
    }
}

} // verus!
