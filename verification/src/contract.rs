//! The commands and queries of the engine, each as a step from the state
//! before to the state after and the answer.
//!
//! A command acts on the registry and on the statistics of its sender. A
//! command that is rejected leaves both as they were.

use vstd::prelude::*;
use crate::bank::Coin;
use crate::bank::CoinView;
use crate::bank::Payout;
use crate::bank::PayoutView;
use crate::bank::funds_view;
use crate::error::ContractError;
use crate::game::create_check;
use crate::game::new_game;
use crate::invariants::lemma_settled_wf;
use crate::ledger::PlayerStats;
use crate::ledger::record_game_created;
use crate::ledger::record_shot;
use crate::ledger::record_sunk;
use crate::msg::AllGamesResponse;
use crate::msg::ExecuteMsg;
use crate::msg::ExecuteMsgView;
use crate::msg::GameResponse;
use crate::msg::GameResponseView;
use crate::msg::InstantiateMsg;
use crate::msg::QueryAnswer;
use crate::msg::QueryAnswerView;
use crate::msg::QueryMsg;
use crate::msg::Response;
use crate::msg::ResponseView;
use crate::msg::ShipConstructor;
use crate::msg::ShotFired;
use crate::pricing::creation_cost;
use crate::pricing::spec_peek_cost;
use crate::pricing::total_rewards;
use crate::registry::RECENT_GAMES;
use crate::registry::Registry;
use crate::registry::RegistryView;
use crate::registry::get_game;
use crate::state::Game;
use crate::state::GameStatus;
use crate::state::GameView;
use crate::state::Pos;
use crate::state::ShotReceipt;
use crate::state::ShotResult;
use crate::state::ShotView;
use crate::utilities::update_last_active_id;
use crate::validation::was_shot;

verus! {

/// Where a command leaves the engine: the registry, the statistics of the
/// sender, and the answer.
pub struct Outcome {
    pub registry: RegistryView,
    pub stats: PlayerStats,
    pub result: Result<ResponseView, ContractError>,
}

/// The outcome of a command that was rejected for `e`: nothing has changed.
pub open spec fn rejected(registry: RegistryView, stats: PlayerStats, e: ContractError) -> Outcome {
    Outcome { registry, stats, result: Err(e) }
}

/// The view of what a command handed back.
pub open spec fn result_view(res: Result<Response, ContractError>) -> Result<
    ResponseView,
    ContractError,
> {
    match res {
        Ok(response) => Ok(response@),
        Err(e) => Err(e),
    }
}

/// The statistics of a shooter after an accepted shot.
pub open spec fn stats_after_shot(stats: PlayerStats, receipt: ShotReceipt) -> PlayerStats {
    match receipt.result {
        ShotResult::Sunk { reward, .. } => stats.after_shot(receipt.cost).after_sunk(reward),
        _ => stats.after_shot(receipt.cost),
    }
}

/// The payment that an accepted shot asks for: the reward of a ship it sank,
/// to the shooter.
pub open spec fn shot_payout(receipt: ShotReceipt, shooter: Seq<char>) -> Option<PayoutView> {
    match receipt.result {
        ShotResult::Sunk { reward, .. } => Some(PayoutView { to: shooter, amount: reward }),
        _ => None,
    }
}

/// The step of creating a game: the new game gets the next identifier, the
/// registry is swept, and the sender has created one game more.
pub open spec fn spec_make_game(
    registry: RegistryView,
    stats: PlayerStats,
    now: u64,
    sender: Seq<char>,
    funds: Seq<CoinView>,
    entry_fee: u128,
    size: u8,
    ships: Seq<ShipConstructor>,
    name: Seq<char>,
) -> Outcome {
    match create_check(size, ships, funds) {
        Err(e) => rejected(registry, stats, e),
        Ok(_) => Outcome {
            registry: registry.with_game(
                new_game(registry.next_id, sender, entry_fee, size, name, ships, now),
            ).after_sweep(now),
            stats: stats.after_game_created(),
            result: Ok(ResponseView { game_id: Some(registry.next_id), shot: None, payout: None }),
        },
    }
}

/// The step of firing a shot at the game `game_id`.
pub open spec fn spec_take_shot(
    registry: RegistryView,
    stats: PlayerStats,
    now: u64,
    sender: Seq<char>,
    funds: Seq<CoinView>,
    game_id: u128,
    x: u8,
    y: u8,
) -> Outcome {
    if !registry.has_game(game_id) {
        rejected(registry, stats, ContractError::GameNotFound)
    } else {
        let game = registry.game(game_id);
        match game.fire_shot_check(x, y, sender, funds, now, registry.forbid_owner_shots) {
            Err(e) => rejected(registry, stats, e),
            Ok(_) => {
                let record = game.shot_record(x, y, sender, now);
                let receipt = ShotReceipt {
                    result: record.outcome,
                    cost: record.cost,
                    paid_out: record.outcome.spec_payout() as u128,
                };
                Outcome {
                    registry: registry.with_game_at(game_id, game.after_shot(x, y, sender, now)),
                    stats: stats_after_shot(stats, receipt),
                    result: Ok(
                        ResponseView {
                            game_id: None,
                            shot: Some(receipt),
                            payout: shot_payout(receipt, sender),
                        },
                    ),
                }
            },
        }
    }
}

/// The step of claiming the pot of the game `game_id`: the registry after
/// it, and the answer. The statistics of the sender are not touched.
pub open spec fn spec_collect_winnings(
    registry: RegistryView,
    now: u64,
    sender: Seq<char>,
    game_id: u128,
) -> (RegistryView, Result<ResponseView, ContractError>) {
    if !registry.has_game(game_id) {
        (registry, Err(ContractError::GameNotFound))
    } else {
        let game = registry.game(game_id);
        match game.claim_check(sender, now) {
            Err(e) => (registry, Err(e)),
            Ok(_) => (
                registry.with_game_at(game_id, game.after_claim(now)),
                Ok(
                    ResponseView {
                        game_id: None,
                        shot: None,
                        payout: Some(PayoutView { to: sender, amount: game.total_pot }),
                    },
                ),
            ),
        }
    }
}

/// The answer to a peek at `num_shots` shots of the game `game_id`: the fee
/// is owed to the owner of the game. Nothing is changed.
pub open spec fn spec_peek_shots(
    registry: RegistryView,
    funds: Seq<CoinView>,
    game_id: u128,
    num_shots: u64,
) -> Result<ResponseView, ContractError> {
    if !registry.has_game(game_id) {
        Err(ContractError::GameNotFound)
    } else {
        let game = registry.game(game_id);
        match game.peek_check(funds, num_shots) {
            Err(e) => Err(e),
            Ok(_) => Ok(
                ResponseView {
                    game_id: None,
                    shot: None,
                    payout: if num_shots > 0 {
                        Some(
                            PayoutView {
                                to: game.owner,
                                amount: spec_peek_cost(num_shots as nat) as u128,
                            },
                        )
                    } else {
                        None
                    },
                },
            ),
        }
    }
}

/// The step of a command.
pub open spec fn spec_execute(
    registry: RegistryView,
    stats: PlayerStats,
    now: u64,
    sender: Seq<char>,
    funds: Seq<CoinView>,
    msg: ExecuteMsgView,
) -> Outcome {
    match msg {
        ExecuteMsgView::CreateGame { entry_fee, size, ships, name } => spec_make_game(
            registry,
            stats,
            now,
            sender,
            funds,
            entry_fee,
            size,
            ships,
            name,
        ),
        ExecuteMsgView::TakeShot { game_id, x, y } => spec_take_shot(
            registry,
            stats,
            now,
            sender,
            funds,
            game_id,
            x,
            y,
        ),
        ExecuteMsgView::PeekShots { game_id, num_shots } => Outcome {
            registry,
            stats,
            result: spec_peek_shots(registry, funds, game_id, num_shots),
        },
        ExecuteMsgView::CollectWinnings { game_id } => Outcome {
            registry: spec_collect_winnings(registry, now, sender, game_id).0,
            stats,
            result: spec_collect_winnings(registry, now, sender, game_id).1,
        },
    }
}

/// Adding a well-formed game under the next identifier keeps the registry's
/// invariant.
pub proof fn lemma_with_game_wf(registry: RegistryView, game: GameView)
    requires
        registry.wf(),
        game.wf(),
        game.id == registry.next_id,
        registry.games.len() < usize::MAX,
    ensures
        registry.with_game(game).wf(),
{
    let after = registry.with_game(game);
    assert forall|i: int| 0 <= i < after.games.len() implies (#[trigger] after.games[i]).id == i + 1
        && after.games[i].wf() by {
        if i < registry.games.len() {
            assert(after.games[i] == registry.games[i]);
        }
    }
    assert forall|i: int| 0 <= i < after.last_active_id - 1 implies (
    #[trigger] after.games[i]).status != GameStatus::Active by {
        assert(after.games[i] == registry.games[i]);
    }
}

/// Replacing a game by a well-formed game with the same identifier keeps the
/// registry's invariant, provided that the game stays inactive if it lies
/// before the cursor.
pub proof fn lemma_with_game_at_wf(registry: RegistryView, id: u128, game: GameView)
    requires
        registry.wf(),
        registry.has_game(id),
        game.wf(),
        game.id == id,
        game.status == GameStatus::Active ==> registry.game(id).status == GameStatus::Active,
    ensures
        registry.with_game_at(id, game).wf(),
{
    let after = registry.with_game_at(id, game);
    assert forall|i: int| 0 <= i < after.games.len() implies (#[trigger] after.games[i]).id == i + 1
        && after.games[i].wf() by {
        if i != id - 1 {
            assert(after.games[i] == registry.games[i]);
        }
    }
    assert forall|i: int| 0 <= i < after.last_active_id - 1 implies (
    #[trigger] after.games[i]).status != GameStatus::Active by {
        assert(registry.games[i].status != GameStatus::Active);
    }
}

/// Sets the engine up: no game exists, the first will get the identifier 1,
/// and the rules are those of the message.
pub fn instantiate(msg: InstantiateMsg) -> (registry: Registry)
    ensures
        registry@ == (RegistryView {
            next_id: 1,
            last_active_id: 1,
            forbid_owner_shots: msg.forbid_owner_shots,
            games: Seq::empty(),
        }),
        registry@.wf(),
{
    Registry::new(msg.forbid_owner_shots)
}

/// Carries a command out.
pub fn execute(
    registry: &mut Registry,
    stats: &mut PlayerStats,
    now: u64,
    sender: String,
    funds: Vec<Coin>,
    msg: ExecuteMsg,
) -> (res: Result<Response, ContractError>)
    requires
        old(registry)@.wf(),
    ensures
        final(registry)@.wf(),
        (Outcome { registry: final(registry)@, stats: *final(stats), result: result_view(res) })
            == spec_execute(
            old(registry)@,
            *old(stats),
            now,
            sender@,
            funds_view(funds@),
            msg@,
        ),
{
    match msg {
        ExecuteMsg::CreateGame { entry_fee, size, ships, name } => try_make_game(
            registry,
            stats,
            now,
            sender,
            funds,
            entry_fee,
            size,
            ships,
            name,
        ),
        ExecuteMsg::TakeShot { game_id, x, y } => try_take_shot(
            registry,
            stats,
            now,
            sender,
            funds,
            game_id,
            x,
            y,
        ),
        ExecuteMsg::PeekShots { game_id, num_shots } => try_peek_shots(
            registry,
            funds,
            game_id,
            num_shots,
        ),
        ExecuteMsg::CollectWinnings { game_id } => try_collect_winnings(
            registry,
            now,
            sender,
            game_id,
        ),
    }
}

/// Creates a game for `sender`. The game gets the next identifier; the
/// registry is swept once the game is in it; the answer names the identifier.
pub fn try_make_game(
    registry: &mut Registry,
    stats: &mut PlayerStats,
    now: u64,
    sender: String,
    funds: Vec<Coin>,
    entry_fee: u128,
    size: u8,
    ships: Vec<ShipConstructor>,
    name: String,
) -> (res: Result<Response, ContractError>)
    requires
        old(registry)@.wf(),
    ensures
        final(registry)@.wf(),
        (Outcome { registry: final(registry)@, stats: *final(stats), result: result_view(res) })
            == spec_make_game(
            old(registry)@,
            *old(stats),
            now,
            sender@,
            funds_view(funds@),
            entry_fee,
            size,
            ships@,
            name@,
        ),
{
    let ghost before = registry@;
    let id = registry.next_id;
    let game = match Game::create(id, sender, entry_fee, size, name, &ships, &funds, now) {
        Ok(game) => game,
        Err(e) => {
            return Err(e);
        },
    };
    let ghost created = game@;
    registry.games.push(game);
    let count: usize = registry.games.len();
    registry.next_id = count as u128 + 1;
    proof {
        assert(registry@.games =~= before.games.push(created));
        lemma_with_game_wf(before, created);
    }
    update_last_active_id(registry, now);
    record_game_created(stats);
    Ok(Response { game_id: Some(id), shot: None, payout: None })
}

/// Fires a shot for `sender` at the game `game_id`. An accepted shot is
/// counted in the sender's statistics with its fee, and a sinking with its
/// reward, which the answer asks the host to pay to the sender.
pub fn try_take_shot(
    registry: &mut Registry,
    stats: &mut PlayerStats,
    now: u64,
    sender: String,
    funds: Vec<Coin>,
    game_id: u128,
    x: u8,
    y: u8,
) -> (res: Result<Response, ContractError>)
    requires
        old(registry)@.wf(),
    ensures
        final(registry)@.wf(),
        (Outcome { registry: final(registry)@, stats: *final(stats), result: result_view(res) })
            == spec_take_shot(
            old(registry)@,
            *old(stats),
            now,
            sender@,
            funds_view(funds@),
            game_id,
            x,
            y,
        ),
{
    let ghost before = registry@;
    match get_game(game_id, registry) {
        Ok(_) => {},
        Err(e) => {
            return Err(e);
        },
    }
    let index: usize = (game_id - 1) as usize;
    let forbid_owner_shots = registry.forbid_owner_shots;
    let shooter = sender.clone();
    proof {
        assert(registry.games[index as int]@ == before.games[index as int]);
        assert(before.games[index as int].wf());
    }
    let fired = registry.games[index].fire_shot(x, y, shooter, &funds, now, forbid_owner_shots);
    let receipt = match fired {
        Ok(receipt) => receipt,
        Err(e) => {
            assert(registry@.games =~= before.games);
            return Err(e);
        },
    };
    proof {
        let game = before.game(game_id);
        assert(registry@.games =~= before.games.update(
            index as int,
            game.after_shot(x, y, sender@, now),
        ));
        lemma_with_game_at_wf(before, game_id, game.after_shot(x, y, sender@, now));
    }
    record_shot(stats, receipt.cost);
    let payout = match receipt.result {
        ShotResult::Sunk { reward, .. } => {
            record_sunk(stats, reward);
            Some(Payout { to: sender, amount: reward })
        },
        _ => None,
    };
    Ok(Response { game_id: None, shot: Some(receipt), payout })
}

/// Claims the pot of the game `game_id` for `sender`. The answer asks the
/// host to pay the pot to the sender.
pub fn try_collect_winnings(
    registry: &mut Registry,
    now: u64,
    sender: String,
    game_id: u128,
) -> (res: Result<Response, ContractError>)
    requires
        old(registry)@.wf(),
    ensures
        final(registry)@.wf(),
        (final(registry)@, result_view(res)) == spec_collect_winnings(
            old(registry)@,
            now,
            sender@,
            game_id,
        ),
{
    let ghost before = registry@;
    match get_game(game_id, registry) {
        Ok(_) => {},
        Err(e) => {
            return Err(e);
        },
    }
    let index: usize = (game_id - 1) as usize;
    proof {
        assert(registry.games[index as int]@ == before.games[index as int]);
        assert(before.games[index as int].wf());
    }
    let claimed = registry.games[index].claim_winnings(&sender, now);
    let amount = match claimed {
        Ok(amount) => amount,
        Err(e) => {
            assert(registry@.games =~= before.games);
            return Err(e);
        },
    };
    proof {
        let game = before.game(game_id);
        assert(registry@.games =~= before.games.update(index as int, game.after_claim(now)));
        lemma_settled_wf(game, now);
        lemma_with_game_at_wf(before, game_id, game.after_claim(now));
    }
    Ok(Response { game_id: None, shot: None, payout: Some(Payout { to: sender, amount }) })
}

/// Prices a look at `num_shots` shots of the game `game_id`. Nothing is
/// changed; the answer asks the host to pay the fee to the owner of the game.
pub fn try_peek_shots(registry: &Registry, funds: Vec<Coin>, game_id: u128, num_shots: u64) -> (res:
    Result<Response, ContractError>)
    ensures
        result_view(res) == spec_peek_shots(registry@, funds_view(funds@), game_id, num_shots),
{
    let game = match get_game(game_id, registry) {
        Ok(game) => game,
        Err(e) => {
            return Err(e);
        },
    };
    let owed = match game.peek(&funds, num_shots) {
        Ok(owed) => owed,
        Err(e) => {
            return Err(e);
        },
    };
    let payout = if num_shots > 0 {
        Some(Payout { to: game.owner.clone(), amount: owed })
    } else {
        None
    };
    Ok(Response { game_id: None, shot: None, payout })
}

/// A shot as the public sees it.
pub open spec fn public_shot(shot: ShotView) -> ShotFired {
    ShotFired { position: Pos { x: shot.x, y: shot.y }, hit: shot.outcome.spec_is_hit() }
}

/// What the public may know of a game: its identifier, size, name and
/// owner, the sum of its ships' rewards, the lengths of its ships, and where
/// each shot went and whether it landed.
pub open spec fn game_response(game: GameView) -> GameResponseView {
    GameResponseView {
        game_id: game.id,
        size: game.size,
        total_reward: total_rewards(game.ships) as u128,
        shots_taken: Seq::new(game.shots.len(), |k: int| public_shot(game.shots[k])),
        name: game.name,
        ships: Seq::new(game.ships.len(), |i: int| game.ships[i].ship_type.spec_length() as u8),
        owner: game.owner,
    }
}

/// Whether shot `k` of the history is the first that was fired at `(x, y)`.
pub open spec fn is_first_shot_at(shots: Seq<ShotView>, k: int, x: u8, y: u8) -> bool {
    &&& 0 <= k < shots.len()
    &&& shots[k].x == x && shots[k].y == y
    &&& forall|l: int| 0 <= l < k ==> !((#[trigger] shots[l]).x == x && shots[l].y == y)
}

/// The first shot of the history that was fired at `(x, y)`.
pub open spec fn shot_at(shots: Seq<ShotView>, x: u8, y: u8) -> ShotView {
    shots[choose|k: int| is_first_shot_at(shots, k, x, y)]
}

/// The answer to a question about one shot.
pub open spec fn spec_query_shot(registry: RegistryView, game_id: u128, x: u8, y: u8) -> Result<
    ShotFired,
    ContractError,
> {
    if !registry.has_game(game_id) {
        Err(ContractError::GameNotFound)
    } else if !was_shot(registry.game(game_id).shots, x, y) {
        Err(ContractError::ShotNotFound)
    } else {
        Ok(public_shot(shot_at(registry.game(game_id).shots, x, y)))
    }
}

/// The answer to a question.
pub open spec fn spec_query(registry: RegistryView, msg: QueryMsg) -> Result<
    QueryAnswerView,
    ContractError,
> {
    match msg {
        QueryMsg::Game { game_id } => if registry.has_game(game_id) {
            Ok(QueryAnswerView::Game { game: game_response(registry.game(game_id)) })
        } else {
            Err(ContractError::GameNotFound)
        },
        QueryMsg::AllGames {  } => Ok(QueryAnswerView::AllGames { ids: registry.active_window() }),
        QueryMsg::RecentGames {  } => Ok(
            QueryAnswerView::AllGames { ids: registry.recent_ids(RECENT_GAMES) },
        ),
        QueryMsg::Shot { game_id, x, y } => match spec_query_shot(registry, game_id, x, y) {
            Ok(shot) => Ok(QueryAnswerView::Shot { shot }),
            Err(e) => Err(e),
        },
    }
}

/// The view of an answer, or the rejection.
pub open spec fn answer_view(res: Result<QueryAnswer, ContractError>) -> Result<
    QueryAnswerView,
    ContractError,
> {
    match res {
        Ok(answer) => Ok(answer@),
        Err(e) => Err(e),
    }
}

/// Answers a question.
pub fn query(registry: &Registry, msg: QueryMsg) -> (res: Result<QueryAnswer, ContractError>)
    ensures
        answer_view(res) == spec_query(registry@, msg),
{
    match msg {
        QueryMsg::Game { game_id } => match query_game(registry, game_id) {
            Ok(game) => Ok(
                QueryAnswer::Game {
                    game_id: game.game_id,
                    size: game.size,
                    total_reward: game.total_reward,
                    shots_taken: game.shots_taken,
                    name: game.name,
                    ships: game.ships,
                    owner: game.owner,
                },
            ),
            Err(e) => Err(e),
        },
        QueryMsg::AllGames {  } => {
            let listed = query_all_games(registry);
            Ok(QueryAnswer::AllGames { ids: listed.ids })
        },
        QueryMsg::RecentGames {  } => Ok(
            QueryAnswer::AllGames { ids: registry.list_recent(RECENT_GAMES) },
        ),
        QueryMsg::Shot { game_id, x, y } => match query_shot(registry, game_id, x, y) {
            Ok(shot) => Ok(QueryAnswer::Shot { shot }),
            Err(e) => Err(e),
        },
    }
}

/// Tells what the public may know of the game `game_id`.
pub fn query_game(registry: &Registry, game_id: u128) -> (res: Result<
    GameResponse,
    ContractError,
>)
    ensures
        match res {
            Ok(response) => registry@.has_game(game_id) && response@ == game_response(
                registry@.game(game_id),
            ),
            Err(e) => !registry@.has_game(game_id) && e == ContractError::GameNotFound,
        },
{
    let game = match get_game(game_id, registry) {
        Ok(game) => game,
        Err(e) => {
            return Err(e);
        },
    };
    let mut ships: Vec<u8> = Vec::new();
    let mut i: usize = 0;
    while i < game.ships.len()
        invariant
            i <= game.ships.len(),
            ships.len() == i,
            forall|k: int| 0 <= k < i ==> ships[k] == game@.ships[k].ship_type.spec_length(),
        decreases game.ships.len() - i,
    {
        ships.push(game.ships[i].ship_type.length());
        i += 1;
    }
    let total_reward = creation_cost(&game.ships);
    let mut shots_taken: Vec<ShotFired> = Vec::new();
    let mut k: usize = 0;
    while k < game.shots.len()
        invariant
            k <= game.shots.len(),
            shots_taken.len() == k,
            forall|l: int| 0 <= l < k ==> shots_taken[l] == public_shot(game@.shots[l]),
        decreases game.shots.len() - k,
    {
        let shot = &game.shots[k];
        shots_taken.push(
            ShotFired { position: Pos { x: shot.x, y: shot.y }, hit: shot.outcome.is_hit() },
        );
        k += 1;
    }
    let response = GameResponse {
        game_id: game.id,
        size: game.size,
        total_reward,
        shots_taken,
        name: game.name.clone(),
        ships,
        owner: game.owner.clone(),
    };
    proof {
        assert(response@.ships =~= game_response(game@).ships);
        assert(response@.shots_taken =~= game_response(game@).shots_taken);
    }
    Ok(response)
}

/// Lists the identifiers from the cursor to the newest game, in ascending
/// order.
pub fn query_all_games(registry: &Registry) -> (listed: AllGamesResponse)
    ensures
        listed@ == registry@.active_window(),
{
    AllGamesResponse { ids: registry.list_active_window() }
}

/// Tells where the shot at `(x, y)` of the game `game_id` went and whether
/// it landed. A game that does not exist and a coordinate that was not fired
/// at are each answered with their own rejection.
pub fn query_shot(registry: &Registry, game_id: u128, x: u8, y: u8) -> (res: Result<
    ShotFired,
    ContractError,
>)
    ensures
        res == spec_query_shot(registry@, game_id, x, y),
{
    let game = match get_game(game_id, registry) {
        Ok(game) => game,
        Err(e) => {
            return Err(e);
        },
    };
    let ghost shots = game@.shots;
    let mut k: usize = 0;
    while k < game.shots.len()
        invariant
            k <= game.shots.len(),
            shots == game@.shots,
            registry@.has_game(game_id),
            game@ == registry@.game(game_id),
            forall|l: int| 0 <= l < k ==> !((#[trigger] shots[l]).x == x && shots[l].y == y),
        decreases game.shots.len() - k,
    {
        let shot = &game.shots[k];
        if shot.x == x && shot.y == y {
            proof {
                assert(shots[k as int] == shot@);
                assert(is_first_shot_at(shots, k as int, x, y));
                let c = choose|c: int| is_first_shot_at(shots, c, x, y);
                assert(is_first_shot_at(shots, c, x, y));
                if c < k {
                    assert(!(shots[c].x == x && shots[c].y == y));
                }
                if k < c {
                    assert(!(shots[k as int].x == x && shots[k as int].y == y));
                }
                assert(c == k);
                assert(shots[k as int].x == x && shots[k as int].y == y);
                assert(was_shot(shots, x, y));
                assert(shot_at(shots, x, y) == shot@);
            }
            return Ok(
                ShotFired { position: Pos { x: shot.x, y: shot.y }, hit: shot.outcome.is_hit() },
            );
        }
        k += 1;
    }
    Err(ContractError::ShotNotFound)
}

} // verus!
