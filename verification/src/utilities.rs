//! Helpers of the commands: whether a game still accepts shots, what a shot
//! does to a fleet, and the sweep that moves the registry's cursor past the
//! games that are over.

use vstd::prelude::*;
use crate::clock::within_window;
use crate::game::fleet_after_shot;
use crate::game::fleet_sunk;
use crate::game::is_target;
use crate::game::shot_result;
use crate::game::target_of;
use crate::invariants::lemma_settled_wf;
use crate::registry::Registry;
use crate::registry::RegistryView;
use crate::state::Game;
use crate::state::GameStatus;
use crate::state::GameView;
use crate::state::HitOutcome;
use crate::state::Ship;
use crate::state::Shot;
use crate::state::ShotResult;
use crate::state::ShotView;
use crate::state::fleet_view;

verus! {

/// Whether every ship of the fleet is sunk, by the flags the ships carry.
pub fn is_fleet_sunk(ships: &Vec<Ship>) -> (sunk: bool)
    ensures
        sunk == fleet_sunk(fleet_view(ships@)),
{
    let ghost fleet = fleet_view(ships@);
    let mut i: usize = 0;
    while i < ships.len()
        invariant
            i <= ships.len(),
            fleet == fleet_view(ships@),
            forall|j: int| 0 <= j < i ==> (#[trigger] fleet[j]).is_sunk,
        decreases ships.len() - i,
    {
        if !ships[i].is_sunk {
            assert(!fleet[i as int].is_sunk);
            return false;
        }
        i += 1;
    }
    true
}

/// Whether the game accepts shots at `now`: some ship is afloat, the time
/// window that began with its creation has not elapsed, and it is marked
/// active.
pub fn is_game_active(game: &Game, now: u64) -> (active: bool)
    ensures
        active == game@.active_at(now),
{
    let all_sunk = is_fleet_sunk(&game.ships);
    let within = within_window(game.created, now);
    let marked_active = match game.status {
        GameStatus::Active => true,
        _ => false,
    };
    !all_sunk && within && marked_active
}

/// Resolves a shot against the fleet. The first ship that occupies the
/// shot's coordinate takes the hit; the shot comes back with its outcome
/// filled in: a miss where no ship lies, a sinking with the ship's kind and
/// reward where the hit set the ship's last missing flag, a hit otherwise.
pub fn check_shot(shot: Shot, ships: &mut Vec<Ship>) -> (checked: Shot)
    requires
        forall|i: int| 0 <= i < old(ships).len() ==> (#[trigger] old(ships)[i])@.wf(),
    ensures
        fleet_view(final(ships)@) == fleet_after_shot(fleet_view(old(ships)@), shot.x, shot.y),
        checked@ == (ShotView {
            outcome: shot_result(fleet_view(old(ships)@), shot.x, shot.y),
            ..shot@
        }),
        forall|i: int| 0 <= i < final(ships).len() ==> (#[trigger] final(ships)[i])@.wf(),
{
    let ghost fleet = fleet_view(ships@);
    let mut shot = shot;
    let x = shot.x;
    let y = shot.y;
    let n: usize = ships.len();
    let mut i: usize = 0;
    while i < n && !ships[i].occupies(x, y)
        invariant
            n == ships.len(),
            i <= n,
            fleet == fleet_view(ships@),
            forall|j: int| 0 <= j < i ==> !(#[trigger] fleet[j]).occupies(x, y),
        decreases n - i,
    {
        assert(fleet[i as int] == ships[i as int]@);
        i += 1;
    }
    if i == n {
        proof {
            assert forall|t: int| !is_target(fleet, t, x, y) by {
                if 0 <= t < fleet.len() {
                    assert(!fleet[t].occupies(x, y));
                }
            }
        }
        shot.outcome = ShotResult::Miss;
        return shot;
    }
    proof {
        assert(fleet[i as int] == ships[i as int]@);
        assert(is_target(fleet, i as int, x, y));
        let t = target_of(fleet, x, y);
        assert(is_target(fleet, t, x, y));
        if t < i {
            assert(!fleet[t].occupies(x, y));
        }
        assert(t == i);
    }
    let outcome = ships[i].apply_hit(x, y);
    shot.outcome = match outcome {
        HitOutcome::Sunk => ShotResult::Sunk {
            ship_type: ships[i].ship_type,
            reward: ships[i].ship_type.reward(),
        },
        _ => ShotResult::Hit,
    };
    proof {
        assert(fleet_view(ships@) =~= fleet.update(i as int, fleet[i as int].after_hit(x, y)));
        assert forall|k: int| 0 <= k < ships.len() implies (#[trigger] ships[k])@.wf() by {
            if k != i {
                assert(ships[k] == old(ships)[k]);
            }
        }
    }
    shot
}

/// The games of a registry whose cursor has moved from index `from` to index
/// `to`: every game it passed has its status settled as of `now`.
pub open spec fn settled_between(games: Seq<GameView>, from: int, to: int, now: u64) -> Seq<
    GameView,
> {
    Seq::new(
        games.len(),
        |i: int|
            if from <= i < to {
                games[i].settled(now)
            } else {
                games[i]
            },
    )
}

/// If no game from the cursor on is the first to accept shots, none accepts
/// shots.
proof fn lemma_none_active(registry: RegistryView, now: u64, n: int)
    requires
        !(exists|i: int| registry.is_first_active(i, now)),
        1 <= registry.last_active_id,
        registry.last_active_id - 1 <= n <= registry.games.len(),
    ensures
        forall|j: int|
            registry.last_active_id - 1 <= j < n ==> !(#[trigger] registry.games[j]).active_at(now),
    decreases n,
{
    if n > registry.last_active_id - 1 {
        lemma_none_active(registry, now, n - 1);
        if registry.games[n - 1].active_at(now) {
            assert(registry.is_first_active(n - 1, now));
        }
    }
}

/// A sweep keeps the registry's invariant.
pub proof fn lemma_after_sweep_wf(registry: RegistryView, now: u64)
    requires
        registry.wf(),
    ensures
        registry.after_sweep(now).wf(),
        registry.last_active_id <= registry.after_sweep(now).last_active_id,
{
    let after = registry.after_sweep(now);
    let from = registry.last_active_id - 1;
    if exists|i: int| registry.is_first_active(i, now) {
        let i = choose|i: int| registry.is_first_active(i, now);
        assert(registry.is_first_active(i, now));
    } else {
        lemma_none_active(registry, now, registry.games.len() as int);
    }
    let to = after.last_active_id - 1;
    assert(forall|j: int| from <= j < to ==> !(#[trigger] registry.games[j]).active_at(now));
    assert forall|i: int| 0 <= i < after.games.len() implies (#[trigger] after.games[i]).id == i + 1
        && after.games[i].wf() by {
        assert(registry.games[i].wf());
        if from <= i < to {
            assert(!registry.games[i].active_at(now));
            lemma_settled_wf(registry.games[i], now);
        }
    }
    assert forall|i: int| 0 <= i < after.last_active_id - 1 implies (
    #[trigger] after.games[i]).status != GameStatus::Active by {
        if from <= i {
            assert(!registry.games[i].active_at(now));
        } else {
            assert(registry.games[i].status != GameStatus::Active);
        }
    }
}

/// Sweeps the registry at `now`. From the cursor on, each game that no
/// longer accepts shots has its status settled and is passed by; the cursor
/// stops at the first game that accepts shots, or past the last game.
pub fn update_last_active_id(registry: &mut Registry, now: u64)
    requires
        old(registry)@.wf(),
    ensures
        final(registry)@ == old(registry)@.after_sweep(now),
        final(registry)@.wf(),
{
    let ghost before = registry@;
    let ghost from = before.last_active_id - 1;
    let count: usize = registry.games.len();
    let mut index: usize = (registry.last_active_id - 1) as usize;
    while index < count && !is_game_active(&registry.games[index], now)
        invariant
            before.wf(),
            from == before.last_active_id - 1,
            count == registry.games.len(),
            count == before.games.len(),
            from <= index <= count,
            registry.next_id == before.next_id,
            registry.last_active_id == before.last_active_id,
            registry.forbid_owner_shots == before.forbid_owner_shots,
            forall|j: int| from <= j < index ==> !(#[trigger] before.games[j]).active_at(now),
            registry@.games == settled_between(before.games, from, index as int, now),
        decreases count - index,
    {
        proof {
            assert(registry@.games[index as int] == before.games[index as int]);
            assert(registry.games[index as int]@ == before.games[index as int]);
            assert(before.games[index as int].wf());
        }
        let ghost mid = registry.games@;
        registry.games[index].settle(now);
        proof {
            assert forall|i: int| 0 <= i < count implies #[trigger] registry@.games[i]
                == settled_between(before.games, from, index + 1, now)[i] by {
                if i != index {
                    assert(registry.games@[i] == mid[i]);
                    assert(mid[i]@ == settled_between(before.games, from, index as int, now)[i]);
                }
            }
            assert(registry@.games =~= settled_between(before.games, from, index + 1, now));
        }
        index += 1;
    }
    registry.last_active_id = index as u128 + 1;
    proof {
        if index < count {
            assert(registry@.games[index as int] == before.games[index as int]);
            assert(before.is_first_active(index as int, now));
            let i = choose|i: int| before.is_first_active(i, now);
            assert(before.is_first_active(i, now));
            if i < index {
                assert(!before.games[i].active_at(now));
            }
            assert(i == index);
        } else {
            assert forall|i: int| !before.is_first_active(i, now) by {
                if from <= i < count {
                    assert(!before.games[i].active_at(now));
                }
            }
        }
        assert(registry@.games =~= before.after_sweep(now).games);
        lemma_after_sweep_wf(before, now);
    }
}

} // verus!
