//! Lifetime statistics of one player.
//!
//! Each counter only ever grows. A counter that has reached the largest
//! value its type can hold stays there.

use vstd::prelude::*;

verus! {

/// Running totals of what one player did and what it cost and earned.
#[derive(Clone, Copy, Debug, PartialEq, Eq, Structural)]
pub struct PlayerStats {
    pub games_created: u64,
    pub shots_fired: u64,
    pub ships_sunk: u64,
    pub tokens_spent: u128,
    pub tokens_won: u128,
}

/// `count + 1`, held at the largest 64-bit value.
pub open spec fn bump(count: u64) -> u64 {
    if count < u64::MAX {
        (count + 1) as u64
    } else {
        u64::MAX
    }
}

/// `total + amount`, held at the largest 128-bit value.
pub open spec fn accrue(total: u128, amount: u128) -> u128 {
    if total + amount <= u128::MAX {
        (total + amount) as u128
    } else {
        u128::MAX
    }
}

impl PlayerStats {
    /// The statistics of a player who has done nothing yet.
    pub open spec fn spec_new() -> PlayerStats {
        PlayerStats {
            games_created: 0,
            shots_fired: 0,
            ships_sunk: 0,
            tokens_spent: 0,
            tokens_won: 0,
        }
    }

    /// The statistics after the player created a game.
    pub open spec fn after_game_created(self) -> PlayerStats {
        PlayerStats { games_created: bump(self.games_created), ..self }
    }

    /// The statistics after the player fired a shot that cost `cost`.
    pub open spec fn after_shot(self, cost: u128) -> PlayerStats {
        PlayerStats {
            shots_fired: bump(self.shots_fired),
            tokens_spent: accrue(self.tokens_spent, cost),
            ..self
        }
    }

    /// The statistics after the player sank a ship worth `reward`.
    pub open spec fn after_sunk(self, reward: u128) -> PlayerStats {
        PlayerStats {
            ships_sunk: bump(self.ships_sunk),
            tokens_won: accrue(self.tokens_won, reward),
            ..self
        }
    }

    /// Whether no counter of `self` is below the same counter of `earlier`.
    pub open spec fn no_less_than(self, earlier: PlayerStats) -> bool {
        &&& self.games_created >= earlier.games_created
        &&& self.shots_fired >= earlier.shots_fired
        &&& self.ships_sunk >= earlier.ships_sunk
        &&& self.tokens_spent >= earlier.tokens_spent
        &&& self.tokens_won >= earlier.tokens_won
    }

    /// The statistics of a player who has done nothing yet: every counter is
    /// zero.
    pub fn new() -> (stats: PlayerStats)
        ensures
            stats == Self::spec_new(),
    {
        PlayerStats {
            games_created: 0,
            shots_fired: 0,
            ships_sunk: 0,
            tokens_spent: 0,
            tokens_won: 0,
        }
    }

    /// The statistics of a player as looked up in a store that knows only
    /// the players who have done something: what was found, or the
    /// statistics of a player who has done nothing yet.
    pub fn or_new(found: Option<PlayerStats>) -> (stats: PlayerStats)
        ensures
            stats == match found {
                Some(known) => known,
                None => Self::spec_new(),
            },
    {
        match found {
            Some(known) => known,
            None => PlayerStats::new(),
        }
    }
}

/// Records that the player created a game.
pub fn record_game_created(player: &mut PlayerStats)
    ensures
        *final(player) == old(player).after_game_created(),
        final(player).no_less_than(*old(player)),
{
    player.games_created = player.games_created.saturating_add(1);
}

/// Records that the player fired a shot and paid `cost` for it.
pub fn record_shot(player: &mut PlayerStats, cost: u128)
    ensures
        *final(player) == old(player).after_shot(cost),
        final(player).no_less_than(*old(player)),
{
    player.shots_fired = player.shots_fired.saturating_add(1);
    player.tokens_spent = player.tokens_spent.saturating_add(cost);
}

/// Records that the player sank a ship and won `reward` for it.
pub fn record_sunk(player: &mut PlayerStats, reward: u128)
    ensures
        *final(player) == old(player).after_sunk(reward),
        final(player).no_less_than(*old(player)),
{
    player.ships_sunk = player.ships_sunk.saturating_add(1);
    player.tokens_won = player.tokens_won.saturating_add(reward);
}

} // verus!
