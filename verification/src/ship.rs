//! Ships: placing them, asking what they occupy, and hitting them.

use vstd::prelude::*;
use crate::msg::ShipConstructor;
use crate::state::HitOutcome;
use crate::state::Pos;
use crate::state::Ship;
use crate::state::ShipView;
use crate::state::all_hit;
use crate::state::fleet_view;
use crate::state::run_tile;

verus! {

/// Whether the run of squares that `c` asks for can be written down at all:
/// its last coordinate must not exceed 255.
pub open spec fn placement_fits(c: ShipConstructor) -> bool {
    if c.is_horizontal {
        c.position.x + c.ship_type.spec_length() <= 256
    } else {
        c.position.y + c.ship_type.spec_length() <= 256
    }
}

/// The fresh ship that the placement `c` describes: the run of squares from
/// the anchor, none of them hit.
pub open spec fn placed_ship(c: ShipConstructor) -> ShipView {
    ShipView {
        ship_type: c.ship_type,
        x: c.position.x,
        y: c.position.y,
        is_horizontal: c.is_horizontal,
        tiles: Seq::new(
            c.ship_type.spec_length(),
            |k: int| run_tile(c.position.x, c.position.y, c.is_horizontal, k),
        ),
        hits: Seq::new(c.ship_type.spec_length(), |k: int| false),
        is_sunk: false,
    }
}

/// The fresh fleet that a list of placements describes, ship by ship.
pub open spec fn placed_fleet(placements: Seq<ShipConstructor>) -> Seq<ShipView> {
    Seq::new(placements.len(), |i: int| placed_ship(placements[i]))
}

impl ShipView {
    /// Index of the square `(x, y)` among the ship's squares.
    pub open spec fn tile_index(self, x: u8, y: u8) -> int {
        self.tiles.index_of(Pos { x, y })
    }

    /// The ship after a hit attempt at `(x, y)`: if the square is one of its
    /// own, the flag of that square is set, and the ship is sunk if all flags
    /// are then set.
    pub open spec fn after_hit(self, x: u8, y: u8) -> ShipView {
        if self.occupies(x, y) {
            let hits = self.hits.update(self.tile_index(x, y), true);
            ShipView { hits, is_sunk: all_hit(hits), ..self }
        } else {
            self
        }
    }

    /// What a hit attempt at `(x, y)` reports: `NoEffect` when the square is
    /// not the ship's or the ship was sunk before; `Sunk` when the hit
    /// completes the ship's flags; `Hit` otherwise.
    pub open spec fn hit_outcome(self, x: u8, y: u8) -> HitOutcome {
        if !self.occupies(x, y) || self.is_sunk {
            HitOutcome::NoEffect
        } else if self.after_hit(x, y).is_sunk {
            HitOutcome::Sunk
        } else {
            HitOutcome::Hit
        }
    }
}

/// The squares of a well-formed ship are pairwise different, so a square has
/// one index only.
pub proof fn lemma_tile_index_unique(ship: ShipView, k: int)
    requires
        ship.wf(),
        0 <= k < ship.tiles.len(),
    ensures
        ship.occupies(ship.tiles[k].x, ship.tiles[k].y),
        ship.tile_index(ship.tiles[k].x, ship.tiles[k].y) == k,
{
    let pos = ship.tiles[k];
    assert(pos == Pos { x: pos.x, y: pos.y });
    assert(ship.tiles.contains(pos));
    let j = ship.tiles.index_of(pos);
    assert(0 <= j < ship.tiles.len() && ship.tiles[j] == pos);
    assert(ship.tiles[j] == run_tile(ship.x, ship.y, ship.is_horizontal, j));
    assert(ship.tiles[k] == run_tile(ship.x, ship.y, ship.is_horizontal, k));
}

/// A freshly placed ship is well formed whenever its run fits.
pub proof fn lemma_placed_ship_wf(c: ShipConstructor)
    requires
        placement_fits(c),
    ensures
        placed_ship(c).wf(),
        !placed_ship(c).is_sunk,
{
    let s = placed_ship(c);
    assert(!s.hits[0]);
}

impl Ship {
    /// Builds the ship that the placement `c` describes.
    pub fn place(c: ShipConstructor) -> (ship: Ship)
        requires
            placement_fits(c),
        ensures
            ship@ == placed_ship(c),
            ship@.wf(),
    {
        let length: u8 = c.ship_type.length();
        let mut tiles: Vec<Pos> = Vec::new();
        let mut hits: Vec<bool> = Vec::new();
        let mut i: u8 = 0;
        while i < length
            invariant
                placement_fits(c),
                length == c.ship_type.spec_length(),
                i <= length,
                tiles.len() == i,
                hits.len() == i,
                forall|k: int|
                    0 <= k < i ==> tiles[k] == run_tile(
                        c.position.x,
                        c.position.y,
                        c.is_horizontal,
                        k,
                    ),
                forall|k: int| 0 <= k < i ==> !hits[k],
            decreases length - i,
        {
            if c.is_horizontal {
                tiles.push(Pos { x: c.position.x + i, y: c.position.y });
            } else {
                tiles.push(Pos { x: c.position.x, y: c.position.y + i });
            }
            hits.push(false);
            i += 1;
        }
        let ship = Ship {
            ship_type: c.ship_type,
            x: c.position.x,
            y: c.position.y,
            is_horizontal: c.is_horizontal,
            tiles,
            hits,
            is_sunk: false,
        };
        proof {
            assert(ship@.tiles =~= placed_ship(c).tiles);
            assert(ship@.hits =~= placed_ship(c).hits);
            lemma_placed_ship_wf(c);
        }
        ship
    }

    /// Whether `(x, y)` is one of the ship's squares.
    pub fn occupies(&self, x: u8, y: u8) -> (found: bool)
        ensures
            found == self@.occupies(x, y),
    {
        let mut i: usize = 0;
        while i < self.tiles.len()
            invariant
                i <= self.tiles.len(),
                forall|k: int| 0 <= k < i ==> self.tiles[k] != (Pos { x, y }),
            decreases self.tiles.len() - i,
        {
            if self.tiles[i].x == x && self.tiles[i].y == y {
                assert(self.tiles@[i as int] == Pos { x, y });
                return true;
            }
            i += 1;
        }
        false
    }

    /// Marks the square `(x, y)` as hit and reports what that did. The sunk
    /// flag goes from false to true with the hit that sets the last missing
    /// flag, and never back. A square that is not the ship's, or that was hit
    /// before, leaves the ship as it was; so does any hit on a sunk ship.
    pub fn apply_hit(&mut self, x: u8, y: u8) -> (outcome: HitOutcome)
        requires
            old(self)@.wf(),
        ensures
            final(self)@ == old(self)@.after_hit(x, y),
            outcome == old(self)@.hit_outcome(x, y),
            final(self)@.wf(),
    {
        let n: usize = self.tiles.len();
        let mut i: usize = 0;
        while i < n && !(self.tiles[i].x == x && self.tiles[i].y == y)
            invariant
                n == self.tiles.len(),
                i <= n,
                forall|k: int| 0 <= k < i ==> self.tiles[k] != (Pos { x, y }),
            decreases n - i,
        {
            i += 1;
        }
        if i == n {
            return HitOutcome::NoEffect;
        }
        proof {
            assert(self.tiles@[i as int] == Pos { x, y });
            lemma_tile_index_unique(self@, i as int);
        }
        if self.is_sunk {
            assert(self@.hits.update(i as int, true) =~= self@.hits);
            return HitOutcome::NoEffect;
        }
        self.hits[i] = true;
        let mut sunk: bool = true;
        let mut k: usize = 0;
        while k < n
            invariant
                n == self.hits.len(),
                k <= n,
                sunk == (forall|j: int| 0 <= j < k ==> self.hits[j]),
            decreases n - k,
        {
            if !self.hits[k] {
                sunk = false;
            }
            k += 1;
        }
        self.is_sunk = sunk;
        if sunk {
            HitOutcome::Sunk
        } else {
            HitOutcome::Hit
        }
    }
}

/// Builds the fleet that a list of placements describes: for each placement,
/// in order, the run of squares from its anchor with no square hit.
pub fn generate_real_ships(ships: &Vec<ShipConstructor>) -> (fleet: Vec<Ship>)
    requires
        forall|i: int| 0 <= i < ships.len() ==> placement_fits(#[trigger] ships[i]),
    ensures
        fleet_view(fleet@) == placed_fleet(ships@),
        forall|i: int| 0 <= i < fleet.len() ==> (#[trigger] fleet[i])@.wf(),
{
    let mut fleet: Vec<Ship> = Vec::new();
    let mut i: usize = 0;
    while i < ships.len()
        invariant
            i <= ships.len(),
            fleet.len() == i,
            forall|j: int| 0 <= j < ships.len() ==> placement_fits(#[trigger] ships[j]),
            forall|j: int| 0 <= j < i ==> (#[trigger] fleet[j])@ == placed_ship(ships[j]),
            forall|j: int| 0 <= j < i ==> (#[trigger] fleet[j])@.wf(),
        decreases ships.len() - i,
    {
        let ship = Ship::place(ships[i]);
        fleet.push(ship);
        i += 1;
    }
    assert(fleet_view(fleet@) =~= placed_fleet(ships@));
    fleet
}

} // verus!
