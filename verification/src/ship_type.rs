//! The catalog of ship kinds: an enumerated, finite set, each kind with a
//! fixed cell length.

use vstd::prelude::*;

verus! {

/// The five ship kinds of the fleet. Each kind may be placed at most once on
/// one board.
#[derive(Clone, Copy, PartialEq, Eq, Structural, Debug, Hash)]
pub enum ShipType {
    Carrier,
    Battleship,
    Cruiser,
    Submarine,
    Destroyer,
}

/// Length in cells of each ship kind: Carrier 5, Battleship 4, Cruiser 3,
/// Submarine 3, Destroyer 2.
pub open spec fn ship_size(t: ShipType) -> int {
    match t {
        ShipType::Carrier => 5,
        ShipType::Battleship => 4,
        ShipType::Cruiser => 3,
        ShipType::Submarine => 3,
        ShipType::Destroyer => 2,
    }
}

/// A set of ship kinds is a full fleet when it holds every kind of the
/// catalog.
pub open spec fn full_fleet(s: Set<ShipType>) -> bool {
    &&& s.contains(ShipType::Carrier)
    &&& s.contains(ShipType::Battleship)
    &&& s.contains(ShipType::Cruiser)
    &&& s.contains(ShipType::Submarine)
    &&& s.contains(ShipType::Destroyer)
}

impl ShipType {
    /// How many consecutive cells a ship of this kind occupies.
    pub fn size(&self) -> (r: usize)
        ensures
            r as int == ship_size(*self),
            2 <= r <= 5,
    {
        match self {
            ShipType::Carrier => 5,
            ShipType::Battleship => 4,
            ShipType::Cruiser => 3,
            ShipType::Submarine => 3,
            ShipType::Destroyer => 2,
        }
    }
}

} // verus!
