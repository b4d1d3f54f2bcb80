//! Structured, recoverable failures of parsing and placement. Every failure
//! is a deterministic function of the current state and the request; nothing
//! in this library panics or aborts.

use vstd::prelude::*;

verus! {

/// Why a coordinate failed to parse or a placement was rejected.
#[derive(Clone, Copy, PartialEq, Eq, Structural, Debug)]
pub enum PlaceError {
    /// The coordinate text has fewer than 2 characters.
    InvalidFormat,
    /// The text after the column letter is not a string of decimal digits.
    InvalidNumber,
    /// The column or a ship cell falls outside the grid, or the row number is
    /// 0 or exceeds the grid side.
    OutOfBounds,
    /// The direction is none of 'N', 'E', 'S', 'W'.
    InvalidDirection,
    /// The player already placed the full fleet and refuses more placements.
    AlreadyReady,
    /// This ship kind was already placed on this board.
    DuplicateShip,
    /// A candidate cell already holds an intact ship.
    Overlap,
}

impl PlaceError {
    /// A short human-readable description of the failure.
    pub fn describe(&self) -> (r: &'static str)
        ensures
            r@.len() > 0,
    {
        let r = match self {
            PlaceError::InvalidFormat => "coordinate needs a column letter and a row number",
            PlaceError::InvalidNumber => "row is not a number",
            PlaceError::OutOfBounds => "outside the grid",
            PlaceError::InvalidDirection => "direction must be N, E, S or W",
            PlaceError::AlreadyReady => "fleet already complete",
            PlaceError::DuplicateShip => "this ship kind is already placed",
            PlaceError::Overlap => "overlaps a placed ship",
        };
        proof {
            reveal_strlit("coordinate needs a column letter and a row number");
            reveal_strlit("row is not a number");
            reveal_strlit("outside the grid");
            reveal_strlit("direction must be N, E, S or W");
            reveal_strlit("fleet already complete");
            reveal_strlit("this ship kind is already placed");
            reveal_strlit("overlaps a placed ship");
        }
        r
    }
}

} // verus!
