//! The per-cell state of the board, and the symbol each state renders to in
//! the two views of a board.

use vstd::prelude::*;

verus! {

/// State of one grid cell. `ShotMiss` and `ShotHit` are first-class states
/// reserved for a future shot-resolution component: no operation of this
/// library produces them, but the views already render them.
#[derive(Clone, Copy, PartialEq, Eq, Structural, Debug)]
pub enum CellState {
    Empty,
    ShipIntact,
    ShotMiss,
    ShotHit,
}

/// The blank symbol: what a cell renders to when nothing is shown there.
pub open spec fn blank() -> char {
    ' '
}

/// Symbol a cell state renders to. The owner's view shows intact ships; the
/// opponent's view renders them as blank, so that unshot ship positions are
/// never revealed.
pub open spec fn symbol(c: CellState, owner: bool) -> char {
    match c {
        CellState::Empty => blank(),
        CellState::ShipIntact => if owner {
            '#'
        } else {
            blank()
        },
        CellState::ShotMiss => 'o',
        CellState::ShotHit => 'x',
    }
}

/// The opponent's view renders an intact ship exactly as it renders an empty
/// cell, while the owner's view renders it distinctly from blank; resolved
/// shots render the same in both views.
pub proof fn lemma_view_symbols()
    ensures
        symbol(CellState::ShipIntact, false) == blank(),
        symbol(CellState::Empty, false) == blank(),
        symbol(CellState::ShipIntact, true) != blank(),
        forall|c: CellState| symbol(c, false) != blank() ==> c == CellState::ShotMiss || c
            == CellState::ShotHit,
        forall|c: CellState| symbol(c, true) == symbol(c, false) || c == CellState::ShipIntact,
{
}

/// Executable symbol lookup, as a one-character string slice.
pub fn symbol_str(c: CellState, owner: bool) -> (r: &'static str)
    ensures
        r@ =~= seq![symbol(c, owner)],
{
    proof {
        reveal_strlit(" ");
        reveal_strlit("#");
        reveal_strlit("o");
        reveal_strlit("x");
    }
    match c {
        CellState::Empty => " ",
        CellState::ShipIntact => if owner {
            "#"
        } else {
            " "
        },
        CellState::ShotMiss => "o",
        CellState::ShotHit => "x",
    }
}

} // verus!
