//! The two rendered views of a board: the owner's, which shows intact
//! ships, and the opponent's, which renders them as blank. Both are pure,
//! row-major renderings with a header of column letters and 1-based row
//! labels.

use vstd::prelude::*;
use vstd::string::StringExecFns;

use crate::cell::CellState;
use crate::cell::blank;
use crate::cell::symbol;
use crate::cell::symbol_str;
use crate::coord::GRID_SIZE;
use crate::player::Player;
use crate::player::in_grid;

verus! {

/// The header line: column letters above the cells.
pub open spec fn header_chars() -> Seq<char> {
    "   A B C D E F G H I J\n"@
}

/// The digit character of a row number 1 to 9.
pub open spec fn digit_char(d: int) -> char {
    if d == 1 {
        '1'
    } else if d == 2 {
        '2'
    } else if d == 3 {
        '3'
    } else if d == 4 {
        '4'
    } else if d == 5 {
        '5'
    } else if d == 6 {
        '6'
    } else if d == 7 {
        '7'
    } else if d == 8 {
        '8'
    } else {
        '9'
    }
}

/// The two-character 1-based label of row `y`.
pub open spec fn row_label(y: int) -> Seq<char> {
    if y == 9 {
        seq!['1', '0']
    } else {
        seq![' ', digit_char(y + 1)]
    }
}

/// The symbols of the first `n` cells of row `y`, each preceded by a space.
pub open spec fn row_cells_chars(p: Player, y: int, n: int, owner: bool) -> Seq<char>
    decreases n,
{
    if n <= 0 {
        Seq::empty()
    } else {
        row_cells_chars(p, y, n - 1, owner) + seq![' ', symbol(p.cell(n - 1, y), owner)]
    }
}

/// One rendered line: the row label, the ten cell symbols, a line break.
pub open spec fn row_chars(p: Player, y: int, owner: bool) -> Seq<char> {
    row_label(y) + row_cells_chars(p, y, GRID_SIZE as int, owner) + seq!['\n']
}

/// The first `n` rendered lines, top row first.
pub open spec fn rows_chars(p: Player, n: int, owner: bool) -> Seq<char>
    decreases n,
{
    if n <= 0 {
        Seq::empty()
    } else {
        rows_chars(p, n - 1, owner) + row_chars(p, n - 1, owner)
    }
}

/// The whole rendered board: header line, then every row.
pub open spec fn render_chars(p: Player, owner: bool) -> Seq<char> {
    header_chars() + rows_chars(p, GRID_SIZE as int, owner)
}

/// The two-character label of row `y`, 1-based.
fn row_label_str(y: usize) -> (r: &'static str)
    requires
        y < GRID_SIZE,
    ensures
        r@ =~= row_label(y as int),
{
    proof {
        reveal_strlit(" 1");
        reveal_strlit(" 2");
        reveal_strlit(" 3");
        reveal_strlit(" 4");
        reveal_strlit(" 5");
        reveal_strlit(" 6");
        reveal_strlit(" 7");
        reveal_strlit(" 8");
        reveal_strlit(" 9");
        reveal_strlit("10");
    }
    if y == 0 {
        " 1"
    } else if y == 1 {
        " 2"
    } else if y == 2 {
        " 3"
    } else if y == 3 {
        " 4"
    } else if y == 4 {
        " 5"
    } else if y == 5 {
        " 6"
    } else if y == 6 {
        " 7"
    } else if y == 7 {
        " 8"
    } else if y == 8 {
        " 9"
    } else {
        "10"
    }
}

impl Player {
    /// Render the board, showing intact ships exactly when `owner` holds.
    #[verifier::loop_isolation(false)]
    fn render(&self, owner: bool) -> (r: String)
        requires
            self.wf(),
        ensures
            r@ =~= render_chars(*self, owner),
    {
        let mut out = String::new();
        out.append("   A B C D E F G H I J\n");
        proof {
            assert(out@ =~= header_chars());
        }
        let mut y: usize = 0;
        while y < GRID_SIZE
            invariant
                y <= GRID_SIZE,
                out@ =~= header_chars() + rows_chars(*self, y as int, owner),
            decreases GRID_SIZE - y,
        {
            out.append(row_label_str(y));
            let mut x: usize = 0;
            while x < GRID_SIZE
                invariant
                    x <= GRID_SIZE,
                    y < GRID_SIZE,
                    out@ =~= header_chars() + rows_chars(*self, y as int, owner) + row_label(
                        y as int,
                    ) + row_cells_chars(*self, y as int, x as int, owner),
                decreases GRID_SIZE - x,
            {
                out.append(" ");
                out.append(symbol_str(self.cell_at(x, y), owner));
                proof {
                    reveal_strlit(" ");
                    assert(row_cells_chars(*self, y as int, x + 1 as int, owner)
                        =~= row_cells_chars(*self, y as int, x as int, owner) + seq![
                        ' ',
                        symbol(self.cell(x as int, y as int), owner),
                    ]);
                }
                x += 1;
            }
            out.append("\n");
            proof {
                reveal_strlit("\n");
                assert(rows_chars(*self, y + 1 as int, owner) =~= rows_chars(*self, y as int, owner)
                    + row_chars(*self, y as int, owner));
            }
            y += 1;
        }
        out
    }

    /// The owner's view: empty cells blank, intact ships marked, resolved
    /// shots marked as miss or hit.
    pub fn owner_view(&self) -> (r: String)
        requires
            self.wf(),
        ensures
            r@ =~= render_chars(*self, true),
    {
        self.render(true)
    }

    /// The opponent's view: only resolved shots are marked; an intact,
    /// unshot ship renders as blank, exactly like an empty cell.
    pub fn opponent_view(&self) -> (r: String)
        requires
            self.wf(),
        ensures
            r@ =~= render_chars(*self, false),
    {
        self.render(false)
    }
}

/// Length in characters of the header line and of each rendered row line.
pub open spec fn line_len() -> int {
    23
}

/// Character position of the symbol of cell `(x, y)` inside a rendered
/// board: past the header line and `y` whole lines, then past the two-column
/// row label and `x` earlier two-character cells, on the second character of
/// the cell.
pub open spec fn cell_char_index(x: int, y: int) -> int {
    line_len() + y * line_len() + 2 + 2 * x + 1
}

proof fn lemma_row_cells_len(p: Player, y: int, n: int, owner: bool)
    requires
        n >= 0,
    ensures
        row_cells_chars(p, y, n, owner).len() == 2 * n,
    decreases n,
{
    if n > 0 {
        lemma_row_cells_len(p, y, n - 1, owner);
    }
}

proof fn lemma_rows_len(p: Player, n: int, owner: bool)
    requires
        n >= 0,
    ensures
        rows_chars(p, n, owner).len() == n * line_len(),
    decreases n,
{
    if n > 0 {
        lemma_rows_len(p, n - 1, owner);
        lemma_row_cells_len(p, n - 1, GRID_SIZE as int, owner);
    }
}

proof fn lemma_row_cells_index(p: Player, y: int, n: int, owner: bool, x: int)
    requires
        0 <= x < n,
    ensures
        row_cells_chars(p, y, n, owner)[2 * x] == ' ',
        row_cells_chars(p, y, n, owner)[2 * x + 1] == symbol(p.cell(x, y), owner),
    decreases n,
{
    lemma_row_cells_len(p, y, n - 1, owner);
    if x < n - 1 {
        lemma_row_cells_index(p, y, n - 1, owner, x);
    }
}

proof fn lemma_rows_index(p: Player, n: int, owner: bool, y: int, k: int)
    requires
        0 <= y < n,
        0 <= k < line_len(),
    ensures
        rows_chars(p, n, owner)[y * line_len() + k] == row_chars(p, y, owner)[k],
    decreases n,
{
    lemma_rows_len(p, n - 1, owner);
    lemma_row_cells_len(p, n - 1, GRID_SIZE as int, owner);
    if y < n - 1 {
        lemma_rows_index(p, n - 1, owner, y, k);
    }
}

/// Inside a rendered board, the character at `cell_char_index(x, y)` is the
/// symbol of cell `(x, y)`.
pub proof fn lemma_render_cell(p: Player, owner: bool, x: int, y: int)
    requires
        in_grid(x, y),
    ensures
        0 <= cell_char_index(x, y) < render_chars(p, owner).len(),
        render_chars(p, owner)[cell_char_index(x, y)] == symbol(p.cell(x, y), owner),
{
    reveal_strlit("   A B C D E F G H I J\n");
    assert(header_chars().len() == line_len());
    lemma_rows_len(p, GRID_SIZE as int, owner);
    lemma_rows_index(p, GRID_SIZE as int, owner, y, 2 * x + 3);
    lemma_row_cells_len(p, y, GRID_SIZE as int, owner);
    lemma_row_cells_index(p, y, GRID_SIZE as int, owner, x);
    assert(row_chars(p, y, owner)[2 * x + 3] == row_cells_chars(p, y, GRID_SIZE as int, owner)[2
        * x + 1]);
}

/// Whether two boards agree on every resolved shot: the same cells hold a
/// miss and the same cells hold a hit, whatever ships either carries.
pub open spec fn shots_agree(p: Player, q: Player) -> bool {
    forall|x: int, y: int|
        #[trigger] in_grid(x, y) ==> ((p.cell(x, y) == CellState::ShotMiss <==> q.cell(x, y)
            == CellState::ShotMiss) && (p.cell(x, y) == CellState::ShotHit <==> q.cell(x, y)
            == CellState::ShotHit))
}

proof fn lemma_row_cells_hidden(p: Player, q: Player, y: int, n: int)
    requires
        shots_agree(p, q),
        0 <= y < GRID_SIZE as int,
        n <= GRID_SIZE as int,
    ensures
        row_cells_chars(p, y, n, false) == row_cells_chars(q, y, n, false),
    decreases n,
{
    if n > 0 {
        lemma_row_cells_hidden(p, q, y, n - 1);
        assert(in_grid(n - 1, y));
        assert(symbol(p.cell(n - 1, y), false) == symbol(q.cell(n - 1, y), false));
    }
}

proof fn lemma_rows_hidden(p: Player, q: Player, n: int)
    requires
        shots_agree(p, q),
        n <= GRID_SIZE as int,
    ensures
        rows_chars(p, n, false) == rows_chars(q, n, false),
    decreases n,
{
    if n > 0 {
        lemma_rows_hidden(p, q, n - 1);
        lemma_row_cells_hidden(p, q, n - 1, GRID_SIZE as int);
    }
}

/// The opponent view is a function of the resolved shots alone: two boards
/// with the same misses and hits render identically to the opponent, however
/// their intact ships differ. An unshot ship is invisible there.
pub proof fn lemma_opponent_view_hides_ships(p: Player, q: Player)
    requires
        shots_agree(p, q),
    ensures
        render_chars(p, false) == render_chars(q, false),
{
    lemma_rows_hidden(p, q, GRID_SIZE as int);
}

/// A cell holding an intact ship renders distinctly from blank to its owner
/// and as blank — indistinguishable from an empty cell — to the opponent.
pub proof fn lemma_ship_cell_rendering(p: Player, x: int, y: int)
    requires
        in_grid(x, y),
        p.cell(x, y) == CellState::ShipIntact,
    ensures
        render_chars(p, true)[cell_char_index(x, y)] != blank(),
        render_chars(p, false)[cell_char_index(x, y)] == blank(),
{
    lemma_render_cell(p, true, x, y);
    lemma_render_cell(p, false, x, y);
}

} // verus!
