//! The board/placement engine of one player: a fixed square grid of cell
//! states, the set of already-placed ship kinds, a readiness flag, and an
//! optional identity handle assigned by an external session layer.

use vstd::prelude::*;
use vstd::pervasive::VecAdditionalExecFns;

use crate::cell::CellState;
use crate::coord::GRID_SIZE;
use crate::coord::parse_coordinate;
use crate::coord::parse_spec;
use crate::error::PlaceError;
use crate::ship_type::ShipType;
use crate::ship_type::full_fleet;
use crate::ship_type::ship_size;

verus! {

/// Number of cells of the board.
pub const GRID_CELLS: usize = 100;

/// Whether a zero-based coordinate pair lies on the board.
pub open spec fn in_grid(x: int, y: int) -> bool {
    0 <= x < GRID_SIZE as int && 0 <= y < GRID_SIZE as int
}

/// Unit step of each direction: north and south move along rows, east and
/// west along columns.
pub open spec fn dir_step(dir: char) -> Option<(int, int)> {
    if dir == 'N' {
        Some((0, -1))
    } else if dir == 'E' {
        Some((1, 0))
    } else if dir == 'S' {
        Some((0, 1))
    } else if dir == 'W' {
        Some((-1, 0))
    } else {
        None
    }
}

/// The ordered cells a ship occupies: `len` cells from `(x, y)` stepping by
/// `(dx, dy)`, the start cell included.
pub open spec fn ship_cells(x: int, y: int, dx: int, dy: int, len: int) -> Seq<(int, int)> {
    Seq::new(len as nat, |i: int| (x + dx * i, y + dy * i))
}

/// Whether every candidate cell lies on the board.
pub open spec fn cells_in_grid(cells: Seq<(int, int)>) -> bool {
    forall|i: int| 0 <= i < cells.len() ==> in_grid((#[trigger] cells[i]).0, cells[i].1)
}

/// Whether no candidate cell already holds an intact ship of `p`.
pub open spec fn cells_clear(p: Player, cells: Seq<(int, int)>) -> bool {
    forall|i: int|
        0 <= i < cells.len() ==> p.cell((#[trigger] cells[i]).0, cells[i].1)
            != CellState::ShipIntact
}

/// One player's engine. Created empty; mutated only through `place_ship` and
/// `set_identity`; queried through the two views.
pub struct Player {
    identity: Option<String>,
    grid: Vec<CellState>,
    placed: Vec<ShipType>,
    ready: bool,
}

impl Player {
    /// The grid, row-major: the cell at `(x, y)` sits at index
    /// `y * GRID_SIZE + x`.
    pub closed spec fn grid_seq(self) -> Seq<CellState> {
        self.grid@
    }

    /// The ship kinds placed so far, in placement order.
    pub closed spec fn placed_seq(self) -> Seq<ShipType> {
        self.placed@
    }

    /// The set of ship kinds placed so far.
    pub open spec fn placed_set(self) -> Set<ShipType> {
        self.placed_seq().to_set()
    }

    /// The readiness flag.
    pub closed spec fn is_ready(self) -> bool {
        self.ready
    }

    /// The identity handle, if the session layer assigned one.
    pub closed spec fn id_view(self) -> Option<Seq<char>> {
        match self.identity {
            Some(s) => Some(s@),
            None => None,
        }
    }

    /// State of the cell at zero-based `(x, y)`.
    pub open spec fn cell(self, x: int, y: int) -> CellState {
        self.grid_seq()[y * GRID_SIZE as int + x]
    }

    /// Well-formedness: the grid has exactly one cell per board position, no
    /// ship kind is recorded twice, and the readiness flag holds exactly when
    /// the full fleet is placed.
    pub open spec fn wf(self) -> bool {
        &&& self.grid_seq().len() == GRID_CELLS as int
        &&& self.placed_seq().no_duplicates()
        &&& (self.is_ready() <==> full_fleet(self.placed_set()))
    }

    /// A freshly created engine: well-formed, every cell empty, nothing
    /// placed, not ready, no identity.
    pub open spec fn fresh(self) -> bool {
        &&& self.wf()
        &&& self.placed_seq().len() == 0
        &&& !self.is_ready()
        &&& self.id_view() is None
        &&& forall|x: int, y: int| in_grid(x, y) ==> self.cell(x, y) == CellState::Empty
    }

    /// A new engine with an all-empty board and no ships placed.
    pub fn new() -> (r: Player)
        ensures
            r.fresh(),
    {
        let mut grid: Vec<CellState> = Vec::new();
        let mut i: usize = 0;
        while i < GRID_CELLS
            invariant
                i <= GRID_CELLS,
                grid@.len() == i,
                forall|j: int| 0 <= j < i ==> grid@[j] == CellState::Empty,
            decreases GRID_CELLS - i,
        {
            grid.push(CellState::Empty);
            i += 1;
        }
        let r = Player { identity: None, grid, placed: Vec::new(), ready: false };
        proof {
            assert(!full_fleet(r.placed_set()));
        }
        r
    }

    /// Whether this ship kind was already placed on this board.
    pub fn has_placed(&self, kind: ShipType) -> (r: bool)
        ensures
            r == self.placed_set().contains(kind),
    {
        let mut i: usize = 0;
        while i < self.placed.len()
            invariant
                i <= self.placed@.len(),
                forall|j: int| 0 <= j < i ==> self.placed@[j] != kind,
            decreases self.placed@.len() - i,
        {
            if self.placed[i] == kind {
                proof {
                    assert(self.placed_seq().contains(kind));
                }
                return true;
            }
            i += 1;
        }
        proof {
            assert(!self.placed_seq().contains(kind));
        }
        false
    }

    /// The readiness flag: true exactly when the full fleet is placed.
    pub fn ready(&self) -> (r: bool)
        ensures
            r == self.is_ready(),
    {
        self.ready
    }

    /// Attach the identity handle an external session layer assigned. The
    /// board, the placed set and readiness are untouched.
    pub fn set_identity(&mut self, id: String)
        ensures
            final(self).id_view() == Some(id@),
            final(self).grid_seq() == old(self).grid_seq(),
            final(self).placed_seq() == old(self).placed_seq(),
            final(self).is_ready() == old(self).is_ready(),
            old(self).wf() ==> final(self).wf(),
    {
        self.identity = Some(id);
    }

    /// The identity handle, if one was assigned.
    pub fn identity(&self) -> (r: &Option<String>)
        ensures
            match *r {
                Some(s) => self.id_view() == Some(s@),
                None => self.id_view() is None,
            },
    {
        &self.identity
    }

    /// State of the cell at zero-based `(x, y)`.
    pub fn cell_at(&self, x: usize, y: usize) -> (r: CellState)
        requires
            self.wf(),
            x < GRID_SIZE,
            y < GRID_SIZE,
        ensures
            r == self.cell(x as int, y as int),
    {
        self.grid[y * GRID_SIZE + x]
    }

    /// The ship kinds placed so far, in placement order.
    pub fn placed_ships(&self) -> (r: &Vec<ShipType>)
        ensures
            r@ == self.placed_seq(),
    {
        &self.placed
    }

    /// Rebuild an engine from its plain parts, as a decoder hands them back:
    /// accepted exactly when the grid has one cell per position and no ship
    /// kind is listed twice. Readiness is derived state and is recomputed
    /// from the placed kinds.
    pub fn from_parts(identity: Option<String>, cells: Vec<CellState>, kinds: Vec<ShipType>) -> (r:
        Option<Player>)
        ensures
            match r {
                Some(p) => {
                    &&& cells@.len() == GRID_CELLS as int
                    &&& kinds@.no_duplicates()
                    &&& p.wf()
                    &&& p.grid_seq() == cells@
                    &&& p.placed_seq() == kinds@
                    &&& p.is_ready() == full_fleet(kinds@.to_set())
                    &&& p.id_view() == (match identity {
                        Some(s) => Some(s@),
                        None => None::<Seq<char>>,
                    })
                },
                None => cells@.len() != GRID_CELLS as int || !kinds@.no_duplicates(),
            },
    {
        if cells.len() != GRID_CELLS {
            return None;
        }
        let mut i: usize = 0;
        while i < kinds.len()
            invariant
                i <= kinds@.len(),
                forall|a: int, b: int| 0 <= a < b < i ==> kinds@[a] != kinds@[b],
            decreases kinds@.len() - i,
        {
            let mut j: usize = 0;
            while j < i
                invariant
                    j <= i < kinds@.len(),
                    forall|a: int, b: int| 0 <= a < b < i ==> kinds@[a] != kinds@[b],
                    forall|b: int| 0 <= b < j ==> kinds@[b] != kinds@[i as int],
                decreases i - j,
            {
                if kinds[j] == kinds[i] {
                    proof {
                        assert(!kinds@.no_duplicates());
                    }
                    return None;
                }
                j += 1;
            }
            i += 1;
        }
        let mut p = Player { identity, grid: cells, placed: kinds, ready: false };
        let done = p.has_placed(ShipType::Carrier) && p.has_placed(ShipType::Battleship)
            && p.has_placed(ShipType::Cruiser) && p.has_placed(ShipType::Submarine)
            && p.has_placed(ShipType::Destroyer);
        p.ready = done;
        Some(p)
    }
}

/// The exact outcome of a placement request against the state `p`, first
/// failing check first: readiness, then a duplicate kind, then the
/// coordinate, then the direction, then the board boundary, then overlap.
pub open spec fn place_check(p: Player, text: Seq<char>, kind: ShipType, dir: char) -> Result<
    (),
    PlaceError,
> {
    if p.is_ready() {
        Err(PlaceError::AlreadyReady)
    } else if p.placed_set().contains(kind) {
        Err(PlaceError::DuplicateShip)
    } else {
        match parse_spec(text) {
            Err(e) => Err(e),
            Ok(pos) => match dir_step(dir) {
                None => Err(PlaceError::InvalidDirection),
                Some(step) => {
                    let cells = ship_cells(pos.0, pos.1, step.0, step.1, ship_size(kind));
                    if !cells_in_grid(cells) {
                        Err(PlaceError::OutOfBounds)
                    } else if !cells_clear(p, cells) {
                        Err(PlaceError::Overlap)
                    } else {
                        Ok(())
                    }
                },
            },
        }
    }
}

impl Player {
    /// Place a ship: parse the start coordinate, expand the ship's cells
    /// along the direction, validate the whole shape, and only then write it.
    /// A rejected placement leaves the engine exactly as it was.
    #[verifier::loop_isolation(false)]
    #[verifier::rlimit(50)]
    pub fn place_ship(&mut self, text: &str, kind: ShipType, dir: char) -> (r: Result<
        (),
        PlaceError,
    >)
        requires
            old(self).wf(),
        ensures
            final(self).wf(),
            r == place_check(*old(self), text@, kind, dir),
            final(self).id_view() == old(self).id_view(),
            r is Err ==> *final(self) == *old(self),
            r is Ok ==> ({
                let pos = parse_spec(text@)->Ok_0;
                let step = dir_step(dir)->Some_0;
                let cells = ship_cells(pos.0, pos.1, step.0, step.1, ship_size(kind));
                &&& forall|x: int, y: int|
                    #[trigger] in_grid(x, y) ==> final(self).cell(x, y) == (if cells.contains(
                        (x, y),
                    ) {
                        CellState::ShipIntact
                    } else {
                        old(self).cell(x, y)
                    })
                &&& final(self).placed_set() =~= old(self).placed_set().insert(kind)
                &&& final(self).is_ready() == full_fleet(old(self).placed_set().insert(kind))
            }),
    {
        if self.ready {
            return Err(PlaceError::AlreadyReady);
        }
        if self.has_placed(kind) {
            return Err(PlaceError::DuplicateShip);
        }
        let (x, y) = match parse_coordinate(text) {
            Ok(p) => p,
            Err(e) => {
                return Err(e);
            },
        };
        let (dx, dy): (i64, i64) = match dir {
            'N' => (0, -1),
            'E' => (1, 0),
            'S' => (0, 1),
            'W' => (-1, 0),
            _ => {
                return Err(PlaceError::InvalidDirection);
            },
        };
        proof {
            assert(dir_step(dir) == Some((dx as int, dy as int)));
        }
        let len = kind.size();
        let ghost sc = ship_cells(x as int, y as int, dx as int, dy as int, ship_size(kind));
        let mut cells: Vec<(usize, usize)> = Vec::new();
        let mut i: usize = 0;
        while i < len
            invariant
                i <= len,
                cells@.len() == i,
                forall|j: int|
                    0 <= j < i ==> in_grid((#[trigger] sc[j]).0, sc[j].1) && (
                    cells@[j].0 as int, cells@[j].1 as int) == sc[j],
            decreases len - i,
        {
            let cx = x as i64 + dx * (i as i64);
            let cy = y as i64 + dy * (i as i64);
            if cx < 0 || cx >= GRID_SIZE as i64 || cy < 0 || cy >= GRID_SIZE as i64 {
                proof {
                    assert(sc[i as int] == (cx as int, cy as int));
                    assert(!cells_in_grid(sc));
                }
                return Err(PlaceError::OutOfBounds);
            }
            cells.push((cx as usize, cy as usize));
            i += 1;
        }
        proof {
            assert(cells_in_grid(sc));
        }
        let mut i: usize = 0;
        while i < len
            invariant
                i <= len,
                forall|j: int|
                    0 <= j < i ==> self.cell((#[trigger] sc[j]).0, sc[j].1)
                        != CellState::ShipIntact,
            decreases len - i,
        {
            let c = cells[i];
            if self.grid[c.1 * GRID_SIZE + c.0] == CellState::ShipIntact {
                proof {
                    assert(self.cell(sc[i as int].0, sc[i as int].1) == CellState::ShipIntact);
                    assert(!cells_clear(*self, sc));
                }
                return Err(PlaceError::Overlap);
            }
            i += 1;
        }
        proof {
            assert(cells_clear(*self, sc));
        }
        let ghost g0 = self.grid@;
        let mut i: usize = 0;
        while i < len
            invariant
                i <= len,
                self.grid@.len() == GRID_CELLS as int,
                self.placed == old(self).placed,
                self.ready == old(self).ready,
                self.identity == old(self).identity,
                forall|x2: int, y2: int|
                    #[trigger] in_grid(x2, y2) ==> self.grid@[y2 * GRID_SIZE as int + x2] == (
                    if (exists|j: int| 0 <= j < i && sc[j] == (x2, y2)) {
                        CellState::ShipIntact
                    } else {
                        g0[y2 * GRID_SIZE as int + x2]
                    }),
            decreases len - i,
        {
            let c = cells[i];
            proof {
                assert((c.0 as int, c.1 as int) == sc[i as int]);
                assert(in_grid(sc[i as int].0, sc[i as int].1));
            }
            self.grid.set(c.1 * GRID_SIZE + c.0, CellState::ShipIntact);
            proof {
                assert forall|x2: int, y2: int| #[trigger]
                    in_grid(x2, y2) implies self.grid@[y2 * GRID_SIZE as int + x2] == (
                if (exists|j: int| 0 <= j < i + 1 && sc[j] == (x2, y2)) {
                    CellState::ShipIntact
                } else {
                    g0[y2 * GRID_SIZE as int + x2]
                }) by {
                    if (x2, y2) == sc[i as int] {
                        assert(exists|j: int| 0 <= j < i + 1 && sc[j] == (x2, y2));
                    } else {
                        assert(y2 * GRID_SIZE as int + x2 != c.1 * GRID_SIZE as int + c.0);
                        assert((exists|j: int| 0 <= j < i + 1 && sc[j] == (x2, y2)) == (exists|
                            j: int,
                        | 0 <= j < i && sc[j] == (x2, y2)));
                    }
                }
            }
            i += 1;
        }
        self.placed.push(kind);
        proof {
            assert(!old(self).placed_seq().contains(kind));
            assert(self.placed@.no_duplicates()) by {
                assert(forall|j: int|
                    0 <= j < old(self).placed@.len() ==> #[trigger] self.placed@[j] == old(
                        self,
                    ).placed@[j]);
            }
            assert(self.placed_set() =~= old(self).placed_set().insert(kind)) by {
                assert forall|k: ShipType|
                    self.placed_seq().contains(k) == (old(self).placed_seq().contains(k) || k
                        == kind) by {
                    if old(self).placed_seq().contains(k) {
                        let w = choose|j: int|
                            0 <= j < old(self).placed@.len() && old(self).placed@[j] == k;
                        assert(self.placed@[w] == k);
                    }
                    if self.placed_seq().contains(k) {
                        let w = choose|j: int| 0 <= j < self.placed@.len() && self.placed@[j] == k;
                        if w < old(self).placed@.len() {
                            assert(old(self).placed@[w] == k);
                        }
                    }
                    if k == kind {
                        assert(self.placed@[self.placed@.len() - 1] == kind);
                        assert(self.placed_seq().contains(k));
                    }
                }
            }
        }
        let done = self.has_placed(ShipType::Carrier) && self.has_placed(ShipType::Battleship)
            && self.has_placed(ShipType::Cruiser) && self.has_placed(ShipType::Submarine)
            && self.has_placed(ShipType::Destroyer);
        self.ready = done;
        proof {
            assert(cells_clear(*old(self), sc));
            assert(place_check(*old(self), text@, kind, dir) == Ok::<(), PlaceError>(()));
            assert forall|x2: int, y2: int| #[trigger]
                in_grid(x2, y2) implies self.cell(x2, y2) == (if sc.contains((x2, y2)) {
                CellState::ShipIntact
            } else {
                old(self).cell(x2, y2)
            }) by {
                assert(sc.contains((x2, y2)) == (exists|j: int|
                    0 <= j < len && sc[j] == (x2, y2)));
            }
        }
        Ok(())
    }
}

/// A ship heading east from `(x, y)` occupies exactly the cells from
/// `(x, y)` to `(x + len - 1, y)`: together with `place_ship`'s contract —
/// every cell of the list becomes `ShipIntact` and every other cell keeps
/// its state — this pins an eastward placement completely.
pub proof fn lemma_east_cells(x: int, y: int, len: int)
    requires
        len >= 0,
    ensures
        forall|a: int, b: int|
            #[trigger] ship_cells(x, y, 1, 0, len).contains((a, b)) == (b == y && x <= a < x
                + len),
{
    let cells = ship_cells(x, y, 1, 0, len);
    assert forall|a: int, b: int| #[trigger]
        cells.contains((a, b)) == (b == y && x <= a < x + len) by {
        if b == y && x <= a < x + len {
            assert(cells[a - x] == (a, b));
        }
    }
}

/// Placing a kind that is already on the board fails as a duplicate,
/// whatever the coordinate and the direction — provided the engine is not
/// yet ready, since a ready engine refuses everything before looking at the
/// kind. `place_ship`'s contract then leaves the engine unchanged.
pub proof fn lemma_duplicate_refused(p: Player, text: Seq<char>, kind: ShipType, dir: char)
    requires
        !p.is_ready(),
        p.placed_set().contains(kind),
    ensures
        place_check(p, text, kind, dir) == Err::<(), PlaceError>(PlaceError::DuplicateShip),
{
}

/// A ready engine refuses every further placement request, whatever it asks.
pub proof fn lemma_ready_refuses(p: Player, text: Seq<char>, kind: ShipType, dir: char)
    requires
        p.is_ready(),
    ensures
        place_check(p, text, kind, dir) == Err::<(), PlaceError>(PlaceError::AlreadyReady),
{
}

/// On a well-formed engine readiness holds exactly when all five ship kinds
/// of the catalog are placed; so after the fifth distinct successful
/// placement the engine is ready.
pub proof fn lemma_full_fleet_ready(p: Player)
    requires
        p.wf(),
    ensures
        p.is_ready() <==> full_fleet(p.placed_set()),
{
}

/// An otherwise valid placement whose computed cell sequence leaves the grid
/// is refused out of bounds; `place_ship`'s contract then leaves every cell
/// unchanged.
pub proof fn lemma_out_of_grid_refused(p: Player, text: Seq<char>, kind: ShipType, dir: char)
    requires
        !p.is_ready(),
        !p.placed_set().contains(kind),
        parse_spec(text) is Ok,
        dir_step(dir) is Some,
        !cells_in_grid(
            ship_cells(
                parse_spec(text)->Ok_0.0,
                parse_spec(text)->Ok_0.1,
                dir_step(dir)->Some_0.0,
                dir_step(dir)->Some_0.1,
                ship_size(kind),
            ),
        ),
    ensures
        place_check(p, text, kind, dir) == Err::<(), PlaceError>(PlaceError::OutOfBounds),
{
}

/// An otherwise valid, in-bounds placement that touches a cell already
/// holding an intact ship is refused as an overlap; `place_ship`'s contract
/// then leaves every cell unchanged.
pub proof fn lemma_overlap_refused(p: Player, text: Seq<char>, kind: ShipType, dir: char)
    requires
        !p.is_ready(),
        !p.placed_set().contains(kind),
        parse_spec(text) is Ok,
        dir_step(dir) is Some,
        cells_in_grid(
            ship_cells(
                parse_spec(text)->Ok_0.0,
                parse_spec(text)->Ok_0.1,
                dir_step(dir)->Some_0.0,
                dir_step(dir)->Some_0.1,
                ship_size(kind),
            ),
        ),
        !cells_clear(
            p,
            ship_cells(
                parse_spec(text)->Ok_0.0,
                parse_spec(text)->Ok_0.1,
                dir_step(dir)->Some_0.0,
                dir_step(dir)->Some_0.1,
                ship_size(kind),
            ),
        ),
    ensures
        place_check(p, text, kind, dir) == Err::<(), PlaceError>(PlaceError::Overlap),
{
}

} // verus!
