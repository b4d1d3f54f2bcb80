use battleship::cell::CellState;
use battleship::coord::GRID_SIZE;
use battleship::error::PlaceError;
use battleship::game::Game;
use battleship::player::Player;
use battleship::ship_type::ShipType;

fn snapshot(p: &Player) -> Vec<CellState> {
    let mut cells = Vec::new();
    for y in 0..GRID_SIZE {
        for x in 0..GRID_SIZE {
            cells.push(p.cell_at(x, y));
        }
    }
    cells
}

#[test]
fn ship_sizes_match_the_catalog() {
    assert_eq!(ShipType::Carrier.size(), 5);
    assert_eq!(ShipType::Battleship.size(), 4);
    assert_eq!(ShipType::Cruiser.size(), 3);
    assert_eq!(ShipType::Submarine.size(), 3);
    assert_eq!(ShipType::Destroyer.size(), 2);
}

#[test]
fn new_player_is_fresh() {
    let p = Player::new();
    assert!(!p.ready());
    assert!(p.identity().is_none());
    assert!(p.placed_ships().is_empty());
    for y in 0..GRID_SIZE {
        for x in 0..GRID_SIZE {
            assert_eq!(p.cell_at(x, y), CellState::Empty);
        }
    }
}

#[test]
fn east_placement_occupies_exactly_its_span() {
    let mut p = Player::new();
    assert_eq!(p.place_ship("B4", ShipType::Carrier, 'E'), Ok(()));
    for y in 0..GRID_SIZE {
        for x in 0..GRID_SIZE {
            let expected = if y == 3 && (1..=5).contains(&x) {
                CellState::ShipIntact
            } else {
                CellState::Empty
            };
            assert_eq!(p.cell_at(x, y), expected);
        }
    }
    assert_eq!(*p.placed_ships(), vec![ShipType::Carrier]);
}

#[test]
fn south_and_north_and_west_step_as_documented() {
    let mut p = Player::new();
    assert_eq!(p.place_ship("E1", ShipType::Cruiser, 'S'), Ok(()));
    assert_eq!(p.cell_at(4, 0), CellState::ShipIntact);
    assert_eq!(p.cell_at(4, 1), CellState::ShipIntact);
    assert_eq!(p.cell_at(4, 2), CellState::ShipIntact);
    assert_eq!(p.cell_at(4, 3), CellState::Empty);

    assert_eq!(p.place_ship("H8", ShipType::Destroyer, 'N'), Ok(()));
    assert_eq!(p.cell_at(7, 7), CellState::ShipIntact);
    assert_eq!(p.cell_at(7, 6), CellState::ShipIntact);

    assert_eq!(p.place_ship("J10", ShipType::Submarine, 'W'), Ok(()));
    assert_eq!(p.cell_at(9, 9), CellState::ShipIntact);
    assert_eq!(p.cell_at(8, 9), CellState::ShipIntact);
    assert_eq!(p.cell_at(7, 9), CellState::ShipIntact);
}

#[test]
fn duplicate_kind_is_refused_wherever_it_goes() {
    let mut p = Player::new();
    assert_eq!(p.place_ship("A1", ShipType::Destroyer, 'E'), Ok(()));
    let before = snapshot(&p);
    assert_eq!(p.place_ship("H8", ShipType::Destroyer, 'S'), Err(PlaceError::DuplicateShip));
    assert_eq!(p.place_ship("C5", ShipType::Destroyer, 'E'), Err(PlaceError::DuplicateShip));
    assert_eq!(snapshot(&p), before);
}

#[test]
fn out_of_grid_placement_changes_nothing() {
    let mut p = Player::new();
    assert_eq!(p.place_ship("A1", ShipType::Cruiser, 'E'), Ok(()));
    let before = snapshot(&p);
    // The carrier would run off the east edge after three cells.
    assert_eq!(p.place_ship("H5", ShipType::Carrier, 'E'), Err(PlaceError::OutOfBounds));
    // Off the north edge from the first row.
    assert_eq!(p.place_ship("D1", ShipType::Destroyer, 'N'), Err(PlaceError::OutOfBounds));
    // Off the south edge from the last row.
    assert_eq!(p.place_ship("D10", ShipType::Battleship, 'S'), Err(PlaceError::OutOfBounds));
    assert_eq!(snapshot(&p), before);
}

#[test]
fn overlap_is_refused_and_changes_nothing() {
    let mut p = Player::new();
    assert_eq!(p.place_ship("B4", ShipType::Carrier, 'E'), Ok(()));
    let before = snapshot(&p);
    // Crosses the carrier's row on its way south.
    assert_eq!(p.place_ship("C2", ShipType::Battleship, 'S'), Err(PlaceError::Overlap));
    // Starts directly on an occupied cell.
    assert_eq!(p.place_ship("B4", ShipType::Destroyer, 'S'), Err(PlaceError::Overlap));
    assert_eq!(snapshot(&p), before);
    assert_eq!(p.placed_ships().len(), 1);
}

#[test]
fn invalid_direction_is_refused() {
    let mut p = Player::new();
    assert_eq!(p.place_ship("B4", ShipType::Carrier, 'X'), Err(PlaceError::InvalidDirection));
    assert_eq!(p.place_ship("B4", ShipType::Carrier, 'e'), Err(PlaceError::InvalidDirection));
}

#[test]
fn parse_failures_propagate_unchanged() {
    let mut p = Player::new();
    assert_eq!(p.place_ship("B", ShipType::Carrier, 'E'), Err(PlaceError::InvalidFormat));
    assert_eq!(p.place_ship("Bx", ShipType::Carrier, 'E'), Err(PlaceError::InvalidNumber));
    assert_eq!(p.place_ship("K1", ShipType::Carrier, 'E'), Err(PlaceError::OutOfBounds));
}

#[test]
fn full_fleet_setup_scenario() {
    let mut game = Game::new();
    let p = &mut game.player1;
    assert_eq!(p.place_ship("B4", ShipType::Carrier, 'E'), Ok(()));
    assert!(!p.ready());
    assert_eq!(p.place_ship("C8", ShipType::Battleship, 'E'), Ok(()));
    assert!(!p.ready());
    assert_eq!(p.place_ship("E1", ShipType::Cruiser, 'S'), Ok(()));
    assert!(!p.ready());
    assert_eq!(p.place_ship("G3", ShipType::Submarine, 'E'), Ok(()));
    assert!(!p.ready());
    assert_eq!(p.place_ship("J5", ShipType::Destroyer, 'S'), Ok(()));
    assert!(p.ready());

    // Carrier B4 east: (1,3)..(5,3).
    for x in 1..=5 {
        assert_eq!(p.cell_at(x, 3), CellState::ShipIntact);
    }
    // Battleship C8 east: (2,7)..(5,7).
    for x in 2..=5 {
        assert_eq!(p.cell_at(x, 7), CellState::ShipIntact);
    }
    // Cruiser E1 south: (4,0)..(4,2).
    for y in 0..=2 {
        assert_eq!(p.cell_at(4, y), CellState::ShipIntact);
    }
    // Submarine G3 east: (6,2)..(8,2).
    for x in 6..=8 {
        assert_eq!(p.cell_at(x, 2), CellState::ShipIntact);
    }
    // Destroyer J5 south: (9,4)..(9,5).
    for y in 4..=5 {
        assert_eq!(p.cell_at(9, y), CellState::ShipIntact);
    }
    // Exactly 5 + 4 + 3 + 3 + 2 cells are occupied.
    let occupied = snapshot(p)
        .iter()
        .filter(|c| **c == CellState::ShipIntact)
        .count();
    assert_eq!(occupied, 17);

    // A ready engine refuses everything, even otherwise valid requests.
    let before = snapshot(p);
    assert_eq!(p.place_ship("A1", ShipType::Carrier, 'E'), Err(PlaceError::AlreadyReady));
    assert_eq!(snapshot(p), before);

    // The other player is untouched and can still place.
    assert!(!game.player2.ready());
    assert_eq!(game.player2.place_ship("A1", ShipType::Carrier, 'E'), Ok(()));
}

#[test]
fn identity_is_assigned_externally() {
    let mut p = Player::new();
    assert!(p.identity().is_none());
    p.set_identity(String::from("session-1"));
    assert_eq!(p.identity().as_deref(), Some("session-1"));
    // Assigning an identity changes nothing else.
    assert!(!p.ready());
    assert!(p.placed_ships().is_empty());
}

#[test]
fn from_parts_round_trips_a_player() {
    let mut p = Player::new();
    p.set_identity(String::from("p1"));
    assert_eq!(p.place_ship("B4", ShipType::Carrier, 'E'), Ok(()));
    assert_eq!(p.place_ship("C8", ShipType::Battleship, 'E'), Ok(()));

    let cells = snapshot(&p);
    let kinds = p.placed_ships().clone();
    let identity = p.identity().clone();
    let q = Player::from_parts(identity, cells, kinds).expect("valid parts must be accepted");

    assert_eq!(snapshot(&q), snapshot(&p));
    assert_eq!(q.placed_ships(), p.placed_ships());
    assert_eq!(q.identity(), p.identity());
    assert_eq!(q.ready(), p.ready());
}

#[test]
fn from_parts_preserves_readiness_of_a_full_fleet() {
    let mut p = Player::new();
    assert_eq!(p.place_ship("B4", ShipType::Carrier, 'E'), Ok(()));
    assert_eq!(p.place_ship("C8", ShipType::Battleship, 'E'), Ok(()));
    assert_eq!(p.place_ship("E1", ShipType::Cruiser, 'S'), Ok(()));
    assert_eq!(p.place_ship("G3", ShipType::Submarine, 'E'), Ok(()));
    assert_eq!(p.place_ship("J5", ShipType::Destroyer, 'S'), Ok(()));
    assert!(p.ready());

    let q = Player::from_parts(None, snapshot(&p), p.placed_ships().clone())
        .expect("valid parts must be accepted");
    assert!(q.ready());
}

#[test]
fn from_parts_rejects_bad_shapes() {
    // Wrong grid size.
    assert!(Player::from_parts(None, vec![CellState::Empty; 99], Vec::new()).is_none());
    // A duplicated kind.
    assert!(Player::from_parts(
        None,
        vec![CellState::Empty; 100],
        vec![ShipType::Cruiser, ShipType::Cruiser],
    )
    .is_none());
}

#[test]
fn error_descriptions_are_not_empty() {
    let errors = [
        PlaceError::InvalidFormat,
        PlaceError::InvalidNumber,
        PlaceError::OutOfBounds,
        PlaceError::InvalidDirection,
        PlaceError::AlreadyReady,
        PlaceError::DuplicateShip,
        PlaceError::Overlap,
    ];
    for e in errors {
        assert!(!e.describe().is_empty());
    }
}
