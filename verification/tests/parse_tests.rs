use battleship::coord::parse_coordinate;
use battleship::coord::GRID_SIZE;
use battleship::error::PlaceError;

#[test]
fn parse_accepts_canonical_coordinates() {
    assert_eq!(parse_coordinate("A1"), Ok((0, 0)));
    assert_eq!(parse_coordinate("B4"), Ok((1, 3)));
    assert_eq!(parse_coordinate("J10"), Ok((9, 9)));
    assert_eq!(parse_coordinate("C8"), Ok((2, 7)));
    assert_eq!(parse_coordinate("E1"), Ok((4, 0)));
    assert_eq!(parse_coordinate("G3"), Ok((6, 2)));
    assert_eq!(parse_coordinate("J5"), Ok((9, 4)));
}

#[test]
fn parse_every_canonical_coordinate_round_trips() {
    let letters = ['A', 'B', 'C', 'D', 'E', 'F', 'G', 'H', 'I', 'J'];
    for (col, letter) in letters.iter().enumerate() {
        for row in 1..=10usize {
            let text = format!("{}{}", letter, row);
            let parsed = parse_coordinate(&text).expect("canonical coordinate must parse");
            assert_eq!(parsed, (col, row - 1));
            assert!(parsed.0 < GRID_SIZE && parsed.1 < GRID_SIZE);
        }
    }
}

#[test]
fn parse_is_case_insensitive() {
    assert_eq!(parse_coordinate("b4"), Ok((1, 3)));
    assert_eq!(parse_coordinate("j10"), Ok((9, 9)));
}

#[test]
fn parse_accepts_leading_zeros_in_row() {
    assert_eq!(parse_coordinate("B04"), Ok((1, 3)));
    assert_eq!(parse_coordinate("A010"), Ok((0, 9)));
}

#[test]
fn parse_rejects_short_text() {
    assert_eq!(parse_coordinate(""), Err(PlaceError::InvalidFormat));
    assert_eq!(parse_coordinate("A"), Err(PlaceError::InvalidFormat));
    assert_eq!(parse_coordinate("7"), Err(PlaceError::InvalidFormat));
}

#[test]
fn parse_rejects_non_numeric_row() {
    assert_eq!(parse_coordinate("Ax"), Err(PlaceError::InvalidNumber));
    assert_eq!(parse_coordinate("B1x"), Err(PlaceError::InvalidNumber));
    assert_eq!(parse_coordinate("C-1"), Err(PlaceError::InvalidNumber));
    assert_eq!(parse_coordinate("D?"), Err(PlaceError::InvalidNumber));
    assert_eq!(parse_coordinate("E 5"), Err(PlaceError::InvalidNumber));
}

#[test]
fn parse_rejects_off_grid_positions() {
    assert_eq!(parse_coordinate("A0"), Err(PlaceError::OutOfBounds));
    assert_eq!(parse_coordinate("A11"), Err(PlaceError::OutOfBounds));
    assert_eq!(parse_coordinate("K1"), Err(PlaceError::OutOfBounds));
    assert_eq!(parse_coordinate("Z5"), Err(PlaceError::OutOfBounds));
    assert_eq!(parse_coordinate("51"), Err(PlaceError::OutOfBounds));
    assert_eq!(parse_coordinate("!3"), Err(PlaceError::OutOfBounds));
    assert_eq!(parse_coordinate("A99999999999999999999"), Err(PlaceError::OutOfBounds));
}
