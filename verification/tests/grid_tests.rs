use rslife::grid::{Cell, ConstructionError, Grid, ParseError};

#[test]
fn empty_zero_width_fails() {
    assert!(matches!(Grid::empty(0, 5), Err(ConstructionError::ZeroWidth)));
    assert!(matches!(Grid::empty(0, 0), Err(ConstructionError::ZeroWidth)));
}

#[test]
fn empty_zero_height_fails() {
    assert!(matches!(Grid::empty(5, 0), Err(ConstructionError::ZeroHeight)));
    assert!(matches!(Grid::empty(1, 0), Err(ConstructionError::ZeroHeight)));
}

#[test]
fn empty_grid_is_all_dead() {
    let g = Grid::empty(3, 2).unwrap();
    assert_eq!(g.width(), 3);
    assert_eq!(g.height(), 2);
    for y in 0..2 {
        for x in 0..3 {
            assert!(!g.get(x, y).alive);
        }
    }
}

#[test]
fn get_returns_stored_state() {
    let g = Grid::from_source(b"#.\n.#\n").unwrap();
    assert!(g.get(0, 0).alive);
    assert!(!g.get(1, 0).alive);
    assert!(!g.get(0, 1).alive);
    assert!(g.get(1, 1).alive);
}

#[test]
fn get_out_of_bounds_is_dead() {
    let g = Grid::from_source(b"##\n##\n").unwrap();
    assert!(!g.get(-1, 0).alive);
    assert!(!g.get(0, -1).alive);
    assert!(!g.get(2, 0).alive);
    assert!(!g.get(0, 2).alive);
    assert!(!g.get(-1, -1).alive);
    assert!(!g.get(100, 100).alive);
}

#[test]
fn get_mut_writes_are_read_back() {
    let mut g = Grid::empty(2, 2).unwrap();
    g.get_mut(1, 0).alive = true;
    assert!(g.get(1, 0).alive);
    assert!(!g.get(0, 0).alive);
    g.get_mut(1, 0).alive = false;
    assert!(!g.get(1, 0).alive);
}

#[test]
fn from_source_dimensions_follow_input() {
    let g = Grid::from_source(b"...\n###\n").unwrap();
    assert_eq!(g.width(), 3);
    assert_eq!(g.height(), 2);
}

#[test]
fn from_source_final_newline_is_optional() {
    let with = Grid::from_source(b"#.\n.#\n").unwrap();
    let without = Grid::from_source(b"#.\n.#").unwrap();
    assert_eq!(with.width(), without.width());
    assert_eq!(with.height(), without.height());
    for y in 0..2 {
        for x in 0..2 {
            assert_eq!(with.get(x, y), without.get(x, y));
        }
    }
}

#[test]
fn from_source_ragged_rows_fail() {
    assert!(matches!(
        Grid::from_source(b"##\n#\n"),
        Err(ParseError::RaggedRows)
    ));
    assert!(matches!(
        Grid::from_source(b".\n...\n"),
        Err(ParseError::RaggedRows)
    ));
}

#[test]
fn from_source_empty_inputs_fail() {
    assert!(matches!(Grid::from_source(b""), Err(ParseError::Empty)));
    assert!(matches!(Grid::from_source(b"\n"), Err(ParseError::Empty)));
    assert!(matches!(Grid::from_source(b"\n\n"), Err(ParseError::Empty)));
}

#[test]
fn from_source_unrecognized_byte_fails() {
    assert!(matches!(
        Grid::from_source(b"#x\n..\n"),
        Err(ParseError::UnrecognizedCharacter)
    ));
    assert!(matches!(
        Grid::from_source(b"# .\n"),
        Err(ParseError::UnrecognizedCharacter)
    ));
}

#[test]
fn random_has_requested_dimensions() {
    let g = Grid::random(7, 4).unwrap();
    assert_eq!(g.width(), 7);
    assert_eq!(g.height(), 4);
    assert!(matches!(
        Grid::random(0, 4),
        Err(ConstructionError::ZeroWidth)
    ));
    assert!(matches!(
        Grid::random(4, 0),
        Err(ConstructionError::ZeroHeight)
    ));
}

#[test]
fn cells_compare_by_state() {
    assert_eq!(Cell { alive: true }, Cell { alive: true });
    assert_ne!(Cell { alive: true }, Cell { alive: false });
}
