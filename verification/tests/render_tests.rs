use rslife::grid::Grid;
use rslife::render::{render_block, render_braille, render_plain};

#[test]
fn plain_frame_matches_cells() {
    let g = Grid::from_source(b"#.\n.#\n").unwrap();
    assert_eq!(render_plain(&g), "#.\n.#\n");
}

#[test]
fn plain_frame_of_empty_grid() {
    let g = Grid::empty(3, 2).unwrap();
    assert_eq!(render_plain(&g), "...\n...\n");
}

#[test]
fn block_frame_packs_two_rows_per_line() {
    // Top row alive, bottom row dead: upper half blocks.
    let g = Grid::from_source(b"##\n..\n").unwrap();
    assert_eq!(render_block(&g), "\u{2580}\u{2580}\n");
    // Bottom row alive: lower half blocks; both: full blocks.
    let g = Grid::from_source(b".#\n##\n").unwrap();
    assert_eq!(render_block(&g), "\u{2584}\u{2588}\n");
}

#[test]
fn block_frame_pads_odd_height_with_dead_border() {
    // One column, three alive cells: one full block, then the last cell
    // paired with the dead border below the grid.
    let g = Grid::from_source(b"#\n#\n#\n").unwrap();
    assert_eq!(render_block(&g), "\u{2588}\n\u{2580}\n");
}

#[test]
fn braille_frame_of_single_alive_cell() {
    let g = Grid::from_source(b"#\n").unwrap();
    assert_eq!(render_braille(&g), "\u{2801}");
}

#[test]
fn braille_frame_of_single_dead_cell() {
    let g = Grid::from_source(b".\n").unwrap();
    assert_eq!(render_braille(&g), " ");
}

#[test]
fn braille_frame_packs_two_by_four_cells() {
    // A full 2x4 grid fills every dot of one braille glyph; the canvas is
    // created one glyph wider and taller than the pixels reach.
    let g = Grid::from_source(b"##\n##\n##\n##\n").unwrap();
    assert_eq!(render_braille(&g), "\u{28ff} \n  ");
}
