use rslife::game::Game;
use rslife::grid::ParseError;
use rslife::render::render_plain;

fn plain(game: &Game) -> String {
    render_plain(&game.current_grid)
}

#[test]
fn blinker_oscillates() {
    let seed = b".....\n.....\n.###.\n.....\n.....\n";
    let mut game = Game::file_game(seed).unwrap();
    assert_eq!(plain(&game), ".....\n.....\n.###.\n.....\n.....\n");
    game.tick();
    assert_eq!(plain(&game), ".....\n..#..\n..#..\n..#..\n.....\n");
    game.tick();
    assert_eq!(plain(&game), ".....\n.....\n.###.\n.....\n.....\n");
}

#[test]
fn tick_is_deterministic() {
    let seed = b"#..#\n.##.\n.##.\n#..#\n";
    let mut a = Game::file_game(seed).unwrap();
    let mut b = Game::file_game(seed).unwrap();
    for _ in 0..5 {
        a.tick();
        b.tick();
        assert_eq!(plain(&a), plain(&b));
    }
}

#[test]
fn three_neighbors_give_birth() {
    // The dead center cell has exactly 3 alive neighbors.
    let mut game = Game::file_game(b"#.#\n...\n.#.\n").unwrap();
    assert!(!game.current_grid.get(1, 1).alive);
    game.tick();
    assert!(game.current_grid.get(1, 1).alive);
}

#[test]
fn three_neighbors_keep_alive() {
    // The alive center cell also has exactly 3 alive neighbors.
    let mut game = Game::file_game(b"#.#\n.#.\n.#.\n").unwrap();
    game.tick();
    assert!(game.current_grid.get(1, 1).alive);
}

#[test]
fn two_neighbors_keep_state() {
    // Alive center with 2 alive neighbors survives.
    let mut game = Game::file_game(b"#.#\n.#.\n...\n").unwrap();
    game.tick();
    assert!(game.current_grid.get(1, 1).alive);
    // Dead center with 2 alive neighbors stays dead.
    let mut game = Game::file_game(b"#.#\n...\n...\n").unwrap();
    game.tick();
    assert!(!game.current_grid.get(1, 1).alive);
}

#[test]
fn other_neighbor_counts_kill() {
    // 0 alive neighbors: an isolated alive cell dies.
    let mut game = Game::file_game(b"...\n.#.\n...\n").unwrap();
    game.tick();
    assert!(!game.current_grid.get(1, 1).alive);
    // 1 alive neighbor: still dies.
    let mut game = Game::file_game(b"#..\n.#.\n...\n").unwrap();
    game.tick();
    assert!(!game.current_grid.get(1, 1).alive);
    // 4 alive neighbors: dies of overcrowding.
    let mut game = Game::file_game(b"#.#\n.#.\n#.#\n").unwrap();
    game.tick();
    assert!(!game.current_grid.get(1, 1).alive);
    // 8 alive neighbors: dies of overcrowding.
    let mut game = Game::file_game(b"###\n###\n###\n").unwrap();
    game.tick();
    assert!(!game.current_grid.get(1, 1).alive);
}

#[test]
fn dead_grid_stays_dead() {
    let mut game = Game::file_game(b"....\n....\n....\n").unwrap();
    game.tick();
    assert_eq!(plain(&game), "....\n....\n....\n");
    game.tick();
    assert_eq!(plain(&game), "....\n....\n....\n");
}

#[test]
fn dimensions_survive_many_ticks() {
    let mut game = Game::file_game(b"##..#\n.#.#.\n#...#\n").unwrap();
    for _ in 0..10 {
        game.tick();
        assert_eq!(game.current_grid.width(), 5);
        assert_eq!(game.current_grid.height(), 3);
        assert_eq!(game.new_grid.width(), 5);
        assert_eq!(game.new_grid.height(), 3);
    }
}

#[test]
fn random_game_has_requested_dimensions() {
    let game = Game::random_game(6, 3).unwrap();
    assert_eq!(game.current_grid.width(), 6);
    assert_eq!(game.current_grid.height(), 3);
    assert_eq!(game.new_grid.width(), 6);
    assert_eq!(game.new_grid.height(), 3);
    assert!(Game::random_game(0, 3).is_err());
    assert!(Game::random_game(3, 0).is_err());
}

#[test]
fn file_game_hands_parse_errors_through() {
    assert!(matches!(
        Game::file_game(b"##\n#\n"),
        Err(ParseError::RaggedRows)
    ));
    assert!(matches!(Game::file_game(b""), Err(ParseError::Empty)));
    assert!(matches!(
        Game::file_game(b"#?\n"),
        Err(ParseError::UnrecognizedCharacter)
    ));
}
