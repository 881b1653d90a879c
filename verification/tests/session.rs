use game_of_life::{Density, GameState};

/// What a driver does with a game: it asks for headroom, steps, and watches
/// the size of the board.
fn drive(game: &mut GameState, operation: impl FnOnce(&mut GameState)) -> bool {
    let before = (game.width(), game.height());
    operation(game);
    (game.width(), game.height()) != before
}

#[test]
fn session_of_a_driver() {
    let mut game = GameState::new();
    assert!(!drive(&mut game, |g| g.add_glider(10, 10)));
    assert!(!drive(&mut game, |g| g.add_spaceship(20, 20)));
    assert!(!drive(&mut game, |g| g.add_glider_gun(10, 10)));
    assert!(!drive(&mut game, |g| g.add_pulsar(30, 20)));
    assert!(!drive(&mut game, |g| {
        let (x, y) = (g.width() / 2, g.height() / 2);
        g.add_r_pentomino(x, y)
    }));
    assert!(game.living_cells() > 48);
    let stamped = game.living_cells();

    // Paused: a step does nothing.
    assert!(game.has_headroom());
    assert!(!drive(&mut game, |g| g.step()));
    assert_eq!(game.generation_count(), 0);
    assert_eq!(game.living_cells(), stamped);

    game.set_running(true);
    let mut grown = 0;
    for generation in 1..=100u64 {
        assert!(game.has_headroom());
        if drive(&mut game, |g| g.step()) {
            grown += 1;
            assert_eq!(generation % 50, 0);
        }
        assert_eq!(game.generation_count(), generation);
    }
    assert_eq!(grown, 2);
    assert_eq!((game.width(), game.height()), (152, 102));
    assert!(game.cell_births() > 0);
    assert!(game.cell_deaths() > 0);

    assert!(drive(&mut game, |g| g.grow_universe()));
    assert_eq!((game.width(), game.height()), (153, 103));

    assert!(game.has_headroom());
    game.toggle_cell(0, 0);
    assert!(!drive(&mut game, |g| g.randomize(Density::default_fill())));
    assert!(!drive(&mut game, |g| g.randomize_center(Density::default_center())));
    assert_eq!(game.generation_count(), 0);
    assert!(!drive(&mut game, |g| g.clear()));
    assert_eq!(game.living_cells(), 0);
    assert_eq!((game.width(), game.height()), (153, 103));
}
