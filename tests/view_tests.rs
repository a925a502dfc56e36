use tetris::{
    proposed_tick_time_at, Canvas, Color, Dimensions, Game, Key, PlayView, Position, Shape, Stone,
    Tile,
};

fn fresh_view() -> PlayView {
    PlayView::new(Stone::new_shape(Shape::O), Stone::new_shape(Shape::T))
}

fn occupied_count(view: &PlayView) -> usize {
    view.field
        .texture
        .pixels
        .iter()
        .flatten()
        .filter(|c| c.unwrap().background != Color::Gray)
        .count()
}

#[test]
fn new_session_starts_at_level_one() {
    let view = fresh_view();
    assert_eq!(view.level, 1);
    assert_eq!(view.points, 0);
    assert_eq!(view.cleared_lines, 0);
    assert_eq!(view.time_per_tick, 1000);
    assert_eq!(view.time_until_next_tick, 1000);
    assert_eq!(view.minimal_tick_time, 30);
    assert!(view.ticking);
    assert_eq!(view.current_stone.position, Position { x: 4, y: -1 });
    assert_eq!(occupied_count(&view), 0);
}

#[test]
fn spawn_positions() {
    let cases = [((1, 4), (5, -3)), ((2, 2), (4, -1)), ((3, 2), (4, -1)), ((4, 1), (3, 0))];
    for ((w, h), (x, y)) in cases.iter() {
        let p = PlayView::get_spawn_position(&Dimensions { width: *w, height: *h });
        assert_eq!(p, Position { x: *x, y: *y });
    }
}

#[test]
fn spawned_piece_overlaps_nothing() {
    let view = fresh_view();
    let stone = &view.current_stone;
    for (r, row) in stone.texture.pixels.iter().enumerate() {
        for (c, cell) in row.iter().enumerate() {
            if cell.is_some() {
                let p = Position { x: stone.position.x + c as i8, y: stone.position.y + r as i8 };
                assert!(view.field.position_free(&p));
            }
        }
    }
}

#[test]
fn update_score_doubles_per_line() {
    let mut view = fresh_view();
    view.update_score(0);
    assert_eq!((view.points, view.cleared_lines, view.level), (0, 0, 1));
    view.update_score(1);
    assert_eq!((view.points, view.cleared_lines, view.level), (2, 1, 1));
    view.update_score(4);
    assert_eq!((view.points, view.cleared_lines, view.level), (18, 5, 1));
    view.update_score(4);
    assert_eq!((view.points, view.cleared_lines, view.level), (34, 9, 1));
    view.update_score(2);
    assert_eq!((view.points, view.cleared_lines, view.level), (38, 11, 2));
    view.update_score(3);
    assert_eq!((view.points, view.cleared_lines, view.level), (54, 14, 2));
    // More lines than one piece can clear at once are still scored exactly.
    view.update_score(9);
    assert_eq!((view.points, view.cleared_lines, view.level), (54 + 512 * 2, 23, 3));
}

#[test]
fn tick_times_speed_up_with_a_floor() {
    let expected = [
        (0u8, 1000u64),
        (1, 750),
        (2, 562),
        (3, 421),
        (4, 316),
        (5, 237),
        (10, 56),
        (12, 31),
        (13, 23),
        (24, 1),
        (25, 0),
        (255, 0),
    ];
    for (level, millis) in expected.iter() {
        assert_eq!(proposed_tick_time_at(*level), *millis);
    }
}

#[test]
fn tick_moves_the_stone_down_and_sets_the_speed() {
    let mut view = fresh_view();
    view.level = 3;
    view.cleared_lines = 20;
    assert!(view.handle_tick());
    assert_eq!(view.current_stone.position, Position { x: 4, y: 0 });
    assert_eq!(view.time_per_tick, 421);
    assert_eq!(view.time_until_next_tick, 421);
    view.level = 20;
    view.cleared_lines = 190;
    assert!(view.handle_tick());
    assert_eq!(view.time_per_tick, 30);
}

#[test]
fn stack_out_stops_the_session() {
    let mut view = fresh_view();
    // Fill row 1 except the last column, so no line is cleared; the O
    // piece at rows -1 and 0 cannot fall.
    for x in 0..9 {
        view.field.texture.pixels[1][x] = Some(Tile::new_background(Color::Red));
    }
    let before_stone = view.current_stone.clone();
    let before_next = view.next_stone.clone();
    let before_cells = view.field.texture.pixels.clone();
    assert_eq!(view.current_stone.position.y, -1);
    view.progress_game();
    assert!(!view.ticking);
    assert_eq!(view.current_stone.position, before_stone.position);
    assert_eq!(view.current_stone.texture.pixels, before_stone.texture.pixels);
    assert_eq!(view.next_stone.pixels, before_next.pixels);
    assert_eq!(view.field.texture.pixels, before_cells);
    assert_eq!(view.points, 0);
    // No further ticks are run.
    assert!(!view.handle_tick());
    assert_eq!(view.field.texture.pixels, before_cells);
}

#[test]
fn landing_locks_the_stone_and_clears_lines() {
    let mut view = fresh_view();
    // Row 19 full except columns 4 and 5, where the O piece will land.
    for x in 0..10 {
        if x != 4 && x != 5 {
            view.field.texture.pixels[19][x] = Some(Tile::new_background(Color::Red));
        }
    }
    // Let the O fall to the bottom: from y = -1 to y = 18.
    for _ in 0..19 {
        view.progress_game();
    }
    assert_eq!(view.current_stone.position, Position { x: 4, y: 18 });
    view.progress_game();
    // The bottom line was cleared; the O's upper row moved down into row 19.
    assert_eq!(view.cleared_lines, 1);
    assert_eq!(view.points, 2);
    assert_eq!(view.level, 1);
    assert!(view.ticking);
    assert_eq!(occupied_count(&view), 2);
    assert!(!view.field.position_free(&Position { x: 4, y: 19 }));
    assert!(!view.field.position_free(&Position { x: 5, y: 19 }));
    // The T that was next is falling now, from its spawn position.
    assert_eq!(view.current_stone.position, Position { x: 4, y: -1 });
    assert_eq!(view.current_stone.texture.pixels, Stone::new_t().pixels);
    let next_tiles = view.next_stone.pixels.iter().flatten().filter(|c| c.is_some()).count();
    assert_eq!(next_tiles, 4);
}

#[test]
fn keys_move_and_turn_the_stone() {
    let mut view = fresh_view();
    view.handle_input(Key::Down);
    assert_eq!(view.current_stone.position, Position { x: 4, y: 0 });
    view.handle_input(Key::Left);
    assert_eq!(view.current_stone.position, Position { x: 3, y: 0 });
    view.handle_input(Key::Right);
    view.handle_input(Key::Right);
    assert_eq!(view.current_stone.position, Position { x: 5, y: 0 });
    view.handle_input(Key::Char('x'));
    view.handle_input(Key::Other);
    assert_eq!(view.current_stone.position, Position { x: 5, y: 0 });
    let mut t = PlayView::new(Stone::new_shape(Shape::T), Stone::new_shape(Shape::O));
    t.handle_input(Key::Down);
    t.handle_input(Key::Up);
    assert_eq!(t.current_stone.texture.dimensions, Dimensions { width: 2, height: 3 });
}

#[test]
fn space_locks_the_stone_where_it_stands() {
    let mut view = fresh_view();
    view.handle_input(Key::Down);
    view.handle_input(Key::Down);
    view.handle_input(Key::Char(' '));
    assert!(!view.field.position_free(&Position { x: 4, y: 1 }));
    assert!(!view.field.position_free(&Position { x: 5, y: 2 }));
    assert_eq!(occupied_count(&view), 4);
    assert_eq!(view.current_stone.texture.pixels, Stone::new_t().pixels);
    assert_eq!(view.points, 0);
}

#[test]
fn quit_key_stops_the_game() {
    let mut game = Game::new(fresh_view());
    assert!(game.running);
    assert!(game.handle_input(Key::Down));
    assert!(game.running);
    assert_eq!(game.current_view.current_stone.position, Position { x: 4, y: 0 });
    assert!(!game.handle_input(Key::Char('q')));
    assert!(!game.running);
    let mut other = Game::new(fresh_view());
    other.stop();
    assert!(!other.running);
}

#[test]
fn can_progress_watches_the_counters() {
    let mut view = fresh_view();
    // Nothing locks on the next tick: any counters will do.
    view.cleared_lines = 2549;
    view.level = 255;
    view.points = u64::MAX;
    assert!(view.can_progress());

    // An O piece resting on the bottom row with one line to clear under it.
    let mut view = fresh_view();
    for _ in 0..19 {
        view.handle_input(Key::Down);
    }
    assert_eq!(view.current_stone.position, Position { x: 4, y: 18 });
    for x in 0..10 {
        if x != 4 && x != 5 {
            view.field.texture.pixels[19][x] = Some(Tile::new_background(Color::Red));
        }
    }
    view.cleared_lines = 2548;
    view.level = 255;
    view.points = u64::MAX - 510;
    assert!(view.can_progress());
    view.points += 1;
    assert!(!view.can_progress());
    view.points = 0;
    view.cleared_lines = 2549;
    assert!(!view.can_progress());
    // A stopped session runs no tick.
    view.ticking = false;
    assert!(view.can_progress());
}

#[test]
fn scoring_a_lock_at_the_counters_edge() {
    let mut view = fresh_view();
    for _ in 0..19 {
        view.handle_input(Key::Down);
    }
    for x in 0..10 {
        if x != 4 && x != 5 {
            view.field.texture.pixels[19][x] = Some(Tile::new_background(Color::Red));
        }
    }
    view.cleared_lines = 2548;
    view.level = 255;
    view.points = u64::MAX - 510;
    view.progress_game();
    assert_eq!(view.points, u64::MAX);
    assert_eq!(view.cleared_lines, 2549);
    assert_eq!(view.level, 255);
}

#[test]
fn session_frame_draws_field_pieces_and_labels() {
    let view = fresh_view();
    let mut canvas = Canvas::new(Dimensions { width: 30, height: 25 });
    view.render_at(&mut canvas, Position { x: 0, y: 0 });
    let frame = canvas.get_printable_string().clone();
    assert!(frame.contains("level: 1"));
    assert!(frame.contains("points: 0"));
    assert!(frame.contains("q - quit"));
    assert!(frame.contains("arrows - move block"));
    // Field cells are gray; the next piece, a T, is purple.
    assert!(frame.contains("100;100;100"));
    assert!(frame.contains("125;15;189"));
}
