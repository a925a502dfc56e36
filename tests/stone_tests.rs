use tetris::{Color, Dimensions, Field, Position, Shape, Stone, Tile};

#[test]
fn right_points() {
    let mut t_stone = Stone::new(Position { x: 2, y: -1 }, Stone::new_t());
    t_stone.texture.rotate();
    let right_points = t_stone.right_most_points();
    let expected = vec![Position { x: 2, y: -1 }, Position { x: 3, y: 0 }, Position { x: 2, y: 1 }];
    assert_eq!(expected, right_points);
}

#[test]
fn left_points() {
    let mut t_stone = Stone::new(Position { x: 2, y: -1 }, Stone::new_t());
    t_stone.texture.rotate();
    t_stone.texture.rotate();
    t_stone.texture.rotate();
    let left_points = t_stone.left_most_points();
    let expected = vec![Position { x: 3, y: -1 }, Position { x: 2, y: 0 }, Position { x: 3, y: 1 }];
    assert_eq!(expected, left_points);
}

#[test]
fn bottom_points() {
    let mut t_stone = Stone::new(Position { x: 2, y: -1 }, Stone::new_t());
    t_stone.texture.rotate();
    t_stone.texture.rotate();
    let bottom_points = t_stone.bottom_points();
    let expected = vec![Position { x: 2, y: -1 }, Position { x: 3, y: 0 }, Position { x: 4, y: -1 }];
    assert_eq!(expected, bottom_points);
}

fn cells(stone_texture: &tetris::Texture) -> Vec<Vec<Option<Tile>>> {
    stone_texture.pixels.clone()
}

#[test]
fn rotating_four_times_gives_the_shape_back() {
    for shape in [Shape::I, Shape::J, Shape::L, Shape::Z, Shape::S, Shape::O, Shape::T].iter() {
        let unturned = Stone::new_shape(*shape);
        let mut texture = Stone::new_shape(*shape);
        for _ in 0..4 {
            texture.rotate();
        }
        assert_eq!(cells(&texture), cells(&unturned));
        assert_eq!(texture.dimensions, unturned.dimensions);
    }
}

#[test]
fn rotation_turns_clockwise() {
    let mut texture = Stone::new_l();
    texture.rotate();
    let o = Some(Tile::new_background(Color::Orange));
    assert_eq!(texture.dimensions, Dimensions { width: 2, height: 3 });
    assert_eq!(texture.pixels, vec![vec![o, None], vec![o, None], vec![o, o]]);
}

#[test]
fn stone_rotation_keeps_position() {
    let field = Field::default();
    let mut stone = Stone::new(Position { x: 3, y: 5 }, Stone::new_t());
    assert!(stone.rotate(&field));
    assert_eq!(stone.position, Position { x: 3, y: 5 });
    assert_eq!(stone.texture.dimensions, Dimensions { width: 2, height: 3 });
    // A vertical I at the right border cannot turn: four columns would not fit.
    let mut bar = Stone::new(Position { x: 8, y: 5 }, Stone::new_i());
    assert!(!bar.rotate(&field));
    assert_eq!(bar.position, Position { x: 8, y: 5 });
    assert_eq!(bar.texture.dimensions, Dimensions { width: 1, height: 4 });
}

#[test]
fn rotation_ignores_tiles_on_the_field() {
    let mut field = Field::default();
    for row in field.texture.pixels.iter_mut() {
        for cell in row.iter_mut() {
            *cell = Some(Tile::new_background(Color::Red));
        }
    }
    let mut stone = Stone::new(Position { x: 3, y: 5 }, Stone::new_s());
    assert!(stone.rotate(&field));
}

#[test]
fn move_left_at_the_border_fails() {
    let field = Field::default();
    let mut stone = Stone::new(Position { x: 0, y: 3 }, Stone::new_j());
    assert!(!stone.move_left(&field));
    assert_eq!(stone.position, Position { x: 0, y: 3 });
    let mut other = Stone::new(Position { x: 1, y: 3 }, Stone::new_j());
    assert!(other.move_left(&field));
    assert_eq!(other.position, Position { x: 0, y: 3 });
}

#[test]
fn moves_are_blocked_by_tiles() {
    let mut field = Field::default();
    field.texture.pixels[4][2] = Some(Tile::new_background(Color::Red));
    // An S piece at (3, 3): its lower row starts at column 3, next to the tile.
    let mut stone = Stone::new(Position { x: 3, y: 3 }, Stone::new_s());
    assert!(!stone.move_left(&field));
    assert_eq!(stone.position, Position { x: 3, y: 3 });
    // Its upper row starts at column 4; the tile at (3, 3) would block it.
    field.texture.pixels[4][2] = Some(Tile::new_background(Color::Gray));
    field.texture.pixels[3][3] = Some(Tile::new_background(Color::Red));
    assert!(!stone.move_left(&field));
    field.texture.pixels[3][3] = Some(Tile::new_background(Color::Gray));
    assert!(stone.move_left(&field));
    assert_eq!(stone.position, Position { x: 2, y: 3 });
}

#[test]
fn move_right_stops_at_the_border() {
    let field = Field::default();
    let mut stone = Stone::new(Position { x: 6, y: 0 }, Stone::new_t());
    assert!(stone.move_right(&field));
    assert_eq!(stone.position, Position { x: 7, y: 0 });
    assert!(!stone.move_right(&field));
    assert_eq!(stone.position, Position { x: 7, y: 0 });
}

#[test]
fn move_down_stops_at_the_bottom_and_on_tiles() {
    let mut field = Field::default();
    let mut stone = Stone::new(Position { x: 0, y: 17 }, Stone::new_o());
    assert!(stone.move_down(&field));
    assert_eq!(stone.position, Position { x: 0, y: 18 });
    assert!(!stone.move_down(&field));
    field.texture.pixels[10][5] = Some(Tile::new_background(Color::Red));
    let mut t = Stone::new(Position { x: 4, y: 8 }, Stone::new_t());
    assert!(!t.move_down(&field));
    assert_eq!(t.position, Position { x: 4, y: 8 });
    // The T's top tile does not reach down: only the lowest tile per column counts.
    field.texture.pixels[10][5] = Some(Tile::new_background(Color::Gray));
    field.texture.pixels[9][5] = Some(Tile::new_background(Color::Gray));
    assert!(t.move_down(&field));
}

#[test]
fn shapes_have_their_colors() {
    let expected = [
        (Shape::I, Color::LightBlue, 1, 4),
        (Shape::J, Color::DarkBlue, 3, 2),
        (Shape::L, Color::Orange, 3, 2),
        (Shape::Z, Color::Red, 3, 2),
        (Shape::S, Color::Green, 3, 2),
        (Shape::O, Color::Yellow, 2, 2),
        (Shape::T, Color::Purple, 3, 2),
    ];
    for (shape, color, width, height) in expected.iter() {
        let t = Stone::new_shape(*shape);
        assert_eq!(t.dimensions, Dimensions { width: *width, height: *height });
        let tiles: Vec<Tile> = t.pixels.iter().flatten().filter_map(|c| *c).collect();
        assert_eq!(tiles.len(), 4);
        assert!(tiles.iter().all(|tile| tile.background == *color));
    }
}

#[test]
fn shapes_by_index() {
    let order = [Shape::I, Shape::J, Shape::L, Shape::Z, Shape::S, Shape::O, Shape::T];
    for (i, shape) in order.iter().enumerate() {
        assert_eq!(Shape::from_index(i as u8), *shape);
    }
}

#[test]
fn random_texture_is_a_tetromino() {
    for _ in 0..50 {
        let t = Stone::new_random_texture();
        let tiles = t.pixels.iter().flatten().filter(|c| c.is_some()).count();
        assert_eq!(tiles, 4);
        let matches = [Shape::I, Shape::J, Shape::L, Shape::Z, Shape::S, Shape::O, Shape::T]
            .iter()
            .any(|s| Stone::new_shape(*s).pixels == t.pixels);
        assert!(matches);
    }
}
