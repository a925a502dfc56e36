use tetris::{Color, Field, Position, Stone, Texture, Tile, FIELD_HEIGHT, FIELD_WIDTH};

#[test]
fn get_tile_at_pos() {
    let mut field = Field::default();
    *field.texture.pixels.get_mut(3).unwrap().get_mut(2).unwrap() =
        Some(Tile::new_background(Color::Red));
    let tile_at_pos = field.get_tile_at_pos(&Position { x: 2, y: 3 });
    let color = tile_at_pos.unwrap().background;
    assert_eq!(color, Color::Red);
    assert!(!field.all_positions_free(&[Position { x: 2, y: 3 }]));
    assert!(field.all_positions_free(&[Position { x: 3, y: 3 }]));
}

#[test]
fn add_texture() {
    let mut field = Field::default();
    let stone = Stone::new(Position { y: 4, x: 2 }, Stone::new_t());
    field.add_to_texture(stone.texture, stone.position);
    assert!(field.position_free(&Position { y: 4, x: 2 }));
    assert!(!field.position_free(&Position { y: 4, x: 3 }));
    assert!(field.position_free(&Position { y: 4, x: 4 }));
    assert!(!field.position_free(&Position { y: 5, x: 2 }));
    assert!(!field.position_free(&Position { y: 5, x: 3 }));
    assert!(!field.position_free(&Position { y: 5, x: 4 }));
}

#[test]
fn outside_positions_are_absent_and_free() {
    let field = Field::default();
    let outside = [
        Position { x: -1, y: 0 },
        Position { x: 0, y: -1 },
        Position { x: 10, y: 0 },
        Position { x: 0, y: 20 },
        Position { x: 127, y: 127 },
        Position { x: -128, y: -128 },
    ];
    for p in outside.iter() {
        assert!(field.get_tile_at_pos(p).is_none());
        assert!(field.position_free(p));
    }
    assert!(field.all_positions_free(&outside));
    assert!(field.all_positions_free(&[]));
}

#[test]
fn empty_field_is_gray_and_free() {
    let field = Field::default();
    assert_eq!(field.dimensions().width, FIELD_WIDTH);
    assert_eq!(field.dimensions().height, FIELD_HEIGHT);
    assert_eq!(field.texture.pixels.len(), 20);
    let corner = field.get_tile_at_pos(&Position { x: 9, y: 19 }).unwrap();
    assert_eq!(*corner, Tile::new_background(Color::Gray));
    assert!(field.position_free(&Position { x: 9, y: 19 }));
}

#[test]
fn l_piece_stamped_covers_its_four_cells() {
    let mut field = Field::default();
    let stone = Stone::new(Position { x: 2, y: 4 }, Stone::new_l());
    field.add_to_texture(stone.texture, stone.position);
    let covered = [(4, 4), (2, 5), (3, 5), (4, 5)];
    for (x, y) in covered.iter() {
        assert!(!field.position_free(&Position { x: *x, y: *y }));
        let tile = field.get_tile_at_pos(&Position { x: *x, y: *y }).unwrap();
        assert_eq!(tile.background, Color::Orange);
    }
    let adjacent = [(2, 4), (3, 4), (5, 4), (4, 3), (1, 5), (5, 5), (2, 6), (3, 6), (4, 6)];
    for (x, y) in adjacent.iter() {
        assert!(field.position_free(&Position { x: *x, y: *y }));
    }
}

#[test]
fn stamping_clips_at_the_borders() {
    let mut field = Field::default();
    field.add_to_texture(Stone::new_o(), Position { x: 9, y: -1 });
    assert!(!field.position_free(&Position { x: 9, y: 0 }));
    let occupied = field
        .texture
        .pixels
        .iter()
        .flatten()
        .filter(|c| c.unwrap().background != Color::Gray)
        .count();
    assert_eq!(occupied, 1);
    assert_eq!(field.texture.pixels.len(), 20);
    assert!(field.texture.pixels.iter().all(|row| row.len() == 10));
}

#[test]
fn transparent_cells_do_not_overwrite() {
    let mut field = Field::default();
    let mut red = Texture::new_background(tetris::Dimensions { width: 10, height: 20 }, Color::Red);
    red.pixels[0][0] = None;
    field.add_to_texture(red, Position { x: 0, y: 0 });
    assert!(field.position_free(&Position { x: 0, y: 0 }));
    assert!(!field.position_free(&Position { x: 1, y: 0 }));
}

#[test]
fn get_tile_at_pos_mut_changes_the_field() {
    let mut field = Field::default();
    {
        let tile = field.get_tile_at_pos_mut(&Position { x: 4, y: 7 }).unwrap();
        tile.background = Color::Green;
    }
    assert!(!field.position_free(&Position { x: 4, y: 7 }));
    assert!(field.get_tile_at_pos_mut(&Position { x: 10, y: 7 }).is_none());
    assert!(field.get_tile_at_pos_mut(&Position { x: -1, y: 7 }).is_none());
}

fn fill_row(field: &mut Field, row: usize, color: Color) {
    for cell in field.texture.pixels[row].iter_mut() {
        *cell = Some(Tile::new_background(color));
    }
}

#[test]
fn full_row_is_cleared_and_moved_to_the_top() {
    let mut field = Field::default();
    fill_row(&mut field, 19, Color::Red);
    field.texture.pixels[18][3] = Some(Tile::new_background(Color::Green));
    let deleted = field.try_delete_lines();
    assert_eq!(deleted, 1);
    assert_eq!(field.texture.pixels.len(), 20);
    for x in 0..10 {
        assert!(field.position_free(&Position { x, y: 0 }));
        assert_eq!(field.texture.pixels[0][x as usize], Some(Tile::new_background(Color::Gray)));
    }
    // The partly filled row moved down by one.
    assert!(!field.position_free(&Position { x: 3, y: 19 }));
    assert!(field.position_free(&Position { x: 4, y: 19 }));
}

#[test]
fn several_full_rows_float_up_in_order() {
    let mut field = Field::default();
    fill_row(&mut field, 5, Color::Red);
    fill_row(&mut field, 12, Color::DarkBlue);
    field.texture.pixels[10][0] = Some(Tile::new_background(Color::Yellow));
    field.texture.pixels[15][9] = Some(Tile::new_background(Color::Purple));
    let deleted = field.try_delete_lines();
    assert_eq!(deleted, 2);
    assert_eq!(field.texture.pixels.len(), 20);
    for y in 0..20 {
        let count = field.texture.pixels[y]
            .iter()
            .filter(|c| c.unwrap().background != Color::Gray)
            .count();
        if y == 11 || y == 15 {
            assert_eq!(count, 1);
        } else {
            assert_eq!(count, 0);
        }
    }
    // Rows below the lowest cleared row keep their place; rows above it move
    // down by the number of cleared rows above them.
    assert_eq!(field.texture.pixels[15][9].unwrap().background, Color::Purple);
    assert_eq!(field.texture.pixels[11][0].unwrap().background, Color::Yellow);
}

#[test]
fn no_full_row_changes_nothing() {
    let mut field = Field::default();
    field.texture.pixels[19][0] = Some(Tile::new_background(Color::Red));
    let before = field.texture.pixels.clone();
    assert_eq!(field.try_delete_lines(), 0);
    assert_eq!(field.texture.pixels, before);
}
