use tetris::{Canvas, Color, Dimensions, Position, Rgb, Stone, Texture, Tile};

const ESC: &str = "\u{1b}";

fn blank(width: usize, height: usize) -> Canvas {
    Canvas::new(Dimensions { width, height })
}

fn glyphs(canvas: &mut Canvas) -> String {
    // Keep only the glyphs of a frame: drop every escape sequence.
    let frame = canvas.get_printable_string().clone();
    let mut out = String::new();
    let mut chars = frame.chars().peekable();
    while let Some(c) = chars.next() {
        if c == '\u{1b}' {
            for d in chars.by_ref() {
                if d == 'm' || d == 'H' {
                    break;
                }
            }
        } else {
            out.push(c);
        }
    }
    out
}

#[test]
fn color_codes() {
    assert_eq!(Color::Red.to_ansi(), "255;0;0");
    assert_eq!(Color::Yellow.to_ansi(), "255;247;5");
    assert_eq!(Color::Green.to_ansi(), "0;255;0");
    assert_eq!(Color::LightBlue.to_ansi(), "0;170;255");
    assert_eq!(Color::DarkBlue.to_ansi(), "15;32;189");
    assert_eq!(Color::Orange.to_ansi(), "245;167;66");
    assert_eq!(Color::Purple.to_ansi(), "125;15;189");
    assert_eq!(Color::White.to_ansi(), "255;255;255");
    assert_eq!(Color::Black.to_ansi(), "0;0;0");
    assert_eq!(Color::Gray.to_ansi(), "100;100;100");
    assert_eq!(Color::Orange.to_rgb(), Rgb { r: 245, g: 167, b: 66 });
}

#[test]
fn tile_constructors_and_default() {
    assert_eq!(Tile::default(), Tile { foreground: Color::White, background: Color::Black, text: ' ' });
    assert_eq!(
        Tile::new_background(Color::Red),
        Tile { foreground: Color::White, background: Color::Red, text: ' ' }
    );
    assert_eq!(
        Tile::new_character('x', Color::Black, Color::Orange),
        Tile { foreground: Color::Orange, background: Color::Black, text: 'x' }
    );
}

#[test]
fn tile_full_code() {
    let mut buffer = String::from("> ");
    Tile::new_character('a', Color::Red, Color::Green).fill_buffer_with_printable_string(&mut buffer);
    assert_eq!(buffer, format!("> {}[48;2;255;0;0;38;2;0;255;0ma", ESC));
}

#[test]
fn tile_code_relative_to_previous() {
    let previous = Tile::default();
    let same = Tile::new_character('x', Color::Black, Color::White);
    let mut buffer = String::new();
    same.fill_buffer_with_printable_string_with_respect_to_previous_tile(&mut buffer, &previous);
    assert_eq!(buffer, "x");

    let mut buffer = String::new();
    let fg = Tile::new_character('y', Color::Black, Color::Red);
    fg.fill_buffer_with_printable_string_with_respect_to_previous_tile(&mut buffer, &previous);
    assert_eq!(buffer, format!("{}[38;2;255;0;0my", ESC));

    let mut buffer = String::new();
    let both = Tile::new_character('z', Color::Gray, Color::Red);
    both.fill_buffer_with_printable_string_with_respect_to_previous_tile(&mut buffer, &previous);
    assert_eq!(buffer, format!("{}[38;2;255;0;0m{}[48;2;100;100;100mz", ESC, ESC));
}

#[test]
fn tile_printable_string_through_termion() {
    let tile = Tile::new_character('q', Color::DarkBlue, Color::Yellow);
    assert_eq!(
        tile.to_printable_string(),
        format!("{}[48;2;15;32;189m{}[38;2;255;247;5mq", ESC, ESC)
    );
}

#[test]
fn frame_elides_repeated_colors() {
    let mut canvas = blank(3, 2);
    canvas.add_text("ab", Color::Red, Color::White, &Position { x: 1, y: 1 });
    let frame = canvas.get_printable_string().clone();
    let expected = format!(
        "{e}[1;1H{e}[48;2;0;0;0m{e}[38;2;255;255;255m    {e}[48;2;255;0;0mab",
        e = ESC
    );
    assert_eq!(frame, expected);
}

#[test]
fn full_frame_through_termion() {
    let canvas = blank(2, 1);
    let cell = format!("{e}[48;2;0;0;0m{e}[38;2;255;255;255m ", e = ESC);
    assert_eq!(canvas.to_printable_string(), format!("{}[1;1H{}{}", ESC, cell, cell));
}

#[test]
fn texture_overlay_clips_each_side() {
    let mut canvas = blank(4, 3);
    canvas.add_texture(Stone::new_o(), &Position { x: -1, y: -1 });
    assert_eq!(glyphs(&mut canvas), "            ");
    let frame = canvas.get_printable_string().clone();
    // Only the O's bottom-right tile lands, on the first cell.
    assert_eq!(
        frame,
        format!(
            "{e}[1;1H{e}[48;2;0;0;0m{e}[38;2;255;255;255m{e}[48;2;255;247;5m {e}[48;2;0;0;0m           ",
            e = ESC
        )
    );
    let mut canvas = blank(4, 3);
    canvas.add_text("hello", Color::Black, Color::White, &Position { x: 2, y: 2 });
    assert_eq!(glyphs(&mut canvas), "          he");
    let mut canvas = blank(4, 3);
    canvas.add_text("far", Color::Black, Color::White, &Position { x: 100, y: 100 });
    assert_eq!(glyphs(&mut canvas), "            ");
    canvas.add_text("left", Color::Black, Color::White, &Position { x: -2, y: 0 });
    assert_eq!(glyphs(&mut canvas), "ft          ");
}

#[test]
fn transparent_cells_keep_the_canvas() {
    let mut canvas = blank(3, 1);
    canvas.add_text("xyz", Color::Black, Color::White, &Position { x: 0, y: 0 });
    let mut texture = Texture::new(Dimensions { width: 3, height: 1 });
    texture.pixels[0][1] = Some(Tile::new_character('#', Color::Black, Color::White));
    canvas.add_texture(texture, &Position { x: 0, y: 0 });
    assert_eq!(glyphs(&mut canvas), "x#z");
}

#[test]
fn clear_resets_every_tile() {
    let mut canvas = blank(3, 2);
    canvas.add_texture(
        Texture::new_background(Dimensions { width: 3, height: 2 }, Color::Red),
        &Position { x: 0, y: 0 },
    );
    canvas.add_text("abc", Color::Red, Color::Green, &Position { x: 0, y: 1 });
    canvas.clear();
    let fresh = blank(3, 2).to_printable_string();
    assert_eq!(canvas.to_printable_string(), fresh);
}

#[test]
fn themed_paragraph_stacks_lines() {
    let mut canvas = blank(5, 3);
    canvas.add_themed_paragraph(&["ab", "cde"], Position { x: 1, y: 0 });
    assert_eq!(glyphs(&mut canvas), " ab   cde      ");
    let frame = canvas.get_printable_string().clone();
    assert!(frame.contains(&format!("{}[38;2;245;167;66m", ESC)));
    let mut single = blank(5, 1);
    single.add_themed_text("hi", &Position { x: 3, y: 0 });
    assert_eq!(glyphs(&mut single), "   hi");
}

#[test]
fn empty_texture_and_text_change_nothing() {
    let mut canvas = blank(2, 2);
    canvas.add_texture(Texture::new(Dimensions { width: 0, height: 0 }), &Position { x: 0, y: 0 });
    canvas.add_text("", Color::Red, Color::Red, &Position { x: 0, y: 0 });
    assert_eq!(canvas.to_printable_string(), blank(2, 2).to_printable_string());
}

#[test]
fn dimensions_transpose() {
    let mut d = Dimensions { width: 3, height: 7 };
    assert_eq!(d.transpose_into(), Dimensions { width: 7, height: 3 });
    d.transpose();
    assert_eq!(d, Dimensions { width: 7, height: 3 });
}

#[test]
fn texture_constructors() {
    let t = Texture::new(Dimensions { width: 3, height: 2 });
    assert_eq!(t.pixels, vec![vec![None; 3]; 2]);
    let b = Texture::new_background(Dimensions { width: 2, height: 1 }, Color::Gray);
    assert_eq!(b.pixels, vec![vec![Some(Tile::new_background(Color::Gray)); 2]]);
    let d = b.duplicate();
    assert_eq!(d.pixels, b.pixels);
    assert_eq!(d.dimensions, b.dimensions);
}

#[test]
fn position_moves() {
    let mut p = Position::default();
    p.move_down();
    p.move_right();
    assert_eq!(p, Position { x: 1, y: 1 });
    p.move_up();
    p.move_left();
    p.move_left();
    assert_eq!(p, Position { x: -1, y: 0 });
}

#[test]
fn canvas_keeps_its_size() {
    let size = Dimensions { width: 4, height: 3 };
    let mut canvas = Canvas::new(size);
    assert_eq!(canvas.dimensions, size);
    canvas.add_texture(Stone::new_i(), &Position { x: -2, y: 5 });
    canvas.add_text("overflowing", Color::Red, Color::White, &Position { x: 1, y: 1 });
    canvas.add_themed_paragraph(&["a", "b", "c", "d"], Position { x: 0, y: 0 });
    canvas.clear();
    let _ = canvas.get_printable_string();
    assert_eq!(canvas.dimensions, size);
    assert_eq!(canvas.rows.len(), 3);
    assert!(canvas.rows.iter().all(|row| row.len() == 4));
    let mut empty = Canvas::new(Dimensions { width: 7, height: 0 });
    empty.add_text("x", Color::Red, Color::Red, &Position { x: 0, y: 0 });
    assert_eq!(empty.dimensions, Dimensions { width: 7, height: 0 });
}
