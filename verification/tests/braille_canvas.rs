use aether::braille::BrailleCanvas;
use aether::palette::Color;

#[test]
fn test_empty_canvas_all_blank_braille() {
    let canvas = BrailleCanvas::new(3, 2);
    for cy in 0..2 {
        for cx in 0..3 {
            assert_eq!(
                canvas.cell_char(cx, cy),
                '\u{2800}',
                "cell ({cx},{cy}) should be blank braille"
            );
        }
    }
}

#[test]
fn test_all_dots_set_gives_u28ff() {
    let mut canvas = BrailleCanvas::new(1, 1);
    for y in 0..4 {
        for x in 0..2 {
            canvas.set_pixel(x, y);
        }
    }
    assert_eq!(canvas.cell_char(0, 0), '\u{28FF}');
}

#[test]
fn test_set_pixel_0_0_sets_bit_0x01() {
    let mut canvas = BrailleCanvas::new(1, 1);
    canvas.set_pixel(0, 0);
    assert_eq!(canvas.cell_dots(0, 0), 0x01);
}

#[test]
fn test_set_pixel_1_3_sets_bit_0x80() {
    let mut canvas = BrailleCanvas::new(1, 1);
    canvas.set_pixel(1, 3);
    assert_eq!(canvas.cell_dots(0, 0), 0x80);
}

#[test]
fn test_pixel_dimensions_match_cell_dimensions() {
    let canvas = BrailleCanvas::new(40, 10);
    assert_eq!(canvas.pixel_width(), 80, "pixel_width = cell_width * 2");
    assert_eq!(canvas.pixel_height(), 40, "pixel_height = cell_height * 4");
}

#[test]
fn test_clear_pixel_removes_dot() {
    let mut canvas = BrailleCanvas::new(1, 1);
    canvas.set_pixel(0, 0);
    canvas.set_pixel(1, 0);
    canvas.clear_pixel(0, 0);
    assert_eq!(canvas.cell_dots(0, 0), 0x08, "only (1,0) dot should remain");
}

#[test]
fn test_clear_resets_all_cells() {
    let mut canvas = BrailleCanvas::new(2, 2);
    canvas.set_pixel(0, 0);
    canvas.set_pixel(2, 4);
    canvas.clear();
    for cy in 0..2 {
        for cx in 0..2 {
            assert_eq!(canvas.cell_dots(cx, cy), 0);
        }
    }
}

#[test]
fn test_set_pixel_colored_stores_color() {
    let mut canvas = BrailleCanvas::new(1, 1);
    let color = Color::Rgb(0, 240, 255);
    canvas.set_pixel_colored(0, 0, color);
    assert_eq!(canvas.cell_color(0, 0), color);
    assert_eq!(canvas.cell_dots(0, 0), 0x01);
}

#[test]
fn test_out_of_bounds_ignored() {
    let mut canvas = BrailleCanvas::new(1, 1);
    canvas.set_pixel(2, 0); // x out of bounds
    canvas.set_pixel(0, 4); // y out of bounds
    assert_eq!(canvas.cell_dots(0, 0), 0);
}

#[test]
fn test_to_lines_produces_correct_output() {
    let mut canvas = BrailleCanvas::new(2, 1);
    canvas.set_pixel(0, 0); // cell (0,0) bit 0x01
    canvas.set_pixel(2, 0); // cell (1,0) bit 0x01
    let lines = canvas.to_lines();
    assert_eq!(lines.len(), 1);
    let (text, colors) = &lines[0];
    assert_eq!(text.chars().count(), 2);
    assert_eq!(text.chars().next().unwrap(), '\u{2801}');
    assert_eq!(text.chars().nth(1).unwrap(), '\u{2801}');
    assert_eq!(colors.len(), 2);
}

#[test]
fn braille_dot_map_matches_standard_numbering() {
    let expected = [(0, 0, 0x01), (0, 1, 0x02), (0, 2, 0x04), (0, 3, 0x40),
        (1, 0, 0x08), (1, 1, 0x10), (1, 2, 0x20), (1, 3, 0x80)];
    for (x, y, bit) in expected {
        let mut canvas = BrailleCanvas::new(1, 1);
        canvas.set_pixel(x, y);
        assert_eq!(canvas.cell_dots(0, 0), bit);
    }
}

#[test]
fn braille_pixel_lands_in_its_cell() {
    let mut canvas = BrailleCanvas::new(3, 2);
    canvas.set_pixel(5, 7); // cell (2,1), dot (1,3)
    assert_eq!(canvas.cell_dots(2, 1), 0x80);
    assert_eq!(canvas.cell_char(2, 1), '\u{2880}');
    assert_eq!(canvas.cell_dots(0, 0), 0);
    assert_eq!(canvas.cell_dots(2, 0), 0);
}

#[test]
fn braille_clear_pixel_off_canvas_ignored_and_colors_reset() {
    let mut canvas = BrailleCanvas::new(1, 1);
    canvas.set_pixel_colored(1, 1, Color::Rgb(1, 2, 3));
    canvas.clear_pixel(9, 9);
    assert_eq!(canvas.cell_dots(0, 0), 0x10);
    canvas.clear();
    assert_eq!(canvas.cell_color(0, 0), Color::Reset);
    assert_eq!(canvas.cell_char(0, 0), '\u{2800}');
}

#[test]
fn braille_to_lines_rows_and_colors() {
    let mut canvas = BrailleCanvas::new(2, 2);
    canvas.set_pixel_colored(3, 4, Color::Rgb(9, 9, 9)); // cell (1,1), dot (1,0)
    let lines = canvas.to_lines();
    assert_eq!(lines.len(), 2);
    assert_eq!(lines[0].0, "\u{2800}\u{2800}");
    assert_eq!(lines[1].0, "\u{2800}\u{2808}");
    assert_eq!(lines[1].1, vec![Color::Reset, Color::Rgb(9, 9, 9)]);
    assert_eq!(lines[0].1, vec![Color::Reset, Color::Reset]);
}
