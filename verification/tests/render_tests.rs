use flappy_bird::obstacle::Obstacle;
use flappy_bird::render::{
    chars_of, decimal_text, draw_menu, draw_pause, draw_pipe, draw_pipes, draw_player, draw_score,
    draw_text, Cell, Color, MAX_TEXT_LEN, PIPE_CHAR, PLAYER_CHAR,
};

const GOLD: Color = Color::Rgb { r: 255, g: 215, b: 0 };

fn line(cells: &[Cell]) -> String {
    cells.iter().map(|c| c.glyph).collect()
}

fn expect_line(cells: &[Cell], text: &str, first_x: i32, y: i32, color: Color) {
    assert_eq!(line(cells), text);
    for (i, c) in cells.iter().enumerate() {
        assert_eq!(c.x, first_x + i as i32);
        assert_eq!(c.y, y);
        assert_eq!(c.color, color);
    }
}

fn string_of(chars: Vec<char>) -> String {
    chars.into_iter().collect()
}

#[test]
fn decimal_text_of_small_numbers() {
    assert_eq!(string_of(decimal_text(0)), "0");
    assert_eq!(string_of(decimal_text(7)), "7");
    assert_eq!(string_of(decimal_text(9)), "9");
    assert_eq!(string_of(decimal_text(10)), "10");
    assert_eq!(string_of(decimal_text(1234567890)), "1234567890");
    assert_eq!(string_of(decimal_text(100)), "100");
}

#[test]
fn decimal_text_of_negative_numbers() {
    assert_eq!(string_of(decimal_text(-1)), "-1");
    assert_eq!(string_of(decimal_text(-10)), "-10");
    assert_eq!(string_of(decimal_text(-907)), "-907");
}

#[test]
fn decimal_text_at_the_limits() {
    assert_eq!(string_of(decimal_text(i32::MAX)), "2147483647");
    assert_eq!(string_of(decimal_text(i32::MIN)), "-2147483648");
}

#[test]
fn decimal_text_agrees_with_the_standard_formatting() {
    for n in [0, 1, -1, 19, 20, 99, 101, 4096, -4096, 65535, 999999999, 1000000000, -1000000000] {
        assert_eq!(string_of(decimal_text(n)), format!("{}", n));
    }
}

#[test]
fn chars_of_a_string() {
    assert_eq!(chars_of("abc"), vec!['a', 'b', 'c']);
    assert_eq!(chars_of(""), Vec::<char>::new());
    assert_eq!(chars_of("Press Q"), vec!['P', 'r', 'e', 's', 's', ' ', 'Q']);
}

#[test]
fn text_is_centred_in_the_field() {
    let cells = draw_text(&chars_of("abcd"), 3, Color::Green, 10);
    expect_line(&cells, "abcd", 3, 3, Color::Green);
    let odd = draw_text(&chars_of("abc"), 0, Color::Red, 10);
    expect_line(&odd, "abc", 3, 0, Color::Red);
}

#[test]
fn text_wider_than_the_field_starts_left_of_it() {
    let cells = draw_text(&chars_of("abcdefgh"), 1, Color::White, 4);
    expect_line(&cells, "abcdefgh", -2, 1, Color::White);
    // half of an odd overhang is rounded towards zero
    let odd = draw_text(&chars_of("abcdefg"), 1, Color::White, 4);
    expect_line(&odd, "abcdefg", -1, 1, Color::White);
    let one = draw_text(&chars_of("ab"), 1, Color::White, 1);
    expect_line(&one, "ab", 0, 1, Color::White);
}

#[test]
fn empty_text_has_no_cells() {
    assert!(draw_text(&Vec::new(), 1, Color::White, 22).is_empty());
    assert!(MAX_TEXT_LEN >= 32);
}

#[test]
fn text_in_fields_of_extreme_width() {
    let wide = draw_text(&chars_of("ab"), 0, Color::White, i32::MAX);
    expect_line(&wide, "ab", (i32::MAX - 2) / 2, 0, Color::White);
    let negative = draw_text(&chars_of("ab"), 0, Color::White, i32::MIN);
    expect_line(&negative, "ab", -1073741825, 0, Color::White);
}

#[test]
fn score_is_drawn_in_the_top_row() {
    expect_line(&draw_score(0, 22), "0", 10, 0, Color::White);
    expect_line(&draw_score(7, 22), "7", 10, 0, Color::White);
    expect_line(&draw_score(42, 22), "42", 10, 0, Color::White);
    expect_line(&draw_score(12345, 22), "12345", 8, 0, Color::White);
    expect_line(&draw_score(-7, 22), "-7", 10, 0, Color::White);
}

#[test]
fn player_is_a_red_letter() {
    assert_eq!(draw_player(0, 5), Cell { x: 0, y: 5, glyph: 'B', color: Color::Red });
    assert_eq!(draw_player(-1, 10), Cell { x: -1, y: 10, glyph: PLAYER_CHAR, color: Color::Red });
}

#[test]
fn pipe_is_drawn_column_by_column() {
    let cells = draw_pipe(1, 2, 2, 3);
    let places: Vec<(i32, i32)> = cells.iter().map(|c| (c.x, c.y)).collect();
    assert_eq!(places, vec![(1, 2), (1, 3), (1, 4), (2, 2), (2, 3), (2, 4)]);
    for c in &cells {
        assert_eq!(c.glyph, '#');
        assert_eq!(c.glyph, PIPE_CHAR);
        assert_eq!(c.color, Color::Green);
    }
}

#[test]
fn pipe_of_one_column() {
    let cells = draw_pipe(22, 0, 1, 4);
    let places: Vec<(i32, i32)> = cells.iter().map(|c| (c.x, c.y)).collect();
    assert_eq!(places, vec![(22, 0), (22, 1), (22, 2), (22, 3)]);
}

#[test]
fn pipe_without_columns_or_rows_has_no_cells() {
    assert!(draw_pipe(1, 1, 0, 5).is_empty());
    assert!(draw_pipe(1, 1, 5, 0).is_empty());
    assert!(draw_pipe(1, 1, -2, 5).is_empty());
    assert!(draw_pipe(1, 1, 5, -2).is_empty());
    assert!(draw_pipe(i32::MAX, i32::MAX, 0, 0).is_empty());
}

#[test]
fn pipe_at_the_last_place_of_the_screen() {
    let cells = draw_pipe(i32::MAX, i32::MAX - 1, 1, 2);
    let places: Vec<(i32, i32)> = cells.iter().map(|c| (c.x, c.y)).collect();
    assert_eq!(places, vec![(i32::MAX, i32::MAX - 1), (i32::MAX, i32::MAX)]);
}

#[test]
fn pipes_are_drawn_one_after_the_other() {
    let pipes = vec![
        Obstacle { x: 4, y: 0, width: 1, height: 2 },
        Obstacle { x: 4, y: 4, width: 1, height: 1 },
        Obstacle { x: 9, y: 0, width: 0, height: 3 },
        Obstacle { x: 7, y: 1, width: 2, height: 1 },
    ];
    let cells = draw_pipes(&pipes);
    let places: Vec<(i32, i32)> = cells.iter().map(|c| (c.x, c.y)).collect();
    assert_eq!(places, vec![(4, 0), (4, 1), (4, 4), (7, 1), (8, 1)]);
    assert!(draw_pipes(&Vec::new()).is_empty());
}

#[test]
fn menu_has_four_centred_lines() {
    let cells = draw_menu(7, 22);
    assert_eq!(cells.len(), 11 + 20 + 15 + 13);
    expect_line(&cells[0..11], "Flappy Bird", 5, 2, Color::White);
    expect_line(&cells[11..31], "Press Enter to start", 1, 4, Color::White);
    expect_line(&cells[31..46], "Press Q to quit", 3, 6, Color::White);
    expect_line(&cells[46..59], "High Score: 7", 4, 8, GOLD);
}

#[test]
fn menu_shows_a_long_high_score() {
    let cells = draw_menu(i32::MIN, 22);
    assert_eq!(cells.len(), 11 + 20 + 15 + 23);
    expect_line(&cells[46..], "High Score: -2147483648", 0, 8, GOLD);
    let top = draw_menu(i32::MAX, 22);
    expect_line(&top[46..], "High Score: 2147483647", 0, 8, GOLD);
}

#[test]
fn menu_in_a_narrow_field() {
    let cells = draw_menu(0, 9);
    expect_line(&cells[0..11], "Flappy Bird", -1, 2, Color::White);
    expect_line(&cells[11..31], "Press Enter to start", -5, 4, Color::White);
    expect_line(&cells[31..46], "Press Q to quit", -3, 6, Color::White);
    expect_line(&cells[46..59], "High Score: 0", -2, 8, GOLD);
}

#[test]
fn pause_screen_has_four_centred_lines() {
    let cells = draw_pause(7, 22);
    assert_eq!(cells.len(), 6 + 13 + 21 + 15);
    expect_line(&cells[0..6], "Paused", 8, 2, Color::White);
    expect_line(&cells[6..19], "High Score: 7", 4, 4, GOLD);
    expect_line(&cells[19..40], "Press Enter to resume", 0, 6, Color::White);
    expect_line(&cells[40..55], "Press Q to quit", 3, 8, Color::White);
}

#[test]
fn pause_screen_shows_a_large_high_score() {
    let cells = draw_pause(1234, 22);
    expect_line(&cells[6..22], "High Score: 1234", 3, 4, GOLD);
    expect_line(&cells[22..43], "Press Enter to resume", 0, 6, Color::White);
}
