//! What is drawn: every picture of the game as a list of coloured character
//! cells, in the order in which they are to be put on the screen. A later
//! cell covers an earlier one at the same place.

use vstd::arithmetic::div_mod::lemma_fundamental_div_mod_converse;
use vstd::prelude::*;
use crate::obstacle::Obstacle;

verus! {

/// Colours of the cells.
#[derive(Clone, Copy, Debug, PartialEq, Eq, Structural)]
pub enum Color {
    Red,
    Green,
    White,
    Rgb { r: u8, g: u8, b: u8 },
}

/// One character at one place of the screen.
#[derive(Clone, Copy, Debug, PartialEq, Eq, Structural)]
pub struct Cell {
    pub x: i32,
    pub y: i32,
    pub glyph: char,
    pub color: Color,
}

/// The character that shows the player.
pub const PLAYER_CHAR: char = 'B';

/// The character that obstacles are made of.
pub const PIPE_CHAR: char = '#';

/// Longest text that `draw_text` lays out.
pub const MAX_TEXT_LEN: usize = 0x1000_0000;

/// The colour of the high score.
pub open spec fn gold() -> Color {
    Color::Rgb { r: 255, g: 215, b: 0 }
}

/// Half of `n`, rounded towards zero.
pub open spec fn half_toward_zero(n: int) -> int {
    if n >= 0 {
        n / 2
    } else {
        -((-n) / 2)
    }
}

/// The column of character `i` of a text of `len` characters that is centred
/// in a field of `field_width` columns.
pub open spec fn centered_column(field_width: int, len: int, i: int) -> int {
    i + half_toward_zero(field_width - len)
}

/// The cell of character `i` of `text`, centred in row `row` of a field of
/// `field_width` columns.
pub open spec fn text_cell(text: Seq<char>, row: i32, color: Color, field_width: i32, i: int) -> Cell {
    Cell { x: centered_column(field_width as int, text.len() as int, i) as i32, y: row, glyph: text[i], color }
}

/// The cells of `text`, centred in row `row` of a field of `field_width`
/// columns.
pub open spec fn text_cells(text: Seq<char>, row: i32, color: Color, field_width: i32) -> Seq<Cell> {
    Seq::new(text.len(), |i: int| text_cell(text, row, color, field_width, i))
}

/// Cell `k` of an obstacle with top left corner `(x, y)` and `height` rows:
/// the cells run down the first column, then down the second, and so on.
pub open spec fn pipe_cell(x: i32, y: i32, height: i32, k: int) -> Cell {
    Cell { x: (x + k / (height as int)) as i32, y: (y + k % (height as int)) as i32, glyph: PIPE_CHAR, color: Color::Green }
}

/// The cells of an obstacle. One without columns or rows has none.
pub open spec fn pipe_cells(x: i32, y: i32, width: i32, height: i32) -> Seq<Cell> {
    if width <= 0 || height <= 0 {
        Seq::empty()
    } else {
        Seq::new((width * height) as nat, |k: int| pipe_cell(x, y, height, k))
    }
}

/// The right and bottom edge of the obstacle are places of the screen.
pub open spec fn drawable(o: Obstacle) -> bool {
    o.width > 0 && o.height > 0 ==> o.x + o.width - 1 <= i32::MAX && o.y + o.height - 1 <= i32::MAX
}

/// The cells of all obstacles of `s`, one obstacle after the other.
pub open spec fn obstacle_cells(s: Seq<Obstacle>) -> Seq<Cell>
    decreases s.len(),
{
    if s.len() == 0 {
        Seq::empty()
    } else {
        obstacle_cells(s.drop_last()) + pipe_cells(s.last().x, s.last().y, s.last().width, s.last().height)
    }
}

/// The cell that shows the player.
pub open spec fn player_cell(x: i32, y: i32) -> Cell {
    Cell { x, y, glyph: PLAYER_CHAR, color: Color::Red }
}

/// The character of a decimal digit.
pub open spec fn digit_char(d: int) -> char {
    if d == 0 {
        '0'
    } else if d == 1 {
        '1'
    } else if d == 2 {
        '2'
    } else if d == 3 {
        '3'
    } else if d == 4 {
        '4'
    } else if d == 5 {
        '5'
    } else if d == 6 {
        '6'
    } else if d == 7 {
        '7'
    } else if d == 8 {
        '8'
    } else {
        '9'
    }
}

/// The decimal digits of a natural number, without leading zeros.
pub open spec fn decimal_nat(n: nat) -> Seq<char>
    decreases n,
{
    if n < 10 {
        seq![digit_char(n as int)]
    } else {
        decimal_nat(n / 10).push(digit_char((n % 10) as int))
    }
}

/// An integer written in decimal, with a minus sign if it is negative.
pub open spec fn decimal(n: int) -> Seq<char> {
    if n < 0 {
        seq!['-'] + decimal_nat((-n) as nat)
    } else {
        decimal_nat(n as nat)
    }
}

/// The characters of a string.
pub fn chars_of(s: &str) -> (chars: Vec<char>)
    ensures
        chars@ == s@,
{
    let n = s.unicode_len();
    let mut chars: Vec<char> = Vec::new();
    let mut i: usize = 0;
    while i < n
        invariant
            i <= n,
            n == s@.len(),
            chars@ == s@.take(i as int),
        decreases n - i,
    {
        chars.push(s.get_char(i));
        assert(s@.take(i + 1) =~= s@.take(i as int).push(s@[i as int]));
        i += 1;
    }
    assert(s@.take(n as int) =~= s@);
    chars
}

/// The character of the digit `d`.
fn digit(d: u32) -> (c: char)
    requires
        d < 10,
    ensures
        c == digit_char(d as int),
{
    if d == 0 {
        '0'
    } else if d == 1 {
        '1'
    } else if d == 2 {
        '2'
    } else if d == 3 {
        '3'
    } else if d == 4 {
        '4'
    } else if d == 5 {
        '5'
    } else if d == 6 {
        '6'
    } else if d == 7 {
        '7'
    } else if d == 8 {
        '8'
    } else {
        '9'
    }
}

/// Appends the decimal digits of `n` to `out`.
fn push_decimal(n: u32, out: &mut Vec<char>)
    ensures
        final(out)@ == old(out)@ + decimal_nat(n as nat),
    decreases n,
{
    if n >= 10 {
        push_decimal(n / 10, out);
    }
    out.push(digit(n % 10));
    assert(out@ =~= old(out)@ + decimal_nat(n as nat));
}

/// A number that 32 bits hold has at most ten digits.
pub proof fn lemma_decimal_len(n: nat)
    requires
        n <= 0xffff_ffff,
    ensures
        1 <= decimal_nat(n).len() <= 10,
{
    reveal_with_fuel(decimal_nat, 11);
}

/// Writes `n` in decimal.
pub fn decimal_text(n: i32) -> (text: Vec<char>)
    ensures
        text@ == decimal(n as int),
        1 <= text@.len() <= 11,
{
    let mut text: Vec<char> = Vec::new();
    if n < 0 {
        text.push('-');
        let magnitude: u32 = (-(n as i64)) as u32;
        push_decimal(magnitude, &mut text);
        proof {
            lemma_decimal_len(magnitude as nat);
        }
    } else {
        push_decimal(n as u32, &mut text);
        proof {
            lemma_decimal_len(n as nat);
        }
    }
    assert(text@ =~= decimal(n as int));
    text
}

/// Character `i` of `text`.
fn char_at(text: &Vec<char>, i: usize) -> (c: char)
    requires
        i < text@.len(),
    ensures
        c == text@[i as int],
{
    text[i]
}

/// Lays out `text` centred in row `row` of a field of `field_width`
/// columns, one cell for each character.
pub fn draw_text(text: &Vec<char>, row: i32, color: Color, field_width: i32) -> (cells: Vec<Cell>)
    requires
        text@.len() <= MAX_TEXT_LEN,
    ensures
        cells@ == text_cells(text@, row, color, field_width),
{
    let len: i64 = text.len() as i64;
    let offset: i64 = (field_width as i64 - len) / 2;
    let mut cells: Vec<Cell> = Vec::new();
    let mut i: usize = 0;
    while i < text.len()
        invariant
            i <= text.len(),
            len == text@.len(),
            len <= MAX_TEXT_LEN,
            offset == half_toward_zero(field_width - len),
            cells@.len() == i,
            forall|k: int| 0 <= k < i ==> #[trigger] cells@[k] == text_cell(text@, row, color, field_width, k),
        decreases text.len() - i,
    {
        let x: i64 = i as i64 + offset;
        let glyph: char = char_at(text, i);
        cells.push(Cell { x: x as i32, y: row, glyph, color });
        i += 1;
    }
    assert(cells@ =~= text_cells(text@, row, color, field_width));
    cells
}

/// The cells of one obstacle: column after column, each from the top down.
pub fn draw_pipe(x: i32, y: i32, width: i32, height: i32) -> (cells: Vec<Cell>)
    requires
        drawable(Obstacle { x, y, width, height }),
    ensures
        cells@ == pipe_cells(x, y, width, height),
{
    let mut cells: Vec<Cell> = Vec::new();
    if width <= 0 || height <= 0 {
        return cells;
    }
    let ghost mut base: int = 0;
    let mut i: i32 = 0;
    while i < width
        invariant
            0 <= i <= width,
            height > 0,
            x + width - 1 <= i32::MAX,
            y + height - 1 <= i32::MAX,
            base == i * height,
            cells@.len() == base,
            forall|k: int| 0 <= k < cells@.len() ==> #[trigger] cells@[k] == pipe_cell(x, y, height, k),
        decreases width - i,
    {
        let mut j: i32 = 0;
        while j < height
            invariant
                0 <= i < width,
                0 <= j <= height,
                x + width - 1 <= i32::MAX,
                y + height - 1 <= i32::MAX,
                base == i * height,
                cells@.len() == base + j,
                forall|k: int| 0 <= k < cells@.len() ==> #[trigger] cells@[k] == pipe_cell(x, y, height, k),
            decreases height - j,
        {
            proof {
                lemma_fundamental_div_mod_converse(base + j, height as int, i as int, j as int);
            }
            cells.push(Cell { x: x + i, y: y + j, glyph: PIPE_CHAR, color: Color::Green });
            j += 1;
        }
        proof {
            assert((i + 1) * height == i * height + height) by (nonlinear_arith);
            base = base + height;
        }
        i += 1;
    }
    assert(cells@ =~= pipe_cells(x, y, width, height));
    cells
}

/// The cells of all obstacles of `pipes`, in their order.
pub fn draw_pipes(pipes: &Vec<Obstacle>) -> (cells: Vec<Cell>)
    requires
        forall|i: int| 0 <= i < pipes@.len() ==> drawable(#[trigger] pipes@[i]),
    ensures
        cells@ == obstacle_cells(pipes@),
{
    let mut cells: Vec<Cell> = Vec::new();
    let mut i: usize = 0;
    while i < pipes.len()
        invariant
            i <= pipes.len(),
            forall|k: int| 0 <= k < pipes@.len() ==> drawable(#[trigger] pipes@[k]),
            cells@ == obstacle_cells(pipes@.take(i as int)),
        decreases pipes.len() - i,
    {
        let o = pipes[i];
        assert(drawable(pipes@[i as int]));
        let mut part = draw_pipe(o.x, o.y, o.width, o.height);
        cells.append(&mut part);
        proof {
            assert(pipes@.take(i + 1).drop_last() =~= pipes@.take(i as int));
        }
        i += 1;
    }
    assert(pipes@.take(i as int) =~= pipes@);
    cells
}

/// The cell that shows the player at `(x, y)`.
pub fn draw_player(x: i32, y: i32) -> (cell: Cell)
    ensures
        cell == player_cell(x, y),
{
    Cell { x, y, glyph: PLAYER_CHAR, color: Color::Red }
}

/// The score, centred in the top row.
pub fn draw_score(score: i32, field_width: i32) -> (cells: Vec<Cell>)
    ensures
        cells@ == text_cells(decimal(score as int), 0, Color::White, field_width),
{
    let text = decimal_text(score);
    draw_text(&text, 0, Color::White, field_width)
}

/// The line that tells the high score.
pub open spec fn high_score_label(high_score: i32) -> Seq<char> {
    "High Score: "@ + decimal(high_score as int)
}

/// The menu screen: title, how to start, how to quit, and the high score in
/// gold, centred in rows 2, 4, 6 and 8.
pub open spec fn menu_cells(high_score: i32, field_width: i32) -> Seq<Cell> {
    text_cells("Flappy Bird"@, 2, Color::White, field_width) + text_cells(
        "Press Enter to start"@,
        4,
        Color::White,
        field_width,
    ) + text_cells("Press Q to quit"@, 6, Color::White, field_width) + text_cells(
        high_score_label(high_score),
        8,
        gold(),
        field_width,
    )
}

/// The pause screen: title, the high score in gold, how to resume and how to
/// quit, centred in rows 2, 4, 6 and 8.
pub open spec fn pause_cells(high_score: i32, field_width: i32) -> Seq<Cell> {
    text_cells("Paused"@, 2, Color::White, field_width) + text_cells(
        high_score_label(high_score),
        4,
        gold(),
        field_width,
    ) + text_cells("Press Enter to resume"@, 6, Color::White, field_width) + text_cells(
        "Press Q to quit"@,
        8,
        Color::White,
        field_width,
    )
}

/// Lays out a line that is written as a literal in this module.
fn draw_line(line: &str, row: i32, color: Color, field_width: i32) -> (cells: Vec<Cell>)
    requires
        line@.len() <= 32,
    ensures
        cells@ == text_cells(line@, row, color, field_width),
{
    let text = chars_of(line);
    draw_text(&text, row, color, field_width)
}

/// Lays out the line that tells the high score.
fn draw_high_score(high_score: i32, row: i32, field_width: i32) -> (cells: Vec<Cell>)
    ensures
        cells@ == text_cells(high_score_label(high_score), row, gold(), field_width),
{
    proof {
        reveal_strlit("High Score: ");
    }
    let mut text = chars_of("High Score: ");
    let mut digits = decimal_text(high_score);
    text.append(&mut digits);
    draw_text(&text, row, Color::Rgb { r: 255, g: 215, b: 0 }, field_width)
}

/// The cells of the menu screen.
pub fn draw_menu(high_score: i32, field_width: i32) -> (cells: Vec<Cell>)
    ensures
        cells@ == menu_cells(high_score, field_width),
{
    proof {
        reveal_strlit("Flappy Bird");
        reveal_strlit("Press Enter to start");
        reveal_strlit("Press Q to quit");
    }
    let mut cells = draw_line("Flappy Bird", 2, Color::White, field_width);
    let mut start = draw_line("Press Enter to start", 4, Color::White, field_width);
    let mut quit = draw_line("Press Q to quit", 6, Color::White, field_width);
    let mut high = draw_high_score(high_score, 8, field_width);
    cells.append(&mut start);
    cells.append(&mut quit);
    cells.append(&mut high);
    cells
}

/// The cells of the pause screen.
pub fn draw_pause(high_score: i32, field_width: i32) -> (cells: Vec<Cell>)
    ensures
        cells@ == pause_cells(high_score, field_width),
{
    proof {
        reveal_strlit("Paused");
        reveal_strlit("Press Enter to resume");
        reveal_strlit("Press Q to quit");
    }
    let mut cells = draw_line("Paused", 2, Color::White, field_width);
    let mut high = draw_high_score(high_score, 4, field_width);
    let mut resume = draw_line("Press Enter to resume", 6, Color::White, field_width);
    let mut quit = draw_line("Press Q to quit", 8, Color::White, field_width);
    cells.append(&mut high);
    cells.append(&mut resume);
    cells.append(&mut quit);
    cells
}

} // verus!


