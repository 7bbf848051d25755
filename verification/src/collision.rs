//! Collision and gap-crossing tests. All of them are pure functions of the
//! positions they are given.

use vstd::prelude::*;
use crate::obstacle::Obstacle;

verus! {

/// Two axis-aligned rectangles share at least one cell.
pub open spec fn boxes_overlap(
    first_x: int,
    first_y: int,
    first_width: int,
    first_height: int,
    second_x: int,
    second_y: int,
    second_width: int,
    second_height: int,
) -> bool {
    &&& first_x < second_x + second_width
    &&& first_x + first_width > second_x
    &&& first_y < second_y + second_height
    &&& first_y + first_height > second_y
}

/// The player's single cell overlaps the obstacle.
pub open spec fn hits_obstacle(player_x: int, player_y: int, o: Obstacle) -> bool {
    boxes_overlap(
        player_x,
        player_y,
        1,
        1,
        o.x as int,
        o.y as int,
        o.width as int,
        o.height as int,
    )
}

/// The player's cell overlaps one of the obstacles.
pub open spec fn hits_any(player_x: int, player_y: int, obstacles: Seq<Obstacle>) -> bool {
    exists|i: int| 0 <= i < obstacles.len() && hits_obstacle(player_x, player_y, #[trigger] obstacles[i])
}

/// The player's cell lies outside the field `[0, width) x [0, height)`.
pub open spec fn outside_field(player_x: int, player_y: int, width: int, height: int) -> bool {
    player_x < 0 || player_x >= width || player_y < 0 || player_y >= height
}

/// The player stands in the column of the obstacle's leading edge and in the
/// open rows next to it. The first alternative looks from the obstacle's top
/// down to its far edge, the second from the far edge on for `min_gap` rows;
/// every bound is strict, so the row of the far edge itself never counts.
pub open spec fn crosses_gap_of(player_x: int, player_y: int, o: Obstacle, min_gap: int) -> bool {
    &&& player_x == o.x
    &&& ((player_y < o.y + o.height && player_y > o.y + min_gap) || (player_y > o.y + o.height
        && player_y < o.y + o.height + min_gap))
}

/// The player crosses the gap of one of the obstacles.
pub open spec fn crosses_any_gap(
    player_x: int,
    player_y: int,
    obstacles: Seq<Obstacle>,
    min_gap: int,
) -> bool {
    exists|i: int|
        0 <= i < obstacles.len() && crosses_gap_of(player_x, player_y, #[trigger] obstacles[i], min_gap)
}

/// Overlap test for two rectangles given by corner and size. The sums are
/// taken in 64 bits, so every combination of arguments has an answer.
pub fn check_collision(
    first_x: i32,
    first_y: i32,
    first_width: i32,
    first_height: i32,
    second_x: i32,
    second_y: i32,
    second_width: i32,
    second_height: i32,
) -> (hit: bool)
    ensures
        hit == boxes_overlap(
            first_x as int,
            first_y as int,
            first_width as int,
            first_height as int,
            second_x as int,
            second_y as int,
            second_width as int,
            second_height as int,
        ),
{
    (first_x as i64) < second_x as i64 + second_width as i64
        && first_x as i64 + first_width as i64 > second_x as i64
        && (first_y as i64) < second_y as i64 + second_height as i64
        && first_y as i64 + first_height as i64 > second_y as i64
}

/// Whether the player's cell overlaps any obstacle of `pipes`.
pub fn check_collision_with_pipes(player_x: i32, player_y: i32, pipes: &Vec<Obstacle>) -> (hit: bool)
    ensures
        hit == hits_any(player_x as int, player_y as int, pipes@),
{
    let mut i: usize = 0;
    while i < pipes.len()
        invariant
            i <= pipes.len(),
            forall|k: int| 0 <= k < i ==> !hits_obstacle(player_x as int, player_y as int, #[trigger] pipes@[k]),
        decreases pipes.len() - i,
    {
        let pipe = pipes[i];
        if check_collision(player_x, player_y, 1, 1, pipe.x, pipe.y, pipe.width, pipe.height) {
            return true;
        }
        i += 1;
    }
    false
}

/// Whether the player's cell lies outside a field of `width` columns and
/// `height` rows.
pub fn check_collision_with_screen(player_x: i32, player_y: i32, width: i32, height: i32) -> (out: bool)
    ensures
        out == outside_field(player_x as int, player_y as int, width as int, height as int),
{
    player_x < 0 || player_x >= width || player_y < 0 || player_y >= height
}

/// Whether the player is flying through the gap at the leading edge of any
/// obstacle of `pipes`.
pub fn check_collision_with_gap(player_x: i32, player_y: i32, pipes: &Vec<Obstacle>, min_gap: i32) -> (crossed: bool)
    ensures
        crossed == crosses_any_gap(player_x as int, player_y as int, pipes@, min_gap as int),
{
    let py: i64 = player_y as i64;
    let mut i: usize = 0;
    while i < pipes.len()
        invariant
            i <= pipes.len(),
            py == player_y,
            forall|k: int|
                0 <= k < i ==> !crosses_gap_of(player_x as int, player_y as int, #[trigger] pipes@[k], min_gap as int),
        decreases pipes.len() - i,
    {
        let pipe = pipes[i];
        let far_edge: i64 = pipe.y as i64 + pipe.height as i64;
        if player_x == pipe.x && ((py < far_edge && py > pipe.y as i64 + min_gap as i64) || (py > far_edge
            && py < far_edge + min_gap as i64)) {
            return true;
        }
        i += 1;
    }
    false
}

} // verus!
