//! The rectangular obstacles that scroll across the play field, and how a new
//! pair of them is made.

use rand::Rng;
use vstd::prelude::*;

verus! {

/// One rectangular blocking segment, in grid cells. `x` and `y` name its top
/// left cell; it covers `width` columns and `height` rows.
#[derive(Clone, Copy, Debug, PartialEq, Eq, Structural)]
pub struct Obstacle {
    pub x: i32,
    pub y: i32,
    pub width: i32,
    pub height: i32,
}

/// Why a field height and a gap cannot be used to make obstacle pairs.
#[derive(Clone, Copy, Debug, PartialEq, Eq, Structural)]
pub enum ConfigError {
    /// The gap leaves no room for two segments of at least one row each.
    DegenerateGap,
    /// The rows outside the gap cannot be counted in 32 bits.
    HeightOutOfRange,
}

/// The field is high enough for a gap of `min_gap` rows between two segments
/// of at least one row each.
pub open spec fn gap_leaves_room(play_height: int, min_gap: int) -> bool {
    play_height - min_gap > 1
}

/// The heights that an upper segment may take can be counted in 32 bits.
pub open spec fn heights_in_range(play_height: int, min_gap: int) -> bool {
    play_height - min_gap <= i32::MAX
}

/// A pair of obstacles can be made for this field height and gap.
pub open spec fn can_spawn(play_height: int, min_gap: int) -> bool {
    gap_leaves_room(play_height, min_gap) && heights_in_range(play_height, min_gap)
}

/// `h` is a height that the upper segment of a new pair may have.
pub open spec fn is_upper_height(play_height: int, min_gap: int, h: int) -> bool {
    1 <= h < play_height - min_gap
}

/// The upper segment of a new pair: it hangs from the top row at the right
/// edge of the field.
pub open spec fn upper_segment(field_width: i32, upper_height: i32) -> Obstacle {
    Obstacle { x: field_width, y: 0, width: 1, height: upper_height }
}

/// The lower segment of a new pair: it starts `min_gap` rows below the upper
/// one and reaches the bottom row.
pub open spec fn lower_segment(field_width: i32, play_height: i32, min_gap: i32, upper_height: i32) -> Obstacle {
    Obstacle {
        x: field_width,
        y: (upper_height + min_gap) as i32,
        width: 1,
        height: (play_height - upper_height - min_gap) as i32,
    }
}

/// `upper` and `lower` are the two segments of one pair: they stand in the
/// same column, one cell wide, and together with the gap between them they
/// fill the height of the field.
pub open spec fn is_pair(upper: Obstacle, lower: Obstacle, play_height: int, min_gap: int) -> bool {
    &&& upper.x == lower.x
    &&& upper.width == 1
    &&& lower.width == 1
    &&& upper.y == 0
    &&& upper.height >= 1
    &&& lower.height >= 1
    &&& lower.y == upper.height + min_gap
    &&& upper.height + lower.height + min_gap == play_height
}

/// The obstacle one column further to the left.
pub open spec fn scrolled(o: Obstacle) -> Obstacle {
    Obstacle { x: (o.x - 1) as i32, ..o }
}

/// Every obstacle of `s` one column further to the left.
pub open spec fn all_scrolled(s: Seq<Obstacle>) -> Seq<Obstacle> {
    s.map_values(|o: Obstacle| scrolled(o))
}

/// Some column of the obstacle is still at or right of the left edge.
pub open spec fn still_visible(o: Obstacle) -> bool {
    o.x + o.width > 0
}

/// The obstacles of `s` that are still visible, in their order.
pub open spec fn survivors(s: Seq<Obstacle>) -> Seq<Obstacle> {
    s.filter(|o: Obstacle| still_visible(o))
}

/// The obstacles of `s` come in pairs, upper segment first.
pub open spec fn paired(s: Seq<Obstacle>, play_height: int, min_gap: int) -> bool {
    &&& s.len() % 2 == 0
    &&& forall|k: int|
        0 <= k && 2 * k + 1 < s.len() ==> is_pair(#[trigger] s[2 * k], s[2 * k + 1], play_height, min_gap)
}

/// Draws an integer from the half-open range `low..high` by
/// `rand::Rng::gen_range` on the generator of the current thread
/// (`rand::thread_rng`), which the operating system seeds. The range must
/// not be empty, since `gen_range` panics on an empty one. All that is
/// claimed of the number is that it lies in the range; two draws from one
/// range may differ.
#[verifier::external_body]
fn random_in_range(low: i32, high: i32) -> (n: i32)
    requires
        low < high,
    ensures
        low <= n < high,
{
    rand::thread_rng().gen_range(low..high)
}

/// The answer to whether pairs can be made for this field height and gap,
/// and if not, why.
pub open spec fn config_validity(play_height: int, min_gap: int) -> Result<(), ConfigError> {
    if !gap_leaves_room(play_height, min_gap) {
        Err(ConfigError::DegenerateGap)
    } else if !heights_in_range(play_height, min_gap) {
        Err(ConfigError::HeightOutOfRange)
    } else {
        Ok(())
    }
}

/// Checks that pairs can be made for this field height and gap.
pub fn check_spawn_config(play_height: i32, min_gap: i32) -> (r: Result<(), ConfigError>)
    ensures
        r == config_validity(play_height as int, min_gap as int),
        r is Ok <==> can_spawn(play_height as int, min_gap as int),
{
    let room: i64 = play_height as i64 - min_gap as i64;
    if room <= 1 {
        Err(ConfigError::DegenerateGap)
    } else if room > i32::MAX as i64 {
        Err(ConfigError::HeightOutOfRange)
    } else {
        Ok(())
    }
}

/// Picks at random the height of the upper segment of a new pair, from 1 up
/// to but not including `play_height - min_gap`. Fails exactly when no pair
/// can be made for this height and gap.
pub fn random_upper_height(play_height: i32, min_gap: i32) -> (r: Result<i32, ConfigError>)
    ensures
        match r {
            Ok(h) => {
                &&& can_spawn(play_height as int, min_gap as int)
                &&& is_upper_height(play_height as int, min_gap as int, h as int)
            },
            Err(e) => config_validity(play_height as int, min_gap as int) == Err::<(), ConfigError>(e),
        },
{
    match check_spawn_config(play_height, min_gap) {
        Ok(()) => Ok(random_in_range(1, play_height - min_gap)),
        Err(e) => Err(e),
    }
}

/// Makes the pair of obstacles whose upper segment is `upper_height` rows
/// high. Both stand at the right edge of the field, one cell wide, and the
/// two heights and the gap add up to the height of the field.
pub fn obstacle_pair(field_width: i32, play_height: i32, min_gap: i32, upper_height: i32) -> (pair: (
    Obstacle,
    Obstacle,
))
    requires
        can_spawn(play_height as int, min_gap as int),
        is_upper_height(play_height as int, min_gap as int, upper_height as int),
    ensures
        pair.0 == upper_segment(field_width, upper_height),
        pair.1 == lower_segment(field_width, play_height, min_gap, upper_height),
        pair.0.height + pair.1.height + min_gap == play_height,
        is_pair(pair.0, pair.1, play_height as int, min_gap as int),
{
    let lower_height: i32 = play_height - upper_height - min_gap;
    let upper = Obstacle { x: field_width, y: 0, width: 1, height: upper_height };
    let lower = Obstacle { x: field_width, y: upper_height + min_gap, width: 1, height: lower_height };
    (upper, lower)
}

/// Makes a new pair of obstacles with a gap at a random height. Fails exactly
/// when no pair can be made for this height and gap; otherwise the pair is
/// the one that `obstacle_pair` makes for some admissible upper height.
pub fn spawn_obstacle_pair(field_width: i32, play_height: i32, min_gap: i32) -> (r: Result<
    (Obstacle, Obstacle),
    ConfigError,
>)
    ensures
        r is Ok <==> can_spawn(play_height as int, min_gap as int),
        r is Err ==> config_validity(play_height as int, min_gap as int) == Err::<(), ConfigError>(r->Err_0),
        r is Ok ==> exists|h: i32|
            {
                &&& is_upper_height(play_height as int, min_gap as int, h as int)
                &&& r->Ok_0.0 == #[trigger] upper_segment(field_width, h)
                &&& r->Ok_0.1 == lower_segment(field_width, play_height, min_gap, h)
            },
        r is Ok ==> r->Ok_0.0.height + r->Ok_0.1.height + min_gap == play_height,
        r is Ok ==> is_pair(r->Ok_0.0, r->Ok_0.1, play_height as int, min_gap as int),
{
    match random_upper_height(play_height, min_gap) {
        Ok(h) => Ok(obstacle_pair(field_width, play_height, min_gap, h)),
        Err(e) => Err(e),
    }
}

/// Appends a new pair of obstacles with a gap at a random height to `pipes`,
/// the upper segment first. Fails, and leaves `pipes` as it was, exactly when
/// no pair can be made for this height and gap.
pub fn spawn_pipe(pipes: &mut Vec<Obstacle>, field_width: i32, play_height: i32, min_gap: i32) -> (r: Result<
    (),
    ConfigError,
>)
    ensures
        r == config_validity(play_height as int, min_gap as int),
        r is Err ==> final(pipes)@ == old(pipes)@,
        r is Ok ==> exists|h: i32|
            {
                &&& is_upper_height(play_height as int, min_gap as int, h as int)
                &&& final(pipes)@ == old(pipes)@.push(#[trigger] upper_segment(field_width, h)).push(
                    lower_segment(field_width, play_height, min_gap, h),
                )
            },
{
    match spawn_obstacle_pair(field_width, play_height, min_gap) {
        Ok(pair) => {
            pipes.push(pair.0);
            pipes.push(pair.1);
            Ok(())
        },
        Err(e) => Err(e),
    }
}

/// Moves every obstacle of `pipes` one column to the left.
pub fn scroll_obstacles(pipes: &mut Vec<Obstacle>)
    requires
        forall|i: int| 0 <= i < old(pipes)@.len() ==> (#[trigger] old(pipes)@[i]).x > i32::MIN,
    ensures
        final(pipes)@ == all_scrolled(old(pipes)@),
{
    let ghost before = pipes@;
    let mut i: usize = 0;
    while i < pipes.len()
        invariant
            i <= pipes.len(),
            pipes@.len() == before.len(),
            forall|k: int| 0 <= k < before.len() ==> (#[trigger] before[k]).x > i32::MIN,
            forall|k: int| 0 <= k < i ==> #[trigger] pipes@[k] == scrolled(before[k]),
            forall|k: int| i <= k < before.len() ==> #[trigger] pipes@[k] == before[k],
        decreases pipes.len() - i,
    {
        let o = pipes[i];
        pipes.set(i, Obstacle { x: o.x - 1, y: o.y, width: o.width, height: o.height });
        i += 1;
    }
    assert(pipes@ =~= all_scrolled(before));
}

/// Removes from `pipes` every obstacle that has wholly passed the left edge.
/// Those that remain keep their order.
pub fn remove_passed(pipes: &mut Vec<Obstacle>)
    ensures
        final(pipes)@ == survivors(old(pipes)@),
{
    let ghost before = pipes@;
    let mut kept: Vec<Obstacle> = Vec::new();
    let mut i: usize = 0;
    proof {
        reveal(Seq::filter);
        assert(before.take(0) =~= Seq::<Obstacle>::empty());
    }
    while i < pipes.len()
        invariant
            i <= pipes.len(),
            pipes@ == before,
            kept@ == survivors(before.take(i as int)),
        decreases pipes.len() - i,
    {
        let o = pipes[i];
        proof {
            assert(before.take(i + 1) =~= before.take(i as int).push(o));
            before.take(i as int).lemma_filter_push(o, |o: Obstacle| still_visible(o));
        }
        if o.x as i64 + o.width as i64 > 0 {
            kept.push(o);
        }
        i += 1;
    }
    assert(before.take(i as int) =~= before);
    *pipes = kept;
}

/// Scrolling moves both obstacles of every pair, so pairs stay pairs.
pub proof fn lemma_scrolled_paired(s: Seq<Obstacle>, play_height: int, min_gap: int)
    requires
        paired(s, play_height, min_gap),
        forall|i: int| 0 <= i < s.len() ==> (#[trigger] s[i]).x > i32::MIN,
    ensures
        paired(all_scrolled(s), play_height, min_gap),
{
    let t = all_scrolled(s);
    assert forall|k: int| 0 <= k && 2 * k + 1 < t.len() implies is_pair(
        #[trigger] t[2 * k],
        t[2 * k + 1],
        play_height,
        min_gap,
    ) by {
        assert(is_pair(s[2 * k], s[2 * k + 1], play_height, min_gap));
    }
}

/// The two obstacles of a pair pass the left edge together, so removing
/// those that have passed leaves whole pairs, each of them still visible and
/// taken from `s`.
pub proof fn lemma_survivors_paired(s: Seq<Obstacle>, play_height: int, min_gap: int)
    requires
        paired(s, play_height, min_gap),
    ensures
        paired(survivors(s), play_height, min_gap),
        survivors(s).len() <= s.len(),
        forall|i: int| 0 <= i < survivors(s).len() ==> still_visible(#[trigger] survivors(s)[i]),
        forall|i: int| 0 <= i < survivors(s).len() ==> s.contains(#[trigger] survivors(s)[i]),
    decreases s.len(),
{
    let visible = |o: Obstacle| still_visible(o);
    if s.len() == 0 {
        reveal(Seq::filter);
    } else {
        let n = s.len() as int;
        let rest = s.take(n - 2);
        let upper = s[n - 2];
        let lower = s[n - 1];
        assert(s =~= rest.push(upper).push(lower));
        assert(is_pair(s[2 * ((n - 2) / 2)], s[2 * ((n - 2) / 2) + 1], play_height, min_gap));
        assert forall|k: int| 0 <= k && 2 * k + 1 < rest.len() implies is_pair(
            #[trigger] rest[2 * k],
            rest[2 * k + 1],
            play_height,
            min_gap,
        ) by {
            assert(is_pair(s[2 * k], s[2 * k + 1], play_height, min_gap));
        }
        lemma_survivors_paired(rest, play_height, min_gap);
        rest.lemma_filter_push(upper, visible);
        rest.push(upper).lemma_filter_push(lower, visible);
        let kept = survivors(rest);
        let out = survivors(s);
        if still_visible(upper) {
            assert(out =~= kept.push(upper).push(lower));
            assert forall|k: int| 0 <= k && 2 * k + 1 < out.len() implies is_pair(
                #[trigger] out[2 * k],
                out[2 * k + 1],
                play_height,
                min_gap,
            ) by {
                if 2 * k + 1 < kept.len() {
                    assert(is_pair(kept[2 * k], kept[2 * k + 1], play_height, min_gap));
                }
            }
        } else {
            assert(out =~= kept);
        }
        assert forall|i: int| 0 <= i < out.len() implies s.contains(#[trigger] out[i]) by {
            if i < kept.len() {
                assert(rest.contains(kept[i]));
                let j = choose|j: int| 0 <= j < rest.len() && rest[j] == kept[i];
                assert(s[j] == out[i]);
            } else if i == kept.len() {
                assert(s[n - 2] == out[i]);
            } else {
                assert(s[n - 1] == out[i]);
            }
        }
    }
}

} // verus!
