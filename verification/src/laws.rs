//! What holds of the game whatever is played: statements about sessions and
//! runs of frames, proved from the definitions of the steps.

use vstd::prelude::*;
use crate::obstacle::{all_scrolled, can_spawn, is_pair, is_upper_height, lower_segment, upper_segment};
use crate::score_file::{le_bytes, lemma_score_round_trip, stored_high_score};
use crate::session::{lemma_after_pipes_wf, start_row, Config, SessionModel};
use crate::state::{session_after_frame, GameState, Input};

verus! {

/// One frame of a run: the state it is run in, the keys, the ticks it
/// lasts, and the height of the upper segment of a pair it may add.
pub struct FrameInput {
    pub state: GameState,
    pub input: Input,
    pub dt: u64,
    pub upper_height: i32,
}

/// The session after the frames of `frames`, one after the other.
pub open spec fn run(s: SessionModel, frames: Seq<FrameInput>) -> SessionModel
    decreases frames.len(),
{
    if frames.len() == 0 {
        s
    } else {
        let f = frames.last();
        session_after_frame(run(s, frames.drop_last()), f.state, f.input, f.dt, f.upper_height)
    }
}

/// The ticks that the frames of `frames` last together.
pub open spec fn total_ticks(frames: Seq<FrameInput>) -> nat
    decreases frames.len(),
{
    if frames.len() == 0 {
        0
    } else {
        total_ticks(frames.drop_last()) + frames.last().dt as nat
    }
}

/// Every frame of `frames` names a height that an upper segment may have in
/// a field of this height and gap.
pub open spec fn heights_admissible(frames: Seq<FrameInput>, play_height: int, min_gap: int) -> bool {
    forall|i: int| 0 <= i < frames.len() ==> is_upper_height(play_height, min_gap, (#[trigger] frames[i]).upper_height as int)
}

/// The two obstacles of a new pair and the gap between them fill the height
/// of the field exactly, and both stand in the column at the right edge.
pub proof fn lemma_new_pair_fills_field(field_width: i32, play_height: i32, min_gap: i32, upper_height: i32)
    requires
        can_spawn(play_height as int, min_gap as int),
        is_upper_height(play_height as int, min_gap as int, upper_height as int),
    ensures
        upper_segment(field_width, upper_height).height + lower_segment(
            field_width,
            play_height,
            min_gap,
            upper_height,
        ).height + min_gap == play_height,
        upper_segment(field_width, upper_height).x == field_width,
        lower_segment(field_width, play_height, min_gap, upper_height).x == field_width,
        is_pair(
            upper_segment(field_width, upper_height),
            lower_segment(field_width, play_height, min_gap, upper_height),
            play_height as int,
            min_gap as int,
        ),
{
}

/// A frame keeps a session well formed.
pub proof fn lemma_frame_keeps_wf(s: SessionModel, state: GameState, input: Input, dt: u64, upper_height: i32)
    requires
        s.wf(),
        is_upper_height(s.height as int, s.min_gap as int, upper_height as int),
    ensures
        session_after_frame(s, state, input, dt, upper_height).wf(),
{
    lemma_after_pipes_wf(s.after_collisions(dt), dt, upper_height);
}

/// A run of frames keeps a session well formed, and leaves its field as it
/// was.
pub proof fn lemma_run_keeps_wf(s: SessionModel, frames: Seq<FrameInput>)
    requires
        s.wf(),
        heights_admissible(frames, s.height as int, s.min_gap as int),
    ensures
        run(s, frames).wf(),
        run(s, frames).width == s.width,
        run(s, frames).height == s.height,
        run(s, frames).min_gap == s.min_gap,
        run(s, frames).score_timer.threshold == s.score_timer.threshold,
    decreases frames.len(),
{
    if frames.len() > 0 {
        let f = frames.last();
        lemma_run_keeps_wf(s, frames.drop_last());
        lemma_frame_keeps_wf(run(s, frames.drop_last()), f.state, f.input, f.dt, f.upper_height);
    }
}

/// At every moment of a game the two obstacles of each pair stand in the
/// same column.
pub proof fn lemma_pair_shares_column(s: SessionModel, frames: Seq<FrameInput>, k: int)
    requires
        s.wf(),
        heights_admissible(frames, s.height as int, s.min_gap as int),
        0 <= k,
        2 * k + 1 < run(s, frames).obstacles.len(),
    ensures
        run(s, frames).obstacles[2 * k].x == run(s, frames).obstacles[2 * k + 1].x,
{
    lemma_run_keeps_wf(s, frames);
    let t = run(s, frames);
    assert(is_pair(t.obstacles[2 * k], t.obstacles[2 * k + 1], t.height as int, t.min_gap as int));
}

/// Scrolling moves the two obstacles of each pair by the same single column:
/// none scrolls without the other.
pub proof fn lemma_pairs_scroll_in_lockstep(s: SessionModel, k: int)
    requires
        s.wf(),
        0 <= k,
        2 * k + 1 < s.obstacles.len(),
    ensures
        all_scrolled(s.obstacles)[2 * k].x == s.obstacles[2 * k].x - 1,
        all_scrolled(s.obstacles)[2 * k + 1].x == s.obstacles[2 * k + 1].x - 1,
        all_scrolled(s.obstacles)[2 * k].x == all_scrolled(s.obstacles)[2 * k + 1].x,
{
    assert(is_pair(s.obstacles[2 * k], s.obstacles[2 * k + 1], s.height as int, s.min_gap as int));
    assert(s.obstacles[2 * k].x >= 0);
    assert(s.obstacles[2 * k + 1].x >= 0);
}

/// A reset session has no score, no obstacles and the player at the start,
/// and its high score is the larger of the score that was lost and the high
/// score before.
pub proof fn lemma_reset_state(s: SessionModel)
    ensures
        s.reset().score == 0,
        s.reset().obstacles.len() == 0,
        s.reset().player_x == 0,
        s.reset().player_y == start_row(s.height),
        s.reset().high_score == s.best(),
        s.reset().high_score >= s.score,
        s.reset().high_score >= s.high_score,
{
}

/// Resetting twice is resetting once. The score must not be negative: a
/// reset leaves a score of zero, which a second reset would hold against a
/// high score below zero.
pub proof fn lemma_reset_idempotent(s: SessionModel)
    requires
        s.score >= 0,
    ensures
        s.reset().reset() == s.reset(),
{
}

/// In a frame the score either does not fall, or a collision in a running
/// game has set it to zero, and then the high score is at least the score
/// that was lost. The high score does not fall, and the best score that the
/// session knows of does not fall either.
pub proof fn lemma_frame_scores(s: SessionModel, state: GameState, input: Input, dt: u64, upper_height: i32)
    requires
        s.wf(),
    ensures
        ({
            let t = session_after_frame(s, state, input, dt, upper_height);
            let hit = (SessionModel { score_timer: s.score_timer.accumulated(dt), ..s }).collided();
            &&& t.high_score >= s.high_score
            &&& t.score >= 0
            &&& t.score >= s.score || (state == GameState::Playing && hit && t.score == 0)
            &&& t.score < s.score ==> t.high_score >= s.score
            &&& state == GameState::Playing && hit ==> t.score == 0 && t.high_score == s.best()
            &&& t.score <= s.score + 1
            &&& t.best() >= s.best()
        }),
{
}

/// No score is lost: over a run of frames the best score that the session
/// knows of, the larger of its score and its high score, never falls.
pub proof fn lemma_best_never_falls(s: SessionModel, frames: Seq<FrameInput>)
    requires
        s.wf(),
        heights_admissible(frames, s.height as int, s.min_gap as int),
    ensures
        run(s, frames).best() >= s.best(),
    decreases frames.len(),
{
    if frames.len() > 0 {
        let f = frames.last();
        lemma_best_never_falls(s, frames.drop_last());
        lemma_run_keeps_wf(s, frames.drop_last());
        lemma_frame_scores(run(s, frames.drop_last()), f.state, f.input, f.dt, f.upper_height);
    }
}

/// Over a run of frames the high score never falls.
pub proof fn lemma_high_score_never_falls(s: SessionModel, frames: Seq<FrameInput>)
    requires
        s.wf(),
        heights_admissible(frames, s.height as int, s.min_gap as int),
    ensures
        run(s, frames).high_score >= s.high_score,
    decreases frames.len(),
{
    if frames.len() > 0 {
        let f = frames.last();
        lemma_high_score_never_falls(s, frames.drop_last());
        lemma_run_keeps_wf(s, frames.drop_last());
        lemma_frame_scores(run(s, frames.drop_last()), f.state, f.input, f.dt, f.upper_height);
    }
}

/// A frame that raises the score starts the cooldown anew.
pub proof fn lemma_scoring_starts_cooldown(
    s: SessionModel,
    state: GameState,
    input: Input,
    dt: u64,
    upper_height: i32,
)
    requires
        s.wf(),
        session_after_frame(s, state, input, dt, upper_height).score > s.score,
    ensures
        session_after_frame(s, state, input, dt, upper_height).score == s.score + 1,
        session_after_frame(s, state, input, dt, upper_height).score_timer.elapsed == 0,
{
}

/// While the time since the last scored crossing has not exceeded the
/// cooldown, no frame raises the score, however often the player crosses a
/// gap: the cooldown still stands at the end of the run, and the score is no
/// higher than at its start.
pub proof fn lemma_no_score_within_cooldown(s: SessionModel, frames: Seq<FrameInput>)
    requires
        s.wf(),
        heights_admissible(frames, s.height as int, s.min_gap as int),
        s.score_timer.elapsed + total_ticks(frames) <= s.score_timer.threshold,
    ensures
        run(s, frames).score <= s.score,
        run(s, frames).score_timer.elapsed <= s.score_timer.elapsed + total_ticks(frames),
    decreases frames.len(),
{
    if frames.len() > 0 {
        let f = frames.last();
        let before = frames.drop_last();
        lemma_no_score_within_cooldown(s, before);
        lemma_run_keeps_wf(s, before);
        let mid = run(s, before);
        assert(!mid.score_timer.accumulated(f.dt).is_ready());
    }
}

/// Two crossings within the cooldown score at most once: after a frame that
/// raised the score, no frame raises it again in a run that lasts no longer
/// than the cooldown.
pub proof fn lemma_second_crossing_within_cooldown(
    s: SessionModel,
    first: FrameInput,
    frames: Seq<FrameInput>,
)
    requires
        s.wf(),
        is_upper_height(s.height as int, s.min_gap as int, first.upper_height as int),
        heights_admissible(frames, s.height as int, s.min_gap as int),
        session_after_frame(s, first.state, first.input, first.dt, first.upper_height).score > s.score,
        total_ticks(frames) <= s.score_timer.threshold,
    ensures
        run(
            session_after_frame(s, first.state, first.input, first.dt, first.upper_height),
            frames,
        ).score <= s.score + 1,
{
    let t = session_after_frame(s, first.state, first.input, first.dt, first.upper_height);
    lemma_scoring_starts_cooldown(s, first.state, first.input, first.dt, first.upper_height);
    lemma_frame_keeps_wf(s, first.state, first.input, first.dt, first.upper_height);
    lemma_no_score_within_cooldown(t, frames);
}

/// A high score that is saved and then loaded starts the next session as
/// the same number.
pub proof fn lemma_saved_high_score_returns(config: Config, high_score: i32)
    ensures
        SessionModel::initial(config, stored_high_score(Some(le_bytes(high_score)))).high_score == high_score,
{
    lemma_score_round_trip(high_score, Seq::empty());
    assert(le_bytes(high_score) + Seq::<u8>::empty() =~= le_bytes(high_score));
}

} // verus!
