//! The game session: the player, the score, the live obstacles and the five
//! triggers that pace what happens to them.

use vstd::prelude::*;
use crate::collision::{
    check_collision_with_gap,
    check_collision_with_pipes,
    check_collision_with_screen,
    crosses_any_gap,
    hits_any,
    outside_field,
};
use crate::obstacle::{
    all_scrolled,
    can_spawn,
    check_spawn_config,
    config_validity,
    is_pair,
    is_upper_height,
    lemma_scrolled_paired,
    lemma_survivors_paired,
    lower_segment,
    obstacle_pair,
    paired,
    random_upper_height,
    remove_passed,
    scroll_obstacles,
    survivors,
    upper_segment,
    ConfigError,
    Obstacle,
};
use crate::render::half_toward_zero;
use crate::score_file::{le_bytes, save_score};
use crate::timer::{interval_of, step_interval, Trigger, TICKS_PER_SECOND};

verus! {

/// What a session is made with. Lengths are in grid cells, times in ticks.
#[derive(Clone, Copy, Debug, PartialEq, Eq, Structural)]
pub struct Config {
    /// Columns of the play field.
    pub width: i32,
    /// Rows of the play field.
    pub height: i32,
    /// Rows of the gap between the two obstacles of a pair.
    pub min_gap: i32,
    /// No pair is added while this many obstacles, or more, are live.
    pub max_obstacles: usize,
    /// Time between two pairs.
    pub spawn_interval: u64,
    /// Columns that the obstacles scroll in a second.
    pub pipe_speed: u64,
    /// Time in which the player falls by one row.
    pub gravity_interval: u64,
    /// Time that must pass between two jumps.
    pub jump_cooldown: u64,
    /// Time that must pass between two scored crossings.
    pub score_cooldown: u64,
}

/// The row in which the player starts: half the height of the field, rounded
/// towards zero.
pub open spec fn start_row(height: i32) -> i32 {
    half_toward_zero(height as int) as i32
}

/// The state of a session as plain values.
pub struct SessionModel {
    pub width: i32,
    pub height: i32,
    pub min_gap: i32,
    pub max_obstacles: usize,
    pub player_x: i32,
    pub player_y: i32,
    pub score: i32,
    pub high_score: i32,
    pub obstacles: Seq<Obstacle>,
    pub spawn_timer: Trigger,
    pub move_timer: Trigger,
    pub gravity_timer: Trigger,
    pub jump_timer: Trigger,
    pub score_timer: Trigger,
}

impl SessionModel {
    /// What holds of every session: pairs can be made for its field, the
    /// score is not negative, and the live obstacles are whole pairs that
    /// stand inside the field's columns, at most one obstacle more than the
    /// configured maximum.
    pub open spec fn wf(self) -> bool {
        &&& can_spawn(self.height as int, self.min_gap as int)
        &&& self.score >= 0
        &&& self.obstacles.len() <= self.max_obstacles + 1
        &&& paired(self.obstacles, self.height as int, self.min_gap as int)
        &&& forall|i: int| 0 <= i < self.obstacles.len() ==> 0 <= (#[trigger] self.obstacles[i]).x <= self.width
    }

    /// The session that `config` and a stored high score start.
    pub open spec fn initial(config: Config, high_score: i32) -> SessionModel {
        SessionModel {
            width: config.width,
            height: config.height,
            min_gap: config.min_gap,
            max_obstacles: config.max_obstacles,
            player_x: 0,
            player_y: start_row(config.height),
            score: 0,
            high_score,
            obstacles: Seq::empty(),
            spawn_timer: Trigger { elapsed: 0, threshold: config.spawn_interval },
            move_timer: Trigger { elapsed: 0, threshold: interval_of(config.pipe_speed) },
            gravity_timer: Trigger { elapsed: 0, threshold: config.gravity_interval },
            jump_timer: Trigger { elapsed: 0, threshold: config.jump_cooldown },
            score_timer: Trigger { elapsed: 0, threshold: config.score_cooldown },
        }
    }

    /// The best score that the session knows of: the larger of its score
    /// and its high score.
    pub open spec fn best(self) -> i32 {
        if self.score > self.high_score {
            self.score
        } else {
            self.high_score
        }
    }

    /// The session after a collision: no score, no obstacles, the player
    /// back at the start. The score that is lost is kept as high score if it
    /// is the larger of the two. The triggers stay.
    pub open spec fn reset(self) -> SessionModel {
        SessionModel {
            score: 0,
            high_score: self.best(),
            obstacles: Seq::empty(),
            player_x: 0,
            player_y: start_row(self.height),
            ..self
        }
    }

    /// The player touches an obstacle or has left the field.
    pub open spec fn collided(self) -> bool {
        ||| hits_any(self.player_x as int, self.player_y as int, self.obstacles)
        ||| outside_field(self.player_x as int, self.player_y as int, self.width as int, self.height as int)
    }

    /// The player is crossing the gap of a pair.
    pub open spec fn in_gap(self) -> bool {
        crosses_any_gap(self.player_x as int, self.player_y as int, self.obstacles, self.min_gap as int)
    }

    /// The session after a scored crossing: one point more, unless the score
    /// already is the largest that 32 bits hold, and the cooldown started.
    pub open spec fn scored(self) -> SessionModel {
        SessionModel {
            score: if self.score < i32::MAX {
                (self.score + 1) as i32
            } else {
                self.score
            },
            score_timer: self.score_timer.rearmed(),
            ..self
        }
    }

    /// A pair is added in this frame: fewer obstacles than the maximum are
    /// live and the time between two pairs has passed.
    pub open spec fn spawn_due(self, dt: u64) -> bool {
        self.obstacles.len() < self.max_obstacles && self.spawn_timer.accumulated(dt).is_ready()
    }

    /// The session after the obstacle step of a frame of `dt` ticks, in which
    /// a pair that is added has an upper segment of `upper_height` rows.
    /// First all obstacles scroll by one column if the time for it has come.
    /// Then the pair is added if one is due, judged by the number of
    /// obstacles at the start of the step. Last, what has passed the left
    /// edge is removed.
    pub open spec fn after_pipes(self, dt: u64, upper_height: i32) -> SessionModel {
        let move_timer = self.move_timer.accumulated(dt);
        let spawn_timer = self.spawn_timer.accumulated(dt);
        let moved = if move_timer.is_ready() {
            all_scrolled(self.obstacles)
        } else {
            self.obstacles
        };
        let grown = if self.spawn_due(dt) {
            moved.push(upper_segment(self.width, upper_height)).push(
                lower_segment(self.width, self.height, self.min_gap, upper_height),
            )
        } else {
            moved
        };
        SessionModel {
            obstacles: survivors(grown),
            move_timer: move_timer.fired(),
            spawn_timer: if self.spawn_due(dt) {
                spawn_timer.rearmed()
            } else {
                spawn_timer
            },
            ..self
        }
    }

    /// The session after the player step of a frame of `dt` ticks. Gravity
    /// pulls the player down by one row whenever its time has come. A jump
    /// that is asked for lifts the player by one row if the time between two
    /// jumps has passed. Both may happen in one frame.
    pub open spec fn after_player(self, dt: u64, jump_requested: bool) -> SessionModel {
        let gravity_timer = self.gravity_timer.accumulated(dt);
        let jump_timer = self.jump_timer.accumulated(dt);
        let fall: int = if gravity_timer.is_ready() {
            1
        } else {
            0
        };
        let rise: int = if jump_requested && jump_timer.is_ready() {
            1
        } else {
            0
        };
        SessionModel {
            player_y: (self.player_y + fall - rise) as i32,
            gravity_timer: gravity_timer.fired(),
            jump_timer: if jump_requested {
                jump_timer.fired()
            } else {
                jump_timer
            },
            ..self
        }
    }

    /// The session after its score has been offered as high score: the high
    /// score is the larger of the two.
    pub open spec fn after_save(self) -> SessionModel {
        SessionModel { high_score: self.best(), ..self }
    }

    /// The session after the collision and scoring step of a frame of `dt`
    /// ticks. A collision, with an obstacle or with the edge of the field,
    /// resets the session once. Otherwise a crossing scores if the cooldown
    /// has passed.
    pub open spec fn after_collisions(self, dt: u64) -> SessionModel {
        let s = SessionModel { score_timer: self.score_timer.accumulated(dt), ..self };
        if s.collided() {
            s.reset()
        } else if s.in_gap() && s.score_timer.is_ready() {
            s.scored()
        } else {
            s
        }
    }
}

/// A game in progress.
#[derive(Clone, Debug)]
pub struct GameSession {
    width: i32,
    height: i32,
    min_gap: i32,
    max_obstacles: usize,
    player_x: i32,
    player_y: i32,
    score: i32,
    high_score: i32,
    obstacles: Vec<Obstacle>,
    spawn_timer: Trigger,
    move_timer: Trigger,
    gravity_timer: Trigger,
    jump_timer: Trigger,
    score_timer: Trigger,
}

impl View for GameSession {
    type V = SessionModel;

    closed spec fn view(&self) -> SessionModel {
        SessionModel {
            width: self.width,
            height: self.height,
            min_gap: self.min_gap,
            max_obstacles: self.max_obstacles,
            player_x: self.player_x,
            player_y: self.player_y,
            score: self.score,
            high_score: self.high_score,
            obstacles: self.obstacles@,
            spawn_timer: self.spawn_timer,
            move_timer: self.move_timer,
            gravity_timer: self.gravity_timer,
            jump_timer: self.jump_timer,
            score_timer: self.score_timer,
        }
    }
}

/// Half of `height`, rounded towards zero.
fn half_height(height: i32) -> (row: i32)
    ensures
        row == start_row(height),
{
    height / 2
}

impl Config {
    /// The game as it is usually played: a field of 22 by 10 cells, gaps of
    /// two rows, at most five obstacles before spawning stops, a pair every
    /// three seconds, two columns of scroll and one row of fall a second, a
    /// quarter of a second between jumps and two seconds between scores.
    pub fn standard() -> (c: Config)
        ensures
            c == (Config {
                width: 22,
                height: 10,
                min_gap: 2,
                max_obstacles: 5,
                spawn_interval: 3_000_000,
                pipe_speed: 2,
                gravity_interval: 1_000_000,
                jump_cooldown: 250_000,
                score_cooldown: 2_000_000,
            }),
    {
        Config {
            width: 22,
            height: 10,
            min_gap: 2,
            max_obstacles: 5,
            spawn_interval: 3 * TICKS_PER_SECOND,
            pipe_speed: 2,
            gravity_interval: TICKS_PER_SECOND,
            jump_cooldown: TICKS_PER_SECOND / 4,
            score_cooldown: 2 * TICKS_PER_SECOND,
        }
    }
}

impl GameSession {
    /// Starts a session with the given high score. A field and gap for
    /// which no obstacle pair can be made are refused here, so that spawning
    /// never fails later.
    pub fn new(config: Config, high_score: i32) -> (r: Result<GameSession, ConfigError>)
        ensures
            match r {
                Ok(session) => {
                    &&& can_spawn(config.height as int, config.min_gap as int)
                    &&& session@ == SessionModel::initial(config, high_score)
                    &&& session@.wf()
                },
                Err(e) => config_validity(config.height as int, config.min_gap as int) == Err::<(), ConfigError>(e),
            },
    {
        match check_spawn_config(config.height, config.min_gap) {
            Err(e) => Err(e),
            Ok(()) => Ok(
                GameSession {
                    width: config.width,
                    height: config.height,
                    min_gap: config.min_gap,
                    max_obstacles: config.max_obstacles,
                    player_x: 0,
                    player_y: half_height(config.height),
                    score: 0,
                    high_score,
                    obstacles: Vec::new(),
                    spawn_timer: Trigger::new(config.spawn_interval),
                    move_timer: Trigger::new(step_interval(config.pipe_speed)),
                    gravity_timer: Trigger::new(config.gravity_interval),
                    jump_timer: Trigger::new(config.jump_cooldown),
                    score_timer: Trigger::new(config.score_cooldown),
                },
            ),
        }
    }

    /// Columns of the play field.
    pub fn width(&self) -> (w: i32)
        ensures
            w == self@.width,
    {
        self.width
    }

    /// Rows of the play field.
    pub fn height(&self) -> (h: i32)
        ensures
            h == self@.height,
    {
        self.height
    }

    /// Rows of the gap between the two obstacles of a pair.
    pub fn min_gap(&self) -> (g: i32)
        ensures
            g == self@.min_gap,
    {
        self.min_gap
    }

    /// Column of the player.
    pub fn player_x(&self) -> (x: i32)
        ensures
            x == self@.player_x,
    {
        self.player_x
    }

    /// Row of the player.
    pub fn player_y(&self) -> (y: i32)
        ensures
            y == self@.player_y,
    {
        self.player_y
    }

    /// Gaps crossed since the last collision.
    pub fn score(&self) -> (n: i32)
        ensures
            n == self@.score,
    {
        self.score
    }

    /// The best score so far: the one that the session started with, raised
    /// by every score that was saved or lost to a collision.
    pub fn high_score(&self) -> (n: i32)
        ensures
            n == self@.high_score,
    {
        self.high_score
    }

    /// The live obstacles, oldest first.
    pub fn obstacles(&self) -> (pipes: &Vec<Obstacle>)
        ensures
            pipes@ == self@.obstacles,
    {
        &self.obstacles
    }

    /// Resets the session after a collision: the high score rises to the
    /// score if that is larger, the score drops to zero, the obstacles go, and
    /// the player returns to the start.
    pub fn handle_collision(&mut self)
        ensures
            final(self)@ == old(self)@.reset(),
            old(self)@.wf() ==> final(self)@.wf(),
    {
        if self.score > self.high_score {
            self.high_score = self.score;
        }
        self.score = 0;
        self.obstacles.clear();
        self.player_x = 0;
        self.player_y = half_height(self.height);
    }

    /// The collision and scoring step of a frame of `dt` ticks.
    pub fn handle_collisions(&mut self, dt: u64)
        ensures
            final(self)@ == old(self)@.after_collisions(dt),
            old(self)@.wf() ==> final(self)@.wf(),
    {
        self.score_timer.accumulate(dt);
        let hit_pipe = check_collision_with_pipes(self.player_x, self.player_y, &self.obstacles);
        let left_field = check_collision_with_screen(self.player_x, self.player_y, self.width, self.height);
        if hit_pipe || left_field {
            self.handle_collision();
        }
        if check_collision_with_gap(self.player_x, self.player_y, &self.obstacles, self.min_gap)
            && self.score_timer.ready() {
            if self.score < i32::MAX {
                self.score += 1;
            }
            self.score_timer.reset();
        }
    }

    /// The player step of a frame of `dt` ticks. The player's row must leave
    /// room for one step either way.
    pub fn update_player(&mut self, dt: u64, jump_requested: bool)
        requires
            i32::MIN < old(self)@.player_y < i32::MAX,
        ensures
            final(self)@ == old(self)@.after_player(dt, jump_requested),
            old(self)@.wf() ==> final(self)@.wf(),
    {
        self.gravity_timer.accumulate(dt);
        self.jump_timer.accumulate(dt);
        let mut y: i32 = self.player_y;
        if self.gravity_timer.fire() {
            y += 1;
        }
        if jump_requested && self.jump_timer.fire() {
            y -= 1;
        }
        self.player_y = y;
    }

    /// Raises the high score to the current score if that is larger, and
    /// returns the contents that the score file is to get.
    pub fn handle_save_score(&mut self) -> (bytes: Vec<u8>)
        ensures
            final(self)@ == old(self)@.after_save(),
            bytes@ == le_bytes(final(self)@.high_score),
            old(self)@.wf() ==> final(self)@.wf(),
    {
        if self.score > self.high_score {
            self.high_score = self.score;
        }
        save_score(self.high_score)
    }

    /// The obstacle step of a frame of `dt` ticks, with the height that the
    /// upper segment of a new pair gets, should one be added in this frame.
    pub fn update_pipes_with(&mut self, dt: u64, upper_height: i32)
        requires
            old(self)@.wf(),
            is_upper_height(old(self)@.height as int, old(self)@.min_gap as int, upper_height as int),
        ensures
            final(self)@ == old(self)@.after_pipes(dt, upper_height),
            final(self)@.wf(),
    {
        proof {
            lemma_after_pipes_wf(self@, dt, upper_height);
        }
        self.spawn_timer.accumulate(dt);
        self.move_timer.accumulate(dt);
        let count = self.obstacles.len();
        if self.move_timer.fire() {
            scroll_obstacles(&mut self.obstacles);
        }
        if count < self.max_obstacles && self.spawn_timer.ready() {
            let pair = obstacle_pair(self.width, self.height, self.min_gap, upper_height);
            self.obstacles.push(pair.0);
            self.obstacles.push(pair.1);
            self.spawn_timer.reset();
        }
        remove_passed(&mut self.obstacles);
    }

    /// Whether the obstacle step of a frame of `dt` ticks adds a pair.
    pub fn spawn_due(&self, dt: u64) -> (due: bool)
        ensures
            due == self@.spawn_due(dt),
    {
        let mut timer = self.spawn_timer;
        timer.accumulate(dt);
        self.obstacles.len() < self.max_obstacles && timer.ready()
    }

    /// The obstacle step of a frame of `dt` ticks. Where a pair is added, the
    /// height of its upper segment is picked at random; where none is added,
    /// the step is the same whatever height is named.
    pub fn update_pipes(&mut self, dt: u64)
        requires
            old(self)@.wf(),
        ensures
            exists|h: i32|
                {
                    &&& is_upper_height(old(self)@.height as int, old(self)@.min_gap as int, h as int)
                    &&& final(self)@ == #[trigger] old(self)@.after_pipes(dt, h)
                },
            !old(self)@.spawn_due(dt) ==> forall|h: i32| final(self)@ == #[trigger] old(self)@.after_pipes(dt, h),
            final(self)@.wf(),
    {
        let mut upper_height: i32 = 1;
        if self.spawn_due(dt) {
            match random_upper_height(self.height, self.min_gap) {
                Ok(h) => {
                    upper_height = h;
                },
                Err(_) => {},
            }
        }
        self.update_pipes_with(dt, upper_height);
    }
}

/// The obstacle step keeps a session well formed.
pub proof fn lemma_after_pipes_wf(s: SessionModel, dt: u64, upper_height: i32)
    requires
        s.wf(),
        is_upper_height(s.height as int, s.min_gap as int, upper_height as int),
    ensures
        s.after_pipes(dt, upper_height).wf(),
{
    let h = s.height as int;
    let g = s.min_gap as int;
    let moved = if s.move_timer.accumulated(dt).is_ready() {
        all_scrolled(s.obstacles)
    } else {
        s.obstacles
    };
    let upper = upper_segment(s.width, upper_height);
    let lower = lower_segment(s.width, s.height, s.min_gap, upper_height);
    let grown = if s.spawn_due(dt) {
        moved.push(upper).push(lower)
    } else {
        moved
    };
    lemma_scrolled_paired(s.obstacles, h, g);
    assert(paired(grown, h, g)) by {
        assert forall|k: int| 0 <= k && 2 * k + 1 < grown.len() implies is_pair(
            #[trigger] grown[2 * k],
            grown[2 * k + 1],
            h,
            g,
        ) by {
            if 2 * k + 1 < moved.len() {
                assert(is_pair(moved[2 * k], moved[2 * k + 1], h, g));
            }
        }
    }
    assert forall|i: int| 0 <= i < grown.len() implies (#[trigger] grown[i]).x <= s.width && grown[i].width
        == 1 by {
        if i < moved.len() {
            assert(s.obstacles[i].x <= s.width);
            let k = i / 2;
            assert(is_pair(s.obstacles[2 * k], s.obstacles[2 * k + 1], h, g));
        }
    }
    lemma_survivors_paired(grown, h, g);
    let out = survivors(grown);
    assert forall|i: int| 0 <= i < out.len() implies 0 <= (#[trigger] out[i]).x <= s.width by {
        assert(grown.contains(out[i]));
        let j = choose|j: int| 0 <= j < grown.len() && grown[j] == out[i];
        assert(grown[j].x <= s.width && grown[j].width == 1);
    }
}

} // verus!
