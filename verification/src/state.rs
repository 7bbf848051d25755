//! The three states of the program, the transitions between them, and what
//! one frame does in each.

use vstd::prelude::*;
use crate::obstacle::{is_pair, is_upper_height};
use crate::render::{
    decimal,
    draw_menu,
    draw_pause,
    draw_pipes,
    draw_player,
    draw_score,
    drawable,
    menu_cells,
    obstacle_cells,
    pause_cells,
    player_cell,
    text_cells,
    Cell,
    Color,
};
use crate::score_file::le_bytes;
use crate::session::{GameSession, SessionModel};

verus! {

/// What the program is showing.
#[derive(Clone, Copy, Debug, PartialEq, Eq, Structural)]
pub enum GameState {
    Menu,
    Playing,
    Paused,
}

impl Default for GameState {
    /// The program starts in the menu.
    fn default() -> (state: GameState)
        ensures
            state == GameState::Menu,
    {
        GameState::Menu
    }
}

/// The keys that the game listens to, each with whether it was pressed in
/// the frame.
#[derive(Clone, Copy, Debug, PartialEq, Eq, Structural)]
pub struct Keys {
    pub enter: bool,
    pub space: bool,
    pub up: bool,
    pub p: bool,
    pub escape: bool,
    pub q: bool,
}

/// The keys that were pressed in a frame, by what they ask for.
#[derive(Clone, Copy, Debug, PartialEq, Eq, Structural)]
pub struct Input {
    /// Start or resume the game.
    pub confirm: bool,
    /// Lift the player.
    pub jump: bool,
    /// Pause the game.
    pub pause: bool,
    /// Leave the program; from the pause screen this also leads back to the
    /// menu.
    pub quit: bool,
}

/// What the pressed keys ask for: Enter confirms, Space and the up arrow
/// jump, `p` and Escape pause, `q` quits.
pub open spec fn input_of(keys: Keys) -> Input {
    Input { confirm: keys.enter, jump: keys.space || keys.up, pause: keys.p || keys.escape, quit: keys.q }
}

/// Reads the pressed keys as requests to the game.
pub fn read_keys(keys: Keys) -> (input: Input)
    ensures
        input == input_of(keys),
{
    Input { confirm: keys.enter, jump: keys.space || keys.up, pause: keys.p || keys.escape, quit: keys.q }
}

/// The state that follows `state` when `input` was given. The menu starts
/// the game on confirm, the game pauses on pause, the pause screen goes back
/// to the menu on quit and resumes on confirm, quit taking precedence.
pub open spec fn next_state(state: GameState, input: Input) -> GameState {
    match state {
        GameState::Menu => if input.confirm {
            GameState::Playing
        } else {
            GameState::Menu
        },
        GameState::Playing => if input.pause {
            GameState::Paused
        } else {
            GameState::Playing
        },
        GameState::Paused => if input.quit {
            GameState::Menu
        } else if input.confirm {
            GameState::Playing
        } else {
            GameState::Paused
        },
    }
}

/// Computes the state that follows `state` when `input` was given.
pub fn transition(state: GameState, input: Input) -> (next: GameState)
    ensures
        next == next_state(state, input),
{
    match state {
        GameState::Menu => if input.confirm {
            GameState::Playing
        } else {
            GameState::Menu
        },
        GameState::Playing => if input.pause {
            GameState::Paused
        } else {
            GameState::Playing
        },
        GameState::Paused => if input.quit {
            GameState::Menu
        } else if input.confirm {
            GameState::Playing
        } else {
            GameState::Paused
        },
    }
}

/// What a frame hands back to the program that runs it.
#[derive(Clone, Debug)]
pub struct Frame {
    /// What to draw, in this order.
    pub cells: Vec<Cell>,
    /// The state of the next frame.
    pub state: GameState,
    /// The contents to write to the score file, if this frame saves.
    pub score_file: Option<Vec<u8>>,
    /// The program is to end without drawing this frame.
    pub exit: bool,
}

/// A frame as plain values.
pub struct FrameModel {
    pub cells: Seq<Cell>,
    pub state: GameState,
    pub score_file: Option<Seq<u8>>,
    pub exit: bool,
}

impl View for Frame {
    type V = FrameModel;

    open spec fn view(&self) -> FrameModel {
        FrameModel {
            cells: self.cells@,
            state: self.state,
            score_file: match self.score_file {
                Some(bytes) => Some(bytes@),
                None => None,
            },
            exit: self.exit,
        }
    }
}

/// The picture of a running game: the obstacles, over them the player, over
/// both the score.
pub open spec fn play_cells(s: SessionModel) -> Seq<Cell> {
    obstacle_cells(s.obstacles).push(player_cell(s.player_x, s.player_y)) + text_cells(
        decimal(s.score as int),
        0,
        Color::White,
        s.width,
    )
}

/// The session after a frame of `dt` ticks in `state`. Only a running game
/// moves: first collisions and scoring, then the obstacles, then the player.
/// The pause screen offers the score as high score; the menu does nothing.
pub open spec fn session_after_frame(
    s: SessionModel,
    state: GameState,
    input: Input,
    dt: u64,
    upper_height: i32,
) -> SessionModel {
    match state {
        GameState::Menu => s,
        GameState::Playing => s.after_collisions(dt).after_pipes(dt, upper_height).after_player(dt, input.jump),
        GameState::Paused => s.after_save(),
    }
}

/// What a frame of `dt` ticks in `state` hands back. A running game is drawn
/// as it stands after collisions and scoring, before anything moves. The
/// pause screen shows the high score as it was when the frame began, and
/// saves the one that the frame leaves.
pub open spec fn frame_of(s: SessionModel, state: GameState, input: Input, dt: u64) -> FrameModel {
    FrameModel {
        cells: match state {
            GameState::Menu => menu_cells(s.high_score, s.width),
            GameState::Playing => play_cells(s.after_collisions(dt)),
            GameState::Paused => pause_cells(s.high_score, s.width),
        },
        state: next_state(state, input),
        score_file: match state {
            GameState::Paused => Some(le_bytes(s.after_save().high_score)),
            _ => None,
        },
        exit: input.quit,
    }
}

/// Every obstacle of a well-formed session can be drawn.
pub proof fn lemma_obstacles_drawable(s: SessionModel)
    requires
        s.wf(),
    ensures
        forall|i: int| 0 <= i < s.obstacles.len() ==> drawable(#[trigger] s.obstacles[i]),
{
    assert forall|i: int| 0 <= i < s.obstacles.len() implies drawable(#[trigger] s.obstacles[i]) by {
        let k = i / 2;
        assert(is_pair(s.obstacles[2 * k], s.obstacles[2 * k + 1], s.height as int, s.min_gap as int));
    }
}

/// After the collision step the player's row leaves room for a step either
/// way.
pub proof fn lemma_player_row_after_collisions(s: SessionModel, dt: u64)
    requires
        s.wf(),
    ensures
        i32::MIN < s.after_collisions(dt).player_y < i32::MAX,
{
}

/// Runs one frame. `upper_height` gives the height of the upper segment of a
/// pair that this frame may add; without it the height is picked at random.
fn frame_step(session: &mut GameSession, state: GameState, input: Input, dt: u64, upper_height: Option<i32>) -> (frame:
    Frame)
    requires
        old(session)@.wf(),
        upper_height is Some ==> is_upper_height(
            old(session)@.height as int,
            old(session)@.min_gap as int,
            upper_height->Some_0 as int,
        ),
    ensures
        final(session)@.wf(),
        frame@ == frame_of(old(session)@, state, input, dt),
        exists|h: i32|
            {
                &&& is_upper_height(old(session)@.height as int, old(session)@.min_gap as int, h as int)
                &&& upper_height is Some ==> h == upper_height->Some_0
                &&& final(session)@ == #[trigger] session_after_frame(old(session)@, state, input, dt, h)
            },
{
    let next = transition(state, input);
    match state {
        GameState::Menu => {
            let cells = draw_menu(session.high_score(), session.width());
            assert(session@ == session_after_frame(
                old(session)@,
                state,
                input,
                dt,
                match upper_height {
                    Some(h) => h,
                    None => 1,
                },
            ));
            Frame { cells, state: next, score_file: None, exit: input.quit }
        },
        GameState::Playing => {
            session.handle_collisions(dt);
            proof {
                lemma_obstacles_drawable(session@);
                lemma_player_row_after_collisions(old(session)@, dt);
            }
            let ghost drawn = session@;
            let mut cells = draw_pipes(session.obstacles());
            cells.push(draw_player(session.player_x(), session.player_y()));
            let mut score = draw_score(session.score(), session.width());
            cells.append(&mut score);
            match upper_height {
                Some(h) => {
                    session.update_pipes_with(dt, h);
                },
                None => {
                    session.update_pipes(dt);
                },
            }
            let ghost h = choose|h: i32|
                {
                    &&& is_upper_height(drawn.height as int, drawn.min_gap as int, h as int)
                    &&& upper_height is Some ==> h == upper_height->Some_0
                    &&& session@ == drawn.after_pipes(dt, h)
                };
            session.update_player(dt, input.jump);
            assert(session@ == session_after_frame(old(session)@, state, input, dt, h));
            Frame { cells, state: next, score_file: None, exit: input.quit }
        },
        GameState::Paused => {
            let cells = draw_pause(session.high_score(), session.width());
            let bytes = session.handle_save_score();
            assert(session@ == session_after_frame(
                old(session)@,
                state,
                input,
                dt,
                match upper_height {
                    Some(h) => h,
                    None => 1,
                },
            ));
            Frame { cells, state: next, score_file: Some(bytes), exit: input.quit }
        },
    }
}

/// Runs one frame of `dt` ticks in `state` with the keys of `input`: moves
/// the session on and hands back what to draw, the next state, what to save
/// and whether to leave. Where the frame adds a pair of obstacles, the
/// height of its upper segment is picked at random.
pub fn run_frame(session: &mut GameSession, state: GameState, input: Input, dt: u64) -> (frame: Frame)
    requires
        old(session)@.wf(),
    ensures
        final(session)@.wf(),
        frame@ == frame_of(old(session)@, state, input, dt),
        exists|h: i32|
            {
                &&& is_upper_height(old(session)@.height as int, old(session)@.min_gap as int, h as int)
                &&& final(session)@ == #[trigger] session_after_frame(old(session)@, state, input, dt, h)
            },
{
    frame_step(session, state, input, dt, None)
}

/// Runs one frame as `run_frame` does, but with the given height for the
/// upper segment of a pair that the frame may add.
pub fn run_frame_with(session: &mut GameSession, state: GameState, input: Input, dt: u64, upper_height: i32) -> (frame:
    Frame)
    requires
        old(session)@.wf(),
        is_upper_height(old(session)@.height as int, old(session)@.min_gap as int, upper_height as int),
    ensures
        final(session)@.wf(),
        frame@ == frame_of(old(session)@, state, input, dt),
        final(session)@ == session_after_frame(old(session)@, state, input, dt, upper_height),
{
    frame_step(session, state, input, dt, Some(upper_height))
}

} // verus!
