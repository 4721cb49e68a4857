use vstd::prelude::*;

use crate::direction::{direction_of_input, Direction};
use crate::input::Input;
use crate::level::Level;
use crate::model::{level_wf, tick_model, LevelModel};
use crate::request::State;
use crate::text::{decimal, decimal_text};
use vstd::string::StringExecFns;

verus! {

/// A run through a list of levels: the level being played, the pace of the
/// ticks, the pause, and the direction waiting for the next tick.
pub struct Game {
    pause: bool,
    delay_ms: u64,
    level_idx: usize,
    levels: Vec<Level>,
    direction: Option<Direction>,
    launch_pause: bool,
}

/// A game, as a mathematical value.
pub ghost struct GameModel {
    pub pause: bool,
    pub delay_ms: u64,
    pub level_idx: nat,
    pub levels: Seq<LevelModel>,
    pub direction: Option<Direction>,
    /// Set while the game waits for a first direction after a (re)start.
    pub launch_pause: bool,
}

/// What the caller of a game does after a key.
#[derive(Clone, Copy, Debug, PartialEq, Eq, Structural)]
pub enum GameCommand {
    Quit,
    /// Read the current level's file again and hand it to `reload_level`.
    Reload,
    Redraw,
    /// Nothing to redraw.
    Idle,
}

/// What happened when the tick timer ran out.
#[derive(Clone, Copy, Debug, PartialEq, Eq, Structural)]
pub enum TickOutcome {
    /// Paused: nothing ticked.
    Waiting,
    /// The level ticked and goes on.
    Ticked,
    /// The level was won and the next one is up.
    Advanced,
    /// The level was lost, or the last one won: the game is over.
    Finished,
}

pub open spec fn levels_view(v: Seq<Level>) -> Seq<LevelModel> {
    v.map_values(|l: Level| l@)
}

impl View for Game {
    type V = GameModel;

    closed spec fn view(&self) -> GameModel {
        GameModel {
            pause: self.pause,
            delay_ms: self.delay_ms,
            level_idx: self.level_idx as nat,
            levels: levels_view(self.levels@),
            direction: self.direction,
            launch_pause: self.launch_pause,
        }
    }
}

/// A game's invariant: the current level exists and every level keeps its
/// counters in step.
pub open spec fn game_wf(m: GameModel) -> bool {
    &&& m.level_idx < m.levels.len()
    &&& forall|i: int| 0 <= i < m.levels.len() ==> level_wf(#[trigger] m.levels[i])
}

/// A key's effect on a game: `,` and `.` speed it up or slow it down in steps
/// of 50 ms, within 50 ms and 1000 ms, Esc and space toggle the pause, `r`
/// asks for a reload and waits for a direction, and a direction key is kept
/// for the next tick.
pub open spec fn input_model(m: GameModel, input: Input) -> (GameModel, GameCommand) {
    match input {
        Input::Quit | Input::Q => (m, GameCommand::Quit),
        Input::Comma => (
            GameModel {
                delay_ms: if m.delay_ms >= 100 {
                    (m.delay_ms - 50) as u64
                } else {
                    m.delay_ms
                },
                ..m
            },
            GameCommand::Redraw,
        ),
        Input::Period => (
            GameModel {
                delay_ms: if m.delay_ms <= 950 {
                    (m.delay_ms + 50) as u64
                } else {
                    m.delay_ms
                },
                ..m
            },
            GameCommand::Redraw,
        ),
        Input::Esc | Input::Space => (GameModel { pause: !m.pause, ..m }, GameCommand::Redraw),
        Input::R => (GameModel { launch_pause: true, ..m }, GameCommand::Reload),
        Input::Unknown => (m, GameCommand::Idle),
        _ => (GameModel { direction: direction_of_input(input), ..m }, GameCommand::Redraw),
    }
}

/// What the tick timer does: a first direction ends the launch pause; while
/// paused without a direction, or in the launch pause, nothing ticks; else the
/// current level ticks with the waiting direction, which is used up, and an
/// ended level either moves the game to the next level or finishes it.
pub open spec fn timer_model(m: GameModel) -> (GameModel, TickOutcome) {
    let launch = if m.launch_pause && m.direction is Some {
        false
    } else {
        m.launch_pause
    };
    if (m.pause && m.direction is None) || launch {
        (GameModel { launch_pause: launch, ..m }, TickOutcome::Waiting)
    } else {
        let lv = tick_model(m.levels[m.level_idx as int], m.direction);
        let m2 = GameModel {
            launch_pause: launch,
            direction: None,
            levels: m.levels.update(m.level_idx as int, lv),
            ..m
        };
        match lv.state {
            None => (m2, TickOutcome::Ticked),
            Some(s) => if s == State::Lose || m.level_idx + 1 >= m.levels.len() {
                (m2, TickOutcome::Finished)
            } else {
                (GameModel { level_idx: m.level_idx + 1, ..m2 }, TickOutcome::Advanced)
            },
        }
    }
}

/// The status lines of a game: its outcome once the level has ended, else the
/// score, the delay and whether it is paused.
pub open spec fn game_status(m: GameModel) -> Seq<char> {
    let lv = m.levels[m.level_idx as int];
    match lv.state {
        Some(State::Win) => "You have won!"@,
        Some(State::Lose) => "You have lost!"@,
        None => "Score: "@ + decimal_text(lv.score) + "/"@ + decimal_text(lv.max_score)
            + "\nDelay: "@ + decimal_text(m.delay_ms as nat) + "ms\nPaused: "@ + if m.pause {
            "yes"@
        } else {
            "no"@
        },
    }
}

impl Game {
    pub open spec fn wf(&self) -> bool {
        game_wf(self@)
    }

    /// A game over `levels`, starting at the first, in the launch pause.
    pub fn new(pause: bool, delay_ms: u64, levels: Vec<Level>) -> (r: Game)
        requires
            levels@.len() > 0,
            forall|i: int| 0 <= i < levels@.len() ==> (#[trigger] levels@[i]).wf(),
        ensures
            r.wf(),
            r@ == (GameModel {
                pause,
                delay_ms,
                level_idx: 0,
                levels: levels_view(levels@),
                direction: None,
                launch_pause: true,
            }),
    {
        let r = Game { pause, delay_ms, level_idx: 0, levels, direction: None, launch_pause: true };
        proof {
            assert forall|i: int| 0 <= i < r@.levels.len() implies level_wf(
                #[trigger] r@.levels[i],
            ) by {
                assert(r@.levels[i] == r.levels@[i]@);
            }
        }
        r
    }

    pub fn get_level(&self) -> (r: &Level)
        requires
            self.wf(),
        ensures
            r@ == self@.levels[self@.level_idx as int],
    {
        &self.levels[self.level_idx]
    }

    pub fn get_level_idx(&self) -> (r: usize)
        ensures
            r as nat == self@.level_idx,
    {
        self.level_idx
    }

    pub fn get_delay_ms(&self) -> (r: u64)
        ensures
            r == self@.delay_ms,
    {
        self.delay_ms
    }

    pub fn get_pause(&self) -> (r: bool)
        ensures
            r == self@.pause,
    {
        self.pause
    }

    /// Hands out the current level's changed cells, and forgets them.
    pub fn get_damaged(&mut self) -> (r: Vec<crate::Point>)
        requires
            old(self).wf(),
        ensures
            final(self).wf(),
            r@ == old(self)@.levels[old(self)@.level_idx as int].damaged,
            final(self)@ == (GameModel {
                levels: old(self)@.levels.update(
                    old(self)@.level_idx as int,
                    crate::model::drained(old(self)@.levels[old(self)@.level_idx as int]),
                ),
                ..old(self)@
            }),
    {
        let idx = self.level_idx;
        let ghost before = self.levels@;
        let r = self.levels[idx].get_damaged();
        proof {
            assert(levels_view(self.levels@) =~= levels_view(before).update(
                idx as int,
                crate::model::drained(before[idx as int]@),
            ));
        }
        r
    }

    pub fn get_status(&self) -> (r: String)
        requires
            self.wf(),
        ensures
            r@ == game_status(self@),
    {
        let level = self.get_level();
        match level.get_state() {
            Some(State::Win) => String::from_str("You have won!"),
            Some(State::Lose) => String::from_str("You have lost!"),
            None => {
                let mut r = String::from_str("Score: ");
                r.append(decimal(*level.get_score() as u64).as_str());
                r.append("/");
                r.append(decimal(*level.get_max_score() as u64).as_str());
                r.append("\nDelay: ");
                r.append(decimal(self.delay_ms).as_str());
                r.append("ms\nPaused: ");
                r.append(if self.pause {
                    "yes"
                } else {
                    "no"
                });
                r
            },
        }
    }

    /// Reacts to a key; see `input_model`.
    pub fn on_input(&mut self, input: Input) -> (r: GameCommand)
        requires
            old(self).wf(),
        ensures
            final(self).wf(),
            (final(self)@, r) == input_model(old(self)@, input),
    {
        match input {
            Input::Quit | Input::Q => GameCommand::Quit,
            Input::Comma => {
                if self.delay_ms >= 100 {
                    self.delay_ms = self.delay_ms - 50;
                }
                GameCommand::Redraw
            },
            Input::Period => {
                if self.delay_ms <= 950 {
                    self.delay_ms = self.delay_ms + 50;
                }
                GameCommand::Redraw
            },
            Input::Esc | Input::Space => {
                self.pause = !self.pause;
                GameCommand::Redraw
            },
            Input::R => {
                self.launch_pause = true;
                GameCommand::Reload
            },
            Input::Unknown => GameCommand::Idle,
            _ => {
                self.direction = Direction::from_input(&input);
                GameCommand::Redraw
            },
        }
    }

    /// Puts a freshly read copy in place of the current level.
    pub fn reload_level(&mut self, level: Level)
        requires
            old(self).wf(),
            level.wf(),
        ensures
            final(self).wf(),
            final(self)@ == (GameModel {
                levels: old(self)@.levels.update(old(self)@.level_idx as int, level@),
                ..old(self)@
            }),
    {
        let idx = self.level_idx;
        let ghost before = self.levels@;
        self.levels.set(idx, level);
        proof {
            assert(levels_view(self.levels@) =~= levels_view(before).update(idx as int, level@));
        }
    }

    /// Runs the timer's step; see `timer_model`.
    pub fn on_timer(&mut self) -> (r: TickOutcome)
        requires
            old(self).wf(),
        ensures
            final(self).wf(),
            (final(self)@, r) == timer_model(old(self)@),
    {
        if self.launch_pause && self.direction.is_some() {
            self.launch_pause = false;
        }
        if (self.pause && self.direction.is_none()) || self.launch_pause {
            return TickOutcome::Waiting;
        }
        let idx = self.level_idx;
        let direction = self.direction;
        self.direction = None;
        let ghost before = self.levels@;
        proof {
            assert(level_wf(levels_view(before)[idx as int]));
        }
        self.levels[idx].tick(direction);
        proof {
            assert(levels_view(self.levels@) =~= levels_view(before).update(
                idx as int,
                tick_model(before[idx as int]@, direction),
            ));
        }
        let state = *self.levels[idx].get_state();
        match state {
            None => TickOutcome::Ticked,
            Some(s) => {
                if s == State::Lose || idx >= self.levels.len() - 1 {
                    TickOutcome::Finished
                } else {
                    self.level_idx = idx + 1;
                    TickOutcome::Advanced
                }
            },
        }
    }
}

} // verus!
