//! The screen-flow state machine.
//!
//! Exactly one screen is active at a time. Button presses and the player's
//! death move between screens; the play and continue buttons act through a
//! short scheduled delay so that a competing press (the overlapping
//! how-to-play button) can still cancel the change.

use vstd::prelude::*;

use crate::speed::reset_speed;
use crate::speed::Speed;
use crate::speed::STARTUP_SPEED;
use crate::text::reset_score;
use crate::text::Score;
use crate::text::STARTUP_SCORE;

verus! {

/// Delay, in milliseconds, between a press of the play or continue button and
/// the screen change it requests.
pub const LOAD_DELAY: u64 = 50;

/// The four screens the game can show.
#[derive(Clone, Copy, Debug, PartialEq, Eq, Structural)]
pub enum GameState {
    MainMenu,
    Tutorial,
    Game,
    EndScreen,
}

/// The input edges that drive the screen flow.
#[derive(Clone, Copy, Debug, PartialEq, Eq, Structural)]
pub enum FlowEvent {
    /// The play background was clicked on the main menu.
    PlayPressed,
    /// The how-to-play button was clicked on the main menu.
    HowToPlayPressed,
    /// The back button was clicked on the tutorial screen.
    BackPressed,
    /// The continue background was clicked on the end screen.
    ContinuePressed,
    /// Damage resolution found the player out of hit points.
    PlayerDied,
}

/// A screen change that has been requested but not yet performed.
#[derive(Clone, Copy, Debug, PartialEq, Eq, Structural)]
pub struct PendingChange {
    pub target: GameState,
    pub delay: u64,
}

/// The active screen together with any scheduled change.
#[derive(Clone, Copy, Debug, PartialEq, Eq, Structural)]
pub struct Flow {
    pub state: GameState,
    pub pending: Option<PendingChange>,
}

/// The flow after one input edge. Presses only act on the screen that shows
/// their button; the how-to-play button also cancels a scheduled play
/// transition, since the two buttons overlap.
pub open spec fn flow_after_event(f: Flow, e: FlowEvent) -> Flow {
    match (f.state, e) {
        (GameState::MainMenu, FlowEvent::PlayPressed) => Flow {
            state: GameState::MainMenu,
            pending: Some(PendingChange { target: GameState::Game, delay: LOAD_DELAY }),
        },
        (GameState::MainMenu, FlowEvent::HowToPlayPressed) => Flow {
            state: GameState::Tutorial,
            pending: None,
        },
        (GameState::Tutorial, FlowEvent::BackPressed) => Flow {
            state: GameState::MainMenu,
            pending: None,
        },
        (GameState::EndScreen, FlowEvent::ContinuePressed) => Flow {
            state: GameState::EndScreen,
            pending: Some(PendingChange { target: GameState::MainMenu, delay: LOAD_DELAY }),
        },
        (GameState::Game, FlowEvent::PlayerDied) => Flow {
            state: GameState::EndScreen,
            pending: None,
        },
        _ => f,
    }
}

/// The flow after `dt` milliseconds: a scheduled change whose delay has run
/// out is performed, one still waiting keeps counting down.
pub open spec fn flow_after_tick(f: Flow, dt: int) -> Flow {
    match f.pending {
        Some(p) => if p.delay <= dt {
            Flow { state: p.target, pending: None }
        } else {
            Flow { state: f.state, pending: Some(PendingChange { target: p.target, delay: (p.delay - dt) as u64 }) }
        },
        None => f,
    }
}

impl Flow {
    /// The flow the program starts in: the main menu, nothing scheduled.
    pub fn startup() -> (f: Flow)
        ensures
            f.state == GameState::MainMenu,
            f.pending is None,
    {
        Flow { state: GameState::MainMenu, pending: None }
    }

    /// Apply one input edge.
    pub fn handle_event(&mut self, e: FlowEvent)
        ensures
            *final(self) == flow_after_event(*old(self), e),
    {
        match (self.state, e) {
            (GameState::MainMenu, FlowEvent::PlayPressed) => {
                self.pending = Some(PendingChange { target: GameState::Game, delay: LOAD_DELAY });
            },
            (GameState::MainMenu, FlowEvent::HowToPlayPressed) => {
                self.state = GameState::Tutorial;
                self.pending = None;
            },
            (GameState::Tutorial, FlowEvent::BackPressed) => {
                self.state = GameState::MainMenu;
                self.pending = None;
            },
            (GameState::EndScreen, FlowEvent::ContinuePressed) => {
                self.pending = Some(PendingChange { target: GameState::MainMenu, delay: LOAD_DELAY });
            },
            (GameState::Game, FlowEvent::PlayerDied) => {
                self.state = GameState::EndScreen;
                self.pending = None;
            },
            _ => {},
        }
    }

    /// Let `dt` milliseconds pass, performing a scheduled change whose delay
    /// has run out.
    pub fn tick(&mut self, dt: u64)
        ensures
            *final(self) == flow_after_tick(*old(self), dt as int),
    {
        match self.pending {
            Some(p) => {
                if p.delay <= dt {
                    self.state = p.target;
                    self.pending = None;
                } else {
                    self.pending = Some(PendingChange { target: p.target, delay: p.delay - dt });
                }
            },
            None => {},
        }
    }
}

/// The reset that leaving the end screen performs: speed and score go back to
/// their configured startup values.
pub fn end_screen_exit_reset(speed: &mut Speed, score: &mut Score)
    ensures
        final(speed).wf(),
        final(score).wf(),
        final(speed).speed == STARTUP_SPEED,
        final(score).score == STARTUP_SCORE,
{
    reset_speed(speed);
    reset_score(score);
}

} // verus!
