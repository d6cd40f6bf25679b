//! Global game state: a single authoritative value plus a "requested next"
//! slot that the host applies at a defined point in the tick.

use vstd::prelude::*;

verus! {

#[derive(Debug, Clone, Copy, PartialEq, Eq, Hash, Structural)]
pub enum GameState {
    Loading,
    Initialize,
    Playing,
    PauseMenu,
}

impl Default for GameState {
    /// The game starts in the loading state.
    fn default() -> (r: Self)
        ensures
            r is Loading,
    {
        GameState::Loading
    }
}

/// The "requested next state" slot. At most one transition is pending at a
/// time; a later request in the same tick overwrites an earlier one.
#[derive(Debug, Clone, Copy, PartialEq, Eq, Structural)]
pub struct NextState(pub Option<GameState>);

impl NextState {
    pub fn none() -> (r: NextState)
        ensures
            r.0 is None,
    {
        NextState(None)
    }

    /// Request a transition; overwrites any pending request.
    pub fn set(&mut self, state: GameState)
        ensures
            final(self).0 == Some(state),
    {
        self.0 = Some(state);
    }

    /// Apply the pending request, if any, to the authoritative state and
    /// clear the slot. Returns the state that was entered, if a transition
    /// happened.
    pub fn apply(&mut self, current: &mut GameState) -> (entered: Option<GameState>)
        ensures
            final(self).0 is None,
            match old(self).0 {
                Some(s) => *final(current) == s && entered == Some(s),
                None => *final(current) == *old(current) && entered is None,
            },
    {
        let pending = self.0;
        self.0 = None;
        match pending {
            Some(s) => {
                *current = s;
                Some(s)
            },
            None => None,
        }
    }
}

/// Decide the pause transition for this tick: while playing, the escape key
/// pauses; while paused, it resumes; in every other state it does nothing.
pub fn process_pause_events(state: &GameState, escape_just_pressed: bool) -> (r: Option<
    GameState,
>)
    ensures
        r == (match *state {
            GameState::Playing => if escape_just_pressed {
                Some(GameState::PauseMenu)
            } else {
                None
            },
            GameState::PauseMenu => if escape_just_pressed {
                Some(GameState::Playing)
            } else {
                None
            },
            _ => None::<GameState>,
        }),
{
    match state {
        GameState::Playing => {
            if escape_just_pressed {
                Some(GameState::PauseMenu)
            } else {
                None
            }
        },
        GameState::PauseMenu => {
            if escape_just_pressed {
                Some(GameState::Playing)
            } else {
                None
            }
        },
        _ => None,
    }
}

/// Entering the initialization state immediately advances to playing.
pub fn advance_initialization() -> (r: GameState)
    ensures
        r is Playing,
{
    GameState::Playing
}

} // verus!
