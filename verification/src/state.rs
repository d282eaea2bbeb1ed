//! The three coarse game phases and the single current-state cell.

use vstd::prelude::*;

verus! {

/// One of the three coarse phases of a match, used to select a target volume.
#[derive(Clone, Copy, PartialEq, Eq, Structural, Debug)]
pub enum GameState {
    /// No match is running (also the initial phase of a fresh engine).
    NotInGame,
    /// A match is running but gameplay has not started (buy phase).
    InGamePreparing,
    /// A round is actively being played.
    InGamePlaying,
}

impl GameState {
    /// Ordinal of the phase, used to index a volume profile.
    pub open spec fn ordinal(self) -> int {
        match self {
            GameState::NotInGame => 0,
            GameState::InGamePreparing => 1,
            GameState::InGamePlaying => 2,
        }
    }

    /// Executable ordinal, equal to [`GameState::ordinal`].
    pub fn as_index(self) -> (i: usize)
        ensures
            i == self.ordinal(),
    {
        match self {
            GameState::NotInGame => 0,
            GameState::InGamePreparing => 1,
            GameState::InGamePlaying => 2,
        }
    }

    /// Numeric code of the phase, as callers that store states as bytes see it.
    pub fn code(self) -> (c: u8)
        ensures
            c == self.ordinal(),
    {
        match self {
            GameState::NotInGame => 0,
            GameState::InGamePreparing => 1,
            GameState::InGamePlaying => 2,
        }
    }

    /// The phase a numeric code stands for.
    pub open spec fn spec_from_code(code: u8) -> Option<GameState> {
        if code == 0 {
            Some(GameState::NotInGame)
        } else if code == 1 {
            Some(GameState::InGamePreparing)
        } else if code == 2 {
            Some(GameState::InGamePlaying)
        } else {
            None
        }
    }

    /// Decodes a numeric state code; codes other than the three phases yield `None`.
    pub fn from_code(code: u8) -> (r: Option<GameState>)
        ensures
            r == GameState::spec_from_code(code),
    {
        if code == 0 {
            Some(GameState::NotInGame)
        } else if code == 1 {
            Some(GameState::InGamePreparing)
        } else if code == 2 {
            Some(GameState::InGamePlaying)
        } else {
            None
        }
    }
}

/// Numeric state codes, for callers that exchange states as plain bytes.
pub struct States;

impl States {
    pub const NOT_IN_GAME: u8 = 0;

    pub const IN_GAME_PREPARING: u8 = 1;

    pub const IN_GAME_PLAYING: u8 = 2;
}

/// The single current-state cell. Any state may follow any other: game log
/// sequences are not gapless, so the store is best-effort and self-correcting
/// on the next classified line.
pub struct StateStore {
    /// The state most recently committed by a driver.
    pub current: GameState,
}

impl StateStore {
    /// A fresh store, starting outside a match.
    pub fn new() -> (s: StateStore)
        ensures
            s.current == GameState::NotInGame,
    {
        StateStore { current: GameState::NotInGame }
    }

    /// Reads the current state.
    pub fn get(&self) -> (r: GameState)
        ensures
            r == self.current,
    {
        self.current
    }

    /// Commits a new current state, with no transition validation.
    pub fn set(&mut self, next: GameState)
        ensures
            final(self).current == next,
    {
        self.current = next;
    }

    /// Reads the current state as its numeric code.
    #[allow(non_snake_case)]
    pub fn getState(&self) -> (r: u8)
        ensures
            r == self.current.ordinal(),
    {
        self.current.code()
    }

    /// Commits the state a numeric code stands for.
    #[allow(non_snake_case)]
    pub fn setState(&mut self, newState: u8)
        requires
            newState <= 2,
        ensures
            final(self).current.ordinal() == newState,
    {
        match GameState::from_code(newState) {
            Some(s) => self.current = s,
            None => (),
        }
    }
}

} // verus!
