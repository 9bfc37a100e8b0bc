//! Thin turn-counter plumbing around the core: a `GameState` that only
//! tracks how many moves have been applied, and an `Engine` advancing it.

use vstd::prelude::*;

verus! {

/// Move-counter state: how many moves have been applied so far.
#[derive(Clone, Debug)]
pub struct GameState {
    pub turn: u32,
}

impl GameState {
    pub fn new() -> (s: Self)
        ensures
            s.turn == 0,
    {
        Self { turn: 0 }
    }

    /// Records that one more move was applied.
    pub fn apply_move(&mut self)
        requires
            old(self).turn < 0xFFFF_FFFFu32,
        ensures
            final(self).turn == old(self).turn + 1,
    {
        self.turn = self.turn + 1;
    }
}

/// Driver owning a move-counter state.
pub struct Engine {
    state: GameState,
}

impl View for Engine {
    type V = u32;

    closed spec fn view(&self) -> u32 {
        self.state.turn
    }
}

impl Engine {
    pub fn new() -> (e: Self)
        ensures
            e@ == 0,
    {
        Self { state: GameState::new() }
    }

    pub fn tick(&mut self)
        requires
            old(self)@ < 0xFFFF_FFFFu32,
        ensures
            final(self)@ == old(self)@ + 1,
    {
        self.state.apply_move();
    }

    pub fn state(&self) -> (s: &GameState)
        ensures
            s.turn == self@,
    {
        &self.state
    }
}

} // verus!
