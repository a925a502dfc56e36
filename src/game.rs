//! The session as the input task sees it: the play view and whether the
//! game is still running.

use vstd::prelude::*;
use crate::view::{same_score_and_timing, stone_after_key, stone_locked, Key, PlayView};

verus! {

/// A running or stopped game around one session.
pub struct Game {
    pub current_view: PlayView,
    pub running: bool,
}

impl Game {
    /// A running game around the given session.
    pub fn new(current_view: PlayView) -> (g: Self)
        ensures
            g.current_view == current_view,
            g.running,
    {
        Game { current_view, running: true }
    }

    /// `q` stops the game and says so by returning false; every other key
    /// goes to the session, and the game goes on.
    pub fn handle_input(&mut self, key: Key) -> (go_on: bool)
        requires
            old(self).current_view.wf(),
        ensures
            final(self).current_view.wf(),
            key == Key::Char('q') ==> !go_on && !final(self).running && final(self).current_view
                == old(self).current_view,
            key != Key::Char('q') ==> go_on && final(self).running == old(self).running,
            key == Key::Char(' ') ==> stone_locked(old(self).current_view, final(self).current_view)
                && same_score_and_timing(old(self).current_view, final(self).current_view),
            key != Key::Char('q') && key != Key::Char(' ') ==> {
                &&& stone_after_key(
                    old(self).current_view.current_stone,
                    final(self).current_view.current_stone,
                    old(self).current_view.field,
                    key,
                )
                &&& final(self).current_view.field == old(self).current_view.field
                &&& final(self).current_view.next_stone == old(self).current_view.next_stone
                &&& same_score_and_timing(old(self).current_view, final(self).current_view)
            },
    {
        match key {
            Key::Char('q') => {
                self.running = false;
                false
            },
            _ => {
                self.current_view.handle_input(key);
                true
            },
        }
    }

    /// The input has ended: the game stops.
    pub fn stop(&mut self)
        ensures
            !final(self).running,
            final(self).current_view == old(self).current_view,
    {
        self.running = false;
    }
}

} // verus!
