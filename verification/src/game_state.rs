//! Round-level game state: score, which goal is live for a touchdown,
//! how many enemies ride the player, and the per-round bookkeeping the
//! other systems read.

use vstd::prelude::*;

verus! {

/// The event a touchdown emits toward the scoring and UI systems.
pub struct TouchdownEvent;

pub struct GameState {
    pub score: usize,
    pub shadows_on: bool,
    pub graphics_high: bool,
    /// Width of the maze field, milli-units.
    pub maze_size: i64,
    pub is_latest: bool,
    /// Which goal line scores next; flips on every touchdown.
    pub touchdown_on_leftside: bool,
    pub attached_enemies: usize,
    /// Milliseconds before the title screen accepts input.
    pub title_screen_cooldown: i64,
    pub enemies_spawned: bool,
    pub corn_spawned: bool,
    pub death_count: usize,
    pub current_round: usize,
}

impl GameState {
    pub fn initialize(graphics: bool, shadows_on: bool, game_version: bool) -> (r: GameState)
        ensures
            r.score == 0,
            r.shadows_on == shadows_on,
            r.graphics_high == graphics,
            r.attached_enemies == 0,
            r.is_latest == game_version,
            r.maze_size == 80_000,
            r.touchdown_on_leftside == false,
            r.corn_spawned == false,
            r.title_screen_cooldown == 1000,
            r.enemies_spawned == false,
            r.current_round == 0,
            r.death_count == 0,
    {
        GameState {
            score: 0,
            shadows_on,
            graphics_high: graphics,
            attached_enemies: 0,
            is_latest: game_version,
            maze_size: 80_000,
            touchdown_on_leftside: false,
            corn_spawned: false,
            title_screen_cooldown: 1000,
            enemies_spawned: false,
            current_round: 0,
            death_count: 0,
        }
    }

    /// A touchdown scores a hundred points and hands the other goal
    /// line to the next trip.
    pub fn handle_touchdown(&mut self) -> (launch: crate::football::LaunchFootballEvent)
        requires
            old(self).score + 100 <= usize::MAX,
        ensures
            final(self).score == old(self).score + 100,
            final(self).touchdown_on_leftside == !old(self).touchdown_on_leftside,
            final(self).shadows_on == old(self).shadows_on,
            final(self).graphics_high == old(self).graphics_high,
            final(self).maze_size == old(self).maze_size,
            final(self).is_latest == old(self).is_latest,
            final(self).attached_enemies == old(self).attached_enemies,
            final(self).title_screen_cooldown == old(self).title_screen_cooldown,
            final(self).enemies_spawned == old(self).enemies_spawned,
            final(self).corn_spawned == old(self).corn_spawned,
            final(self).death_count == old(self).death_count,
            final(self).current_round == old(self).current_round,
    {
        self.score = self.score + 100;
        self.touchdown_on_leftside = !self.touchdown_on_leftside;
        crate::football::LaunchFootballEvent
    }
}

impl Default for GameState {
    fn default() -> (r: GameState)
        ensures
            r.score == 0,
            r.shadows_on == true,
            r.graphics_high == true,
            r.attached_enemies == 0,
            r.is_latest == true,
            r.maze_size == 80_000,
            r.touchdown_on_leftside == false,
            r.corn_spawned == false,
            r.title_screen_cooldown == 1000,
            r.enemies_spawned == false,
            r.current_round == 0,
            r.death_count == 0,
    {
        GameState::initialize(true, true, true)
    }
}

} // verus!
