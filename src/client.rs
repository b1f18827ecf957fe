//! A game as the user interface holds it: the position, the time control and the clock.
use vstd::prelude::*;

use crate::clock::Clock;
use crate::fen::parse_fen;
use crate::game::{situation_of, start_situation, GameState};
use crate::game_modes::{seconds_for, GameMode, GameType};
use crate::position::ChessPosition;
use crate::rules::legal_moves_from;

verus! {

pub struct GameClient {
    pub game_state: GameState,
    pub game_type: Option<GameType>,
    pub has_started: bool,
    pub clock: Clock,
    pub game_mode: Option<GameMode>,
}

impl Default for GameClient {
    /// A game that has not started, from the standard starting position.
    fn default() -> (r: GameClient)
        ensures
            r.game_state.wf(),
            r.game_state@ == start_situation(),
            r.game_type is None,
            r.game_mode is None,
            !r.has_started,
    {
        GameClient {
            game_state: GameState::default(),
            game_type: None,
            has_started: false,
            clock: Clock::default(),
            game_mode: None,
        }
    }
}

impl GameClient {
    /// A local game under `game_type`, started from the standard starting position.
    pub fn new_local(game_type: GameType) -> (r: GameClient)
        ensures
            r.game_state.wf(),
            r.game_state@ == start_situation(),
            r.game_type == Some(game_type),
            r.game_mode == Some(GameMode::Local),
            r.has_started,
            r.clock.black_time == seconds_for(game_type),
            r.clock.white_time == seconds_for(game_type),
    {
        GameClient {
            game_state: GameState::default(),
            game_type: Some(game_type),
            has_started: true,
            clock: Clock::from_game_type(game_type),
            game_mode: Some(GameMode::Local),
        }
    }

    /// Replaces the position with the one `fen` describes; where `fen` is malformed,
    /// keeps the position and returns `None`.
    pub fn update_fen(&mut self, fen: &str) -> (r: Option<()>)
        requires
            old(self).game_state.wf(),
        ensures
            final(self).game_state.wf(),
            r is Some <==> parse_fen(fen@) is Some,
            r is Some ==> final(self).game_state@ == situation_of(parse_fen(fen@).unwrap()),
            r is None ==> final(self).game_state@ == old(self).game_state@,
    {
        match GameState::from_fen(fen) {
            Some(g) => {
                self.game_state = g;
                Some(())
            },
            None => None,
        }
    }

    /// Squares the piece on `pos` can legally move to, one per legal move, in order.
    pub fn possible_move_ends(&self, pos: &ChessPosition) -> (r: Vec<ChessPosition>)
        requires
            self.game_state.wf(),
            pos.valid(),
        ensures
            r@ == legal_moves_from(self.game_state@, *pos).map_values(|m: crate::move_history::ChessMove| m.move_vector.to_pos),
    {
        let moves = self.game_state.generate_legal_moves_for_pos(pos);
        let mut r: Vec<ChessPosition> = Vec::new();
        let mut i: usize = 0;
        while i < moves.len()
            invariant
                i <= moves@.len(),
                r@ == moves@.take(i as int).map_values(|m: crate::move_history::ChessMove| m.move_vector.to_pos),
            decreases moves@.len() - i,
        {
            r.push(moves[i].move_vector.to_pos);
            i = i + 1;
            assert(r@ =~= moves@.take(i as int).map_values(|m: crate::move_history::ChessMove| m.move_vector.to_pos));
        }
        assert(moves@.take(i as int) =~= moves@);
        r
    }
}

} // verus!
