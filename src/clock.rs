//! A match clock: seconds left for each side, charged to the side to move.
use vstd::prelude::*;

use crate::game_modes::{seconds_for, GameType};
use crate::position::PlayerType;

verus! {

/// Relies on `std::time::SystemTime::now`: the wall-clock time in whole seconds
/// since the Unix epoch (0 if the clock reads earlier). Nothing is promised of it.
#[verifier::external_body]
fn unix_now() -> (r: u64) {
    match std::time::SystemTime::now().duration_since(std::time::UNIX_EPOCH) {
        Ok(d) => d.as_secs(),
        Err(_) => 0,
    }
}

pub struct Clock {
    pub black_time: u64,
    pub white_time: u64,
    /// Time of the last sample, in seconds since the Unix epoch.
    pub last_update: u64,
}

impl Default for Clock {
    /// Five minutes a side, starting now.
    fn default() -> (r: Clock)
        ensures
            r.black_time == 300,
            r.white_time == 300,
    {
        Clock { black_time: 300, white_time: 300, last_update: unix_now() }
    }
}

impl Clock {
    /// Both sides get the time of `game_type`; the clock starts at `now`.
    pub fn starting_at(game_type: GameType, now: u64) -> (r: Clock)
        ensures
            r.black_time == seconds_for(game_type),
            r.white_time == seconds_for(game_type),
            r.last_update == now,
    {
        Clock { black_time: game_type.time_control(), white_time: game_type.time_control(), last_update: now }
    }

    /// Both sides get the time of `game_type`; the clock starts now.
    pub fn from_game_type(game_type: GameType) -> (r: Clock)
        ensures
            r.black_time == seconds_for(game_type),
            r.white_time == seconds_for(game_type),
    {
        Clock::starting_at(game_type, unix_now())
    }

    /// Charges the seconds from the last sample to `now` to `cur_player` and makes
    /// `now` the last sample. A sample that is not later than the last changes
    /// nothing. Where the side has fewer seconds left than it is charged, its time
    /// stays as it was and the result is `None`.
    pub fn update_time_at(&mut self, cur_player: PlayerType, now: u64) -> (r: Option<()>)
        ensures
            now <= old(self).last_update ==> r is Some && *final(self) == *old(self),
            now > old(self).last_update ==> ({
                let e = now - old(self).last_update;
                &&& final(self).last_update == now
                &&& match cur_player {
                    PlayerType::Black => {
                        &&& final(self).white_time == old(self).white_time
                        &&& (old(self).black_time >= e ==> r is Some && final(self).black_time == old(self).black_time - e)
                        &&& (old(self).black_time < e ==> r is None && final(self).black_time == old(self).black_time)
                    },
                    PlayerType::White => {
                        &&& final(self).black_time == old(self).black_time
                        &&& (old(self).white_time >= e ==> r is Some && final(self).white_time == old(self).white_time - e)
                        &&& (old(self).white_time < e ==> r is None && final(self).white_time == old(self).white_time)
                    },
                }
            }),
    {
        if now > self.last_update {
            let elapsed = now - self.last_update;
            self.last_update = now;
            match cur_player {
                PlayerType::Black => {
                    self.black_time = match self.black_time.checked_sub(elapsed) {
                        Some(t) => t,
                        None => return None,
                    };
                },
                PlayerType::White => {
                    self.white_time = match self.white_time.checked_sub(elapsed) {
                        Some(t) => t,
                        None => return None,
                    };
                },
            }
        }
        Some(())
    }

    /// Charges the seconds since the last sample to `cur_player` (see
    /// `update_time_at`). The wall clock may read anything, so this only promises
    /// that the other side's time is untouched and that the charged side loses
    /// exactly the seconds between the two samples, or nothing with `None`.
    pub fn update_time(&mut self, cur_player: PlayerType) -> (r: Option<()>)
        ensures
            final(self).last_update >= old(self).last_update,
            match cur_player {
                PlayerType::Black => {
                    &&& final(self).white_time == old(self).white_time
                    &&& r is Some ==> final(self).black_time == old(self).black_time - (final(self).last_update - old(self).last_update)
                    &&& r is None ==> final(self).black_time == old(self).black_time
                        && old(self).black_time < final(self).last_update - old(self).last_update
                },
                PlayerType::White => {
                    &&& final(self).black_time == old(self).black_time
                    &&& r is Some ==> final(self).white_time == old(self).white_time - (final(self).last_update - old(self).last_update)
                    &&& r is None ==> final(self).white_time == old(self).white_time
                        && old(self).white_time < final(self).last_update - old(self).last_update
                },
            },
    {
        let now = unix_now();
        self.update_time_at(cur_player, now)
    }
}

} // verus!
