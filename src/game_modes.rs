use vstd::prelude::*;

verus! {

/// Where the opponent sits.
#[derive(Debug, Clone, Copy, PartialEq, Eq, Structural, Hash, PartialOrd, Ord)]
pub enum GameMode {
    Local,
    Online,
}

/// Time control of a game.
#[derive(Debug, Clone, Copy, PartialEq, Eq, Structural, Hash, PartialOrd, Ord)]
pub enum GameType {
    Blitz,
    Rapid,
    Classical,
    Bullet,
}

/// Seconds each side starts with under time control `t`.
pub open spec fn seconds_for(t: GameType) -> u64 {
    match t {
        GameType::Blitz => 300,
        GameType::Rapid => 600,
        GameType::Classical => 1800,
        GameType::Bullet => 60,
    }
}

impl GameType {
    pub fn time_control(&self) -> (r: u64)
        ensures
            r == seconds_for(*self),
    {
        match self {
            GameType::Blitz => 300,
            GameType::Rapid => 600,
            GameType::Classical => 1800,
            GameType::Bullet => 60,
        }
    }

    pub fn to_string(&self) -> (r: String)
        ensures
            r@ == (match self {
                GameType::Blitz => "Blitz"@,
                GameType::Rapid => "Rapid"@,
                GameType::Classical => "Classical"@,
                GameType::Bullet => "Bullet"@,
            }),
    {
        match self {
            GameType::Blitz => "Blitz".to_owned(),
            GameType::Rapid => "Rapid".to_owned(),
            GameType::Classical => "Classical".to_owned(),
            GameType::Bullet => "Bullet".to_owned(),
        }
    }
}

} // verus!
