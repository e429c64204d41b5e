//! How a game ended.

use crate::error::{Error, Fail};
use crate::text::{chars_are, fold_name, folded};
use vstd::prelude::*;

verus! {

/// The result of a game.
#[derive(Debug, Clone, Copy, PartialEq, Eq, Hash, Structural)]
pub enum GameResult {
    MissionsWin,
    SpyTimeout,
    SpyShot,
    CivilianShot,
    InProgress,
}

/// The result that the code `c` stands for; only 0 to 4 stand for one.
pub open spec fn result_of_code(c: u32) -> Option<GameResult> {
    if c == 0 {
        Some(GameResult::MissionsWin)
    } else if c == 1 {
        Some(GameResult::SpyTimeout)
    } else if c == 2 {
        Some(GameResult::SpyShot)
    } else if c == 3 {
        Some(GameResult::CivilianShot)
    } else if c == 4 {
        Some(GameResult::InProgress)
    } else {
        None
    }
}

/// The result that a folded name stands for.
pub open spec fn result_named(t: Seq<char>) -> Option<GameResult> {
    if t == "missionswin"@ {
        Some(GameResult::MissionsWin)
    } else if t == "timeout"@ {
        Some(GameResult::SpyTimeout)
    } else if t == "spyshot"@ {
        Some(GameResult::SpyShot)
    } else if t == "civilianshot"@ {
        Some(GameResult::CivilianShot)
    } else if t == "inprogress"@ || t == "unfinished"@ {
        Some(GameResult::InProgress)
    } else {
        None
    }
}

/// Whether the result is a win for the spy.
pub open spec fn is_spy_win_result(g: GameResult) -> bool {
    g == GameResult::MissionsWin || g == GameResult::CivilianShot
}

/// Whether the result is a win for the sniper.
pub open spec fn is_sniper_win_result(g: GameResult) -> bool {
    g == GameResult::SpyShot || g == GameResult::SpyTimeout
}

impl Default for GameResult {
    fn default() -> (r: GameResult)
        ensures
            r == GameResult::InProgress,
    {
        GameResult::InProgress
    }
}

impl GameResult {
    /// Decodes a result code as it is stored in a replay.
    pub fn from_code(code: u32) -> (r: Result<GameResult, Error>)
        ensures
            match result_of_code(code) {
                Some(g) => r matches Ok(x) && x == g,
                None => r matches Err(e) && e@ == Fail::InvalidGameResult(code),
            },
    {
        match code {
            0 => Ok(GameResult::MissionsWin),
            1 => Ok(GameResult::SpyTimeout),
            2 => Ok(GameResult::SpyShot),
            3 => Ok(GameResult::CivilianShot),
            4 => Ok(GameResult::InProgress),
            _ => Err(Error::InvalidGameResult(code)),
        }
    }

    /// Parses a result name, ignoring ASCII case and spaces.
    pub fn from_name(name: &str) -> (r: Result<GameResult, Error>)
        ensures
            match result_named(folded(name@)) {
                Some(g) => r matches Ok(x) && x == g,
                None => r matches Err(e) && e@ == Fail::UnknownGameResult(name@),
            },
    {
        let t = fold_name(name);
        if chars_are(&t, "missionswin") {
            Ok(GameResult::MissionsWin)
        } else if chars_are(&t, "timeout") {
            Ok(GameResult::SpyTimeout)
        } else if chars_are(&t, "spyshot") {
            Ok(GameResult::SpyShot)
        } else if chars_are(&t, "civilianshot") {
            Ok(GameResult::CivilianShot)
        } else if chars_are(&t, "inprogress") || chars_are(&t, "unfinished") {
            Ok(GameResult::InProgress)
        } else {
            Err(Error::UnknownGameResult(String::from_str(name)))
        }
    }
}

} // verus!
