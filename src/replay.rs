//! A decoded replay and the questions asked of it: who played, who won.

use crate::bytes::Reader;
use crate::error::Error;
use crate::game_result::{is_sniper_win_result, is_spy_win_result, GameResult};
use crate::header::{header_block, Header, HeaderView};
use crate::result_data::decoded_as;
use vstd::prelude::*;
use vstd::string::*;

verus! {

/// A replay: for now, its header.
#[derive(Debug)]
pub struct Replay {
    /// The header of the replay, with all that describes the game.
    pub header: Header,
}

/// Whether `name` is the spy's username or display name.
pub open spec fn spy_is(h: HeaderView, name: Seq<char>) -> bool {
    h.trailer.spy_user_name == name || h.trailer.spy_display_name == Some(name)
}

/// Whether `name` is the sniper's username or display name.
pub open spec fn sniper_is(h: HeaderView, name: Seq<char>) -> bool {
    h.trailer.sniper_user_name == name || h.trailer.sniper_display_name == Some(name)
}

/// Whether the game ended in a win for the spy.
pub open spec fn spy_won(h: HeaderView) -> bool {
    is_spy_win_result(h.result_data.game_result)
}

/// Whether the game ended in a win for the sniper.
pub open spec fn sniper_won(h: HeaderView) -> bool {
    is_sniper_win_result(h.result_data.game_result)
}

/// Whether two texts hold the same characters.
pub fn same_text(a: &str, b: &str) -> (r: bool)
    ensures
        r == (a@ == b@),
{
    let n = a.unicode_len();
    if b.unicode_len() != n {
        return false;
    }
    let mut i: usize = 0;
    while i < n
        invariant
            i <= n,
            n == a@.len(),
            n == b@.len(),
            forall|j: int| 0 <= j < i ==> a@[j] == b@[j],
        decreases n - i,
    {
        if a.get_char(i) != b.get_char(i) {
            return false;
        }
        i = i + 1;
    }
    proof {
        assert(a@ =~= b@);
    }
    true
}

impl Default for Replay {
    /// A replay with a default header.
    fn default() -> (r: Replay)
        ensures
            r.header.spy_user_name@.len() == 0 && r.header.sniper_user_name@.len() == 0,
            r.header.spy_display_name is None && r.header.sniper_display_name is None,
            r.header.result_data.game_result == GameResult::InProgress,
    {
        Replay { header: Header::default() }
    }
}

/// The name shown for the spy: the display name where there is one.
pub open spec fn shown_spy(h: HeaderView) -> Seq<char> {
    match h.trailer.spy_display_name {
        Some(d) => d,
        None => h.trailer.spy_user_name,
    }
}

/// The name shown for the sniper: the display name where there is one.
pub open spec fn shown_sniper(h: HeaderView) -> Seq<char> {
    match h.trailer.sniper_display_name {
        Some(d) => d,
        None => h.trailer.sniper_user_name,
    }
}

impl Replay {
    /// The name shown for the spy: the display name, else the username.
    pub fn spy_name(&self) -> (r: String)
        ensures
            r@ == shown_spy(self.header@),
    {
        match &self.header.spy_display_name {
            Some(d) => d.clone(),
            None => self.header.spy_user_name.clone(),
        }
    }

    /// The name shown for the sniper: the display name, else the username.
    pub fn sniper_name(&self) -> (r: String)
        ensures
            r@ == shown_sniper(self.header@),
    {
        match &self.header.sniper_display_name {
            Some(d) => d.clone(),
            None => self.header.sniper_user_name.clone(),
        }
    }

    /// Decodes a replay at the reader's position.
    pub fn from_reader(reader: &mut Reader) -> (r: Result<Replay, Error>)
        ensures
            decoded_as(
                r,
                *final(reader),
                *old(reader),
                header_block(old(reader).data@, old(reader).pos as int),
                |x: Replay| x.header@,
            ),
    {
        let header = Header::from_reader(reader)?;
        Ok(Replay { header })
    }

    /// Decodes a replay from the start of `data`.
    pub fn from_bytes(data: &[u8]) -> (r: Result<Replay, Error>)
        ensures
            match header_block(data@, 0) {
                Ok((h, _)) => r matches Ok(x) && x.header@ == h,
                Err(f) => r matches Err(e) && e@ == f,
            },
    {
        let mut reader = Reader::new(data);
        Replay::from_reader(&mut reader)
    }

    /// Checks whether the replay has a player of this name, on either side.
    pub fn has_player(&self, name: &str) -> (r: bool)
        ensures
            r == (spy_is(self.header@, name@) || sniper_is(self.header@, name@)),
    {
        self.has_spy(name) || self.has_sniper(name)
    }

    /// Checks whether the spy is a player of this name.
    pub fn has_spy(&self, name: &str) -> (r: bool)
        ensures
            r == spy_is(self.header@, name@),
    {
        if same_text(self.header.spy_user_name.as_str(), name) {
            return true;
        }
        if let Some(display_name) = &self.header.spy_display_name {
            return same_text(display_name.as_str(), name);
        }
        false
    }

    /// Checks whether the sniper is a player of this name.
    pub fn has_sniper(&self, name: &str) -> (r: bool)
        ensures
            r == sniper_is(self.header@, name@),
    {
        if same_text(self.header.sniper_user_name.as_str(), name) {
            return true;
        }
        if let Some(display_name) = &self.header.sniper_display_name {
            return same_text(display_name.as_str(), name);
        }
        false
    }

    /// Checks whether the game ended in a win for the spy.
    pub fn is_spy_win(&self) -> (r: bool)
        ensures
            r == spy_won(self.header@),
    {
        let g = self.header.result_data.game_result;
        g == GameResult::MissionsWin || g == GameResult::CivilianShot
    }

    /// Checks whether the game ended in a win for the sniper.
    pub fn is_sniper_win(&self) -> (r: bool)
        ensures
            r == sniper_won(self.header@),
    {
        let g = self.header.result_data.game_result;
        g == GameResult::SpyShot || g == GameResult::SpyTimeout
    }

    /// Checks whether the game ended in a win for the player of this name.
    pub fn is_win_for(&self, name: &str) -> (r: bool)
        ensures
            r == (spy_is(self.header@, name@) && spy_won(self.header@) || sniper_is(
                self.header@,
                name@,
            ) && sniper_won(self.header@)),
    {
        self.has_spy(name) && self.is_spy_win() || self.has_sniper(name) && self.is_sniper_win()
    }

    /// Checks whether the game ended in a loss for the player of this name.
    /// This is not the negation of [`Replay::is_win_for`]: a game may be
    /// unfinished.
    pub fn is_loss_for(&self, name: &str) -> (r: bool)
        ensures
            r == (spy_is(self.header@, name@) && sniper_won(self.header@) || sniper_is(
                self.header@,
                name@,
            ) && spy_won(self.header@)),
    {
        self.has_spy(name) && self.is_sniper_win() || self.has_sniper(name) && self.is_spy_win()
    }
}

} // verus!
