//! The result block of a replay header: outcome, mode, map and missions.

use crate::bytes::{fits, le_at, read_u32, read_moves, EndOfInput, Reader};
use crate::error::{Error, Fail};
use crate::game_mode::{mode_of_word, GameMode};
use crate::game_result::{result_of_code, GameResult};
use crate::map::{map_of_hash, GameMap};
use crate::mission::{missions_of, unpack_missions, Mission};
use vstd::prelude::*;

verus! {

/// The result data of a game.
#[derive(Debug)]
pub struct ResultData {
    /// The version of the result data: 1 or 2, or 0 where the replay
    /// (version 3) stores none.
    pub version: u32,
    /// Whether the game was played with simple rules; absent before replay
    /// version 4.
    pub simple_rules: Option<bool>,
    /// The result of the game.
    pub game_result: GameResult,
    /// The mode of the game.
    pub game_mode: GameMode,
    /// The map the game was played on.
    pub map: GameMap,
    /// The missions that the spy selected.
    pub selected_missions: Vec<Mission>,
    /// The missions that the spy picked (for the Pick mode).
    pub picked_missions: Vec<Mission>,
    /// The missions the spy completed.
    pub completed_missions: Vec<Mission>,
    /// The completed missions as the bitfield the replay stores.
    pub completed_missions_raw: u32,
    /// The number of guests at the party; from result version 2 on.
    pub guests: Option<u32>,
    /// The time on the clock at the start of the game, in seconds; from
    /// result version 2 on.
    pub clock_start: Option<u32>,
}

/// [`ResultData`] as contracts see it.
pub struct ResultDataView {
    pub version: u32,
    pub simple_rules: Option<bool>,
    pub game_result: GameResult,
    pub game_mode: GameMode,
    pub map: GameMap,
    pub selected_missions: Seq<Mission>,
    pub picked_missions: Seq<Mission>,
    pub completed_missions: Seq<Mission>,
    pub completed_missions_raw: u32,
    pub guests: Option<u32>,
    pub clock_start: Option<u32>,
}

impl View for ResultData {
    type V = ResultDataView;

    open spec fn view(&self) -> ResultDataView {
        ResultDataView {
            version: self.version,
            simple_rules: self.simple_rules,
            game_result: self.game_result,
            game_mode: self.game_mode,
            map: self.map,
            selected_missions: self.selected_missions@,
            picked_missions: self.picked_missions@,
            completed_missions: self.completed_missions@,
            completed_missions_raw: self.completed_missions_raw,
            guests: self.guests,
            clock_start: self.clock_start,
        }
    }
}

/// The little-endian `u32` at `p`.
pub open spec fn u32_at(s: Seq<u8>, p: int) -> u32 {
    le_at(s, p, 4) as u32
}

/// Running out of input at `p`, for a field of `n` bytes.
pub open spec fn io(p: int, n: int) -> Fail {
    Fail::Io(EndOfInput { offset: p as usize, wanted: n as usize })
}

/// The result-data version held in the low nibble of a flags word.
pub open spec fn flags_version(flags: u32) -> u32 {
    flags & 0x0f
}

/// The simple-rules flag: bit 0x10 of a flags word.
pub open spec fn flags_simple(flags: u32) -> bool {
    flags & 0x10 != 0
}

/// The result block at `p` of `s` in a replay of version `replay_version`,
/// with the offset just past it.
///
/// Layout: a flags word (only after replay version 3), then the result,
/// mode, map, selected, picked and completed words, then the guest count
/// and clock start (only for result version 2). Each word is a
/// little-endian `u32`; the first field that is cut short, or the first
/// word that does not decode, decides the failure.
pub open spec fn result_block(s: Seq<u8>, p: int, replay_version: u32) -> Result<
    (ResultDataView, int),
    Fail,
> {
    let has_flags = replay_version > 3;
    let flags = u32_at(s, p);
    let version = if has_flags {
        flags_version(flags)
    } else {
        0
    };
    let q = if has_flags {
        p + 4
    } else {
        p
    };
    if has_flags && !fits(s, p, 4) {
        Err(io(p, 4))
    } else if has_flags && !(version == 1 || version == 2) {
        Err(Fail::UnsupportedResultVersion(version))
    } else if !fits(s, q, 4) {
        Err(io(q, 4))
    } else if result_of_code(u32_at(s, q)) is None {
        Err(Fail::InvalidGameResult(u32_at(s, q)))
    } else if !fits(s, q + 4, 4) {
        Err(io(q + 4, 4))
    } else if mode_of_word(u32_at(s, q + 4)) is None {
        Err(Fail::InvalidGameMode(u32_at(s, q + 4)))
    } else if !fits(s, q + 8, 4) {
        Err(io(q + 8, 4))
    } else if !fits(s, q + 12, 4) {
        Err(io(q + 12, 4))
    } else if !fits(s, q + 16, 4) {
        Err(io(q + 16, 4))
    } else if !fits(s, q + 20, 4) {
        Err(io(q + 20, 4))
    } else if version == 2 && !fits(s, q + 24, 4) {
        Err(io(q + 24, 4))
    } else if version == 2 && !fits(s, q + 28, 4) {
        Err(io(q + 28, 4))
    } else {
        let view = ResultDataView {
            version,
            simple_rules: if has_flags {
                Some(flags_simple(flags))
            } else {
                None
            },
            game_result: result_of_code(u32_at(s, q))->Some_0,
            game_mode: mode_of_word(u32_at(s, q + 4))->Some_0,
            map: map_of_hash(u32_at(s, q + 8)),
            selected_missions: missions_of(u32_at(s, q + 12)),
            picked_missions: missions_of(u32_at(s, q + 16)),
            completed_missions: missions_of(u32_at(s, q + 20)),
            completed_missions_raw: u32_at(s, q + 20),
            guests: if version == 2 {
                Some(u32_at(s, q + 24))
            } else {
                None
            },
            clock_start: if version == 2 {
                Some(u32_at(s, q + 28))
            } else {
                None
            },
        };
        Ok((view, if version == 2 { q + 32 } else { q + 24 }))
    }
}

/// A result block of a replay of version 3 or lower has no flags word: its
/// version is 0 and its simple-rules flag absent, whatever the bytes hold,
/// and its first word is the game result.
pub proof fn lemma_result_block_without_flags(s: Seq<u8>, p: int, replay_version: u32)
    requires
        replay_version <= 3,
        result_block(s, p, replay_version) is Ok,
    ensures
        ({
            let v = result_block(s, p, replay_version)->Ok_0.0;
            &&& v.version == 0
            &&& v.simple_rules is None
            &&& result_of_code(u32_at(s, p)) == Some(v.game_result)
        }),
{
}

/// A result block of a later replay keeps the version from the low nibble
/// of its flags word and the simple-rules flag from bit 0x10.
pub proof fn lemma_result_block_flags(s: Seq<u8>, p: int, replay_version: u32)
    requires
        replay_version > 3,
        result_block(s, p, replay_version) is Ok,
    ensures
        ({
            let v = result_block(s, p, replay_version)->Ok_0.0;
            let flags = u32_at(s, p);
            &&& v.version == flags & 0x0f
            &&& v.version == 1 || v.version == 2
            &&& v.simple_rules == Some(flags & 0x10 != 0)
            &&& result_of_code(u32_at(s, p + 4)) == Some(v.game_result)
        }),
{
}

/// What a decode from `before` that follows `spec` leaves: the reader ends
/// past the decoded part on success, and the result or failure is the
/// one `spec` gives.
pub open spec fn decoded_as<T, V>(
    r: Result<T, Error>,
    after: Reader,
    before: Reader,
    spec: Result<(V, int), Fail>,
    view: spec_fn(T) -> V,
) -> bool {
    &&& after.data@ == before.data@
    &&& match spec {
        Ok((v, end)) => r matches Ok(x) && view(x) == v && after.pos == end,
        Err(f) => r matches Err(e) && e@ == f,
    }
}

/// Reads a little-endian `u32`, failing with an I/O error.
pub(crate) fn word(reader: &mut Reader) -> (r: Result<u32, Error>)
    ensures
        read_moves(*old(reader), *final(reader), 4),
        fits(old(reader).data@, old(reader).pos as int, 4) ==> (r matches Ok(w) && w == u32_at(
            old(reader).data@,
            old(reader).pos as int,
        )),
        !fits(old(reader).data@, old(reader).pos as int, 4) ==> (r matches Err(e) && e@ == io(
            old(reader).pos as int,
            4,
        )),
{
    match read_u32(reader) {
        Ok(w) => Ok(w),
        Err(e) => Err(Error::Io(e)),
    }
}

impl Default for ResultData {
    /// Empty result data: version 0, an unfinished Known 4 game on an
    /// unknown map, with no missions.
    fn default() -> (r: ResultData)
        ensures
            r.version == 0,
            r.simple_rules is None,
            r.game_result == GameResult::InProgress,
            r.game_mode == GameMode::Known(4),
            r.map == GameMap::Unknown(0),
            r.selected_missions@.len() == 0,
            r.picked_missions@.len() == 0,
            r.completed_missions@.len() == 0,
            r.completed_missions_raw == 0,
            r.guests is None,
            r.clock_start is None,
    {
        ResultData {
            version: 0,
            simple_rules: None,
            game_result: GameResult::InProgress,
            game_mode: GameMode::Known(4),
            map: GameMap::Unknown(0),
            selected_missions: Vec::new(),
            picked_missions: Vec::new(),
            completed_missions: Vec::new(),
            completed_missions_raw: 0,
            guests: None,
            clock_start: None,
        }
    }
}

impl ResultData {
    /// Reads and decodes the game-result word.
    pub fn read_game_result(reader: &mut Reader) -> (r: Result<GameResult, Error>)
        ensures
            read_moves(*old(reader), *final(reader), 4),
            ({
                let s = old(reader).data@;
                let p = old(reader).pos as int;
                let w = u32_at(s, p);
                if !fits(s, p, 4) {
                    r matches Err(e) && e@ == io(p, 4)
                } else {
                    match result_of_code(w) {
                        Some(g) => r matches Ok(x) && x == g,
                        None => r matches Err(e) && e@ == Fail::InvalidGameResult(w),
                    }
                }
            }),
    {
        GameResult::from_code(word(reader)?)
    }

    /// Reads and decodes the game-mode word.
    pub fn read_game_mode(reader: &mut Reader) -> (r: Result<GameMode, Error>)
        ensures
            read_moves(*old(reader), *final(reader), 4),
            ({
                let s = old(reader).data@;
                let p = old(reader).pos as int;
                let w = u32_at(s, p);
                if !fits(s, p, 4) {
                    r matches Err(e) && e@ == io(p, 4)
                } else {
                    match mode_of_word(w) {
                        Some(m) => r matches Ok(x) && x == m,
                        None => r matches Err(e) && e@ == Fail::InvalidGameMode(w),
                    }
                }
            }),
    {
        GameMode::decode(word(reader)?)
    }

    /// Reads the result-data flags: the version (only 1 and 2 are
    /// supported) and whether the game used simple rules.
    pub fn read_flags(reader: &mut Reader) -> (r: Result<(u32, bool), Error>)
        ensures
            read_moves(*old(reader), *final(reader), 4),
            ({
                let s = old(reader).data@;
                let p = old(reader).pos as int;
                let v = flags_version(u32_at(s, p));
                if !fits(s, p, 4) {
                    r matches Err(e) && e@ == io(p, 4)
                } else if v == 1 || v == 2 {
                    r == Ok::<(u32, bool), Error>((v, flags_simple(u32_at(s, p))))
                } else {
                    r matches Err(e) && e@ == Fail::UnsupportedResultVersion(v)
                }
            }),
    {
        let flags = word(reader)?;
        let version = flags & 0x0f;
        let simple = (flags & 0x10) != 0;
        if version == 1 || version == 2 {
            Ok((version, simple))
        } else {
            Err(Error::UnsupportedResultVersion(version))
        }
    }

    /// Decodes the result block at the reader's position; `replay_version`
    /// tells whether a flags word comes first.
    pub fn from_reader(reader: &mut Reader, replay_version: u32) -> (r: Result<ResultData, Error>)
        ensures
            decoded_as(
                r,
                *final(reader),
                *old(reader),
                result_block(old(reader).data@, old(reader).pos as int, replay_version),
                |d: ResultData| d@,
            ),
    {
        let (version, simple_rules) = if replay_version > 3 {
            let (v, simple) = ResultData::read_flags(reader)?;
            (v, Some(simple))
        } else {
            (0u32, None)
        };
        let game_result = ResultData::read_game_result(reader)?;
        let game_mode = ResultData::read_game_mode(reader)?;
        let map = GameMap::from_hash(word(reader)?);
        let selected = word(reader)?;
        let picked = word(reader)?;
        let completed = word(reader)?;
        let (guests, clock_start) = if version == 2 {
            let g = word(reader)?;
            let c = word(reader)?;
            (Some(g), Some(c))
        } else {
            (None, None)
        };
        let data = ResultData {
            version,
            simple_rules,
            game_result,
            game_mode,
            map,
            selected_missions: unpack_missions(selected),
            picked_missions: unpack_missions(picked),
            completed_missions: unpack_missions(completed),
            completed_missions_raw: completed,
            guests,
            clock_start,
        };
        Ok(data)
    }
}

} // verus!
