//! The replay header: fixed fields, player names and the result block.

use crate::bytes::{
    bytes_at, fits, le_at, read_bytes, read_f32, read_moves, read_u128, read_u16, read_u8, Reader,
};
use crate::error::{Error, Fail};
use crate::game_mode::GameMode;
use crate::game_result::{result_of_code, GameResult};
use crate::map::GameMap;
use crate::result_data::{decoded_as, io, result_block, u32_at, word, ResultData, ResultDataView};
use crate::text::string_from_utf8;
use vstd::prelude::*;
use vstd::utf8::{decode_utf8, valid_utf8};

verus! {

/// The header of a replay.
///
/// The duration and the latency are 32-bit floats in the file; they are
/// kept here as their bit patterns (`f32::from_bits` turns them back).
#[derive(Debug)]
pub struct Header {
    /// The version of the replay: 3, 4 or 5.
    pub replay_version: u32,
    /// The version of the protocol.
    pub protocol_version: u32,
    /// The version of the SpyParty build that created the replay.
    pub spyparty_version: u32,
    /// Flags of unknown meaning.
    pub flags: u32,
    /// The duration of the replay in seconds, as the bits of an `f32`.
    pub duration_bits: u32,
    /// The unique ID of this game.
    pub game_id: u128,
    /// The time this game started, as a UNIX timestamp.
    pub start_time: u32,
    /// The ID of this game within its match.
    pub play_id: u16,
    /// The length of the spy's username.
    pub spy_user_len: u8,
    /// The length of the sniper's username.
    pub sniper_user_len: u8,
    /// The length of the spy's display name (0 before replay version 5).
    pub spy_display_len: u8,
    /// The length of the sniper's display name (0 before replay version 5).
    pub sniper_display_len: u8,
    /// Data on the result of the game.
    pub result_data: ResultData,
    /// The client latency, as the bits of an `f32`.
    pub latency_bits: u32,
    /// The size of the data that comes after the names.
    pub data_size: u32,
    /// The spy's username.
    pub spy_user_name: String,
    /// The sniper's username.
    pub sniper_user_name: String,
    /// The spy's display name, where the replay has one.
    pub spy_display_name: Option<String>,
    /// The sniper's display name, where the replay has one.
    pub sniper_display_name: Option<String>,
}

/// The part of a header that follows the result block.
pub struct TrailerView {
    pub latency_bits: u32,
    pub data_size: u32,
    pub spy_user_name: Seq<char>,
    pub sniper_user_name: Seq<char>,
    pub spy_display_name: Option<Seq<char>>,
    pub sniper_display_name: Option<Seq<char>>,
}

/// [`Header`] as contracts see it.
pub struct HeaderView {
    pub replay_version: u32,
    pub protocol_version: u32,
    pub spyparty_version: u32,
    pub flags: u32,
    pub duration_bits: u32,
    pub game_id: u128,
    pub start_time: u32,
    pub play_id: u16,
    pub spy_user_len: u8,
    pub sniper_user_len: u8,
    pub spy_display_len: u8,
    pub sniper_display_len: u8,
    pub result_data: ResultDataView,
    pub trailer: TrailerView,
}

impl View for Header {
    type V = HeaderView;

    open spec fn view(&self) -> HeaderView {
        HeaderView {
            replay_version: self.replay_version,
            protocol_version: self.protocol_version,
            spyparty_version: self.spyparty_version,
            flags: self.flags,
            duration_bits: self.duration_bits,
            game_id: self.game_id,
            start_time: self.start_time,
            play_id: self.play_id,
            spy_user_len: self.spy_user_len,
            sniper_user_len: self.sniper_user_len,
            spy_display_len: self.spy_display_len,
            sniper_display_len: self.sniper_display_len,
            result_data: self.result_data@,
            trailer: TrailerView {
                latency_bits: self.latency_bits,
                data_size: self.data_size,
                spy_user_name: self.spy_user_name@,
                sniper_user_name: self.sniper_user_name@,
                spy_display_name: match &self.spy_display_name {
                    Some(n) => Some(n@),
                    None => None,
                },
                sniper_display_name: match &self.sniper_display_name {
                    Some(n) => Some(n@),
                    None => None,
                },
            },
        }
    }
}

/// The identifier that opens every replay: `RPLY` in ASCII.
pub open spec fn rply() -> Seq<u8> {
    seq![0x52u8, 0x50u8, 0x4cu8, 0x59u8]
}

/// The text of a name field of `n` bytes at `p`.
pub open spec fn name_at(s: Seq<u8>, p: int, n: int) -> Seq<char> {
    decode_utf8(bytes_at(s, p, n))
}

/// Whether a name field of `n` bytes at `p` is there and valid UTF-8.
pub open spec fn name_ok(s: Seq<u8>, p: int, n: int) -> bool {
    fits(s, p, n) && valid_utf8(bytes_at(s, p, n))
}

/// How a name field of `n` bytes at `p` fails: cut short, or not UTF-8.
pub open spec fn name_fail(s: Seq<u8>, p: int, n: int) -> Fail {
    if !fits(s, p, n) {
        io(p, n)
    } else {
        Fail::InvalidString
    }
}

/// The trailer at `t`: latency and data size (little-endian, 4 bytes each),
/// then the spy's and the sniper's usernames, then the display names whose
/// lengths are not zero, each UTF-8.
pub open spec fn trailer_block(
    s: Seq<u8>,
    t: int,
    spy_len: int,
    sniper_len: int,
    spy_display_len: int,
    sniper_display_len: int,
) -> Result<(TrailerView, int), Fail> {
    let a = t + 8;
    let b = a + spy_len;
    let c = b + sniper_len;
    let d = c + spy_display_len;
    if !fits(s, t, 4) {
        Err(io(t, 4))
    } else if !fits(s, t + 4, 4) {
        Err(io(t + 4, 4))
    } else if !name_ok(s, a, spy_len) {
        Err(name_fail(s, a, spy_len))
    } else if !name_ok(s, b, sniper_len) {
        Err(name_fail(s, b, sniper_len))
    } else if spy_display_len > 0 && !name_ok(s, c, spy_display_len) {
        Err(name_fail(s, c, spy_display_len))
    } else if sniper_display_len > 0 && !name_ok(s, d, sniper_display_len) {
        Err(name_fail(s, d, sniper_display_len))
    } else {
        Ok(
            (
                TrailerView {
                    latency_bits: u32_at(s, t),
                    data_size: u32_at(s, t + 4),
                    spy_user_name: name_at(s, a, spy_len),
                    sniper_user_name: name_at(s, b, sniper_len),
                    spy_display_name: if spy_display_len > 0 {
                        Some(name_at(s, c, spy_display_len))
                    } else {
                        None
                    },
                    sniper_display_name: if sniper_display_len > 0 {
                        Some(name_at(s, d, sniper_display_len))
                    } else {
                        None
                    },
                },
                d + sniper_display_len,
            ),
        )
    }
}

/// The header at `p` of `s`, with the offset just past it.
///
/// Layout (little-endian): `RPLY`, the replay version (3, 4 or 5), the
/// protocol version, the build version, flags, the duration (`f32`), the
/// game ID (16 bytes), the start time, the play ID (2 bytes), the spy's and
/// the sniper's username lengths (1 byte each, not zero); for version 5 the
/// two display-name lengths (1 byte each) and 2 unused bytes; then the
/// result block and the trailer. The first field that is cut short or
/// does not hold an accepted value decides the failure.
pub open spec fn header_block(s: Seq<u8>, p: int) -> Result<(HeaderView, int), Fail> {
    let version = u32_at(s, p + 4);
    let has_display = version == 5;
    let spy_len = s[p + 46];
    let sniper_len = s[p + 47];
    if !fits(s, p, 4) {
        Err(io(p, 4))
    } else if bytes_at(s, p, 4) != rply() {
        Err(Fail::InvalidIdentifier)
    } else if !fits(s, p + 4, 4) {
        Err(io(p + 4, 4))
    } else if !(version == 3 || version == 4 || version == 5) {
        Err(Fail::UnsupportedReplayVersion(version))
    } else if !fits(s, p + 8, 4) {
        Err(io(p + 8, 4))
    } else if !fits(s, p + 12, 4) {
        Err(io(p + 12, 4))
    } else if !fits(s, p + 16, 4) {
        Err(io(p + 16, 4))
    } else if !fits(s, p + 20, 4) {
        Err(io(p + 20, 4))
    } else if !fits(s, p + 24, 16) {
        Err(io(p + 24, 16))
    } else if !fits(s, p + 40, 4) {
        Err(io(p + 40, 4))
    } else if !fits(s, p + 44, 2) {
        Err(io(p + 44, 2))
    } else if !fits(s, p + 46, 1) {
        Err(io(p + 46, 1))
    } else if spy_len == 0 {
        Err(Fail::MissingSpyUsername)
    } else if !fits(s, p + 47, 1) {
        Err(io(p + 47, 1))
    } else if sniper_len == 0 {
        Err(Fail::MissingSniperUsername)
    } else if has_display && !fits(s, p + 48, 1) {
        Err(io(p + 48, 1))
    } else if has_display && !fits(s, p + 49, 1) {
        Err(io(p + 49, 1))
    } else if has_display && !fits(s, p + 50, 2) {
        Err(io(p + 50, 2))
    } else {
        let spy_display_len: u8 = if has_display {
            s[p + 48]
        } else {
            0
        };
        let sniper_display_len: u8 = if has_display {
            s[p + 49]
        } else {
            0
        };
        let r0 = if has_display {
            p + 52
        } else {
            p + 48
        };
        match result_block(s, r0, version) {
            Err(f) => Err(f),
            Ok((result_data, t)) => match trailer_block(
                s,
                t,
                spy_len as int,
                sniper_len as int,
                spy_display_len as int,
                sniper_display_len as int,
            ) {
                Err(f) => Err(f),
                Ok((trailer, end)) => Ok(
                    (
                        HeaderView {
                            replay_version: version,
                            protocol_version: u32_at(s, p + 8),
                            spyparty_version: u32_at(s, p + 12),
                            flags: u32_at(s, p + 16),
                            duration_bits: u32_at(s, p + 20),
                            game_id: le_at(s, p + 24, 16) as u128,
                            start_time: u32_at(s, p + 40),
                            play_id: le_at(s, p + 44, 2) as u16,
                            spy_user_len: spy_len,
                            sniper_user_len: sniper_len,
                            spy_display_len,
                            sniper_display_len,
                            result_data,
                            trailer,
                        },
                        end,
                    ),
                ),
            },
        }
    }
}

/// Reads the bits of a little-endian `f32`, failing with an I/O error.
fn float_bits(reader: &mut Reader) -> (r: Result<u32, Error>)
    ensures
        read_moves(*old(reader), *final(reader), 4),
        fits(old(reader).data@, old(reader).pos as int, 4) ==> (r matches Ok(w) && w == u32_at(
            old(reader).data@,
            old(reader).pos as int,
        )),
        !fits(old(reader).data@, old(reader).pos as int, 4) ==> (r matches Err(e) && e@ == io(
            old(reader).pos as int,
            4,
        )),
{
    match read_f32(reader) {
        Ok(w) => Ok(w),
        Err(e) => Err(Error::Io(e)),
    }
}

/// Reads one byte, failing with an I/O error.
fn byte(reader: &mut Reader) -> (r: Result<u8, Error>)
    ensures
        read_moves(*old(reader), *final(reader), 1),
        fits(old(reader).data@, old(reader).pos as int, 1) ==> (r matches Ok(b) && b
            == old(reader).data@[old(reader).pos as int]),
        !fits(old(reader).data@, old(reader).pos as int, 1) ==> (r matches Err(e) && e@ == io(
            old(reader).pos as int,
            1,
        )),
{
    match read_u8(reader) {
        Ok(b) => Ok(b),
        Err(e) => Err(Error::Io(e)),
    }
}

impl Default for Header {
    /// An empty header: every number 0, empty usernames, no display names
    /// and default result data.
    fn default() -> (r: Header)
        ensures
            r.replay_version == 0 && r.protocol_version == 0 && r.spyparty_version == 0,
            r.flags == 0 && r.duration_bits == 0 && r.game_id == 0,
            r.start_time == 0 && r.play_id == 0,
            r.latency_bits == 0 && r.data_size == 0,
            r.spy_user_len == 0 && r.sniper_user_len == 0,
            r.spy_display_len == 0 && r.sniper_display_len == 0,
            r.spy_user_name@.len() == 0 && r.sniper_user_name@.len() == 0,
            r.spy_display_name is None && r.sniper_display_name is None,
            r.result_data.version == 0 && r.result_data.simple_rules is None,
            r.result_data.game_result == GameResult::InProgress,
            r.result_data.game_mode == GameMode::Known(4),
            r.result_data.map == GameMap::Unknown(0),
            r.result_data.selected_missions@.len() == 0,
            r.result_data.picked_missions@.len() == 0,
            r.result_data.completed_missions@.len() == 0,
            r.result_data.completed_missions_raw == 0,
            r.result_data.guests is None && r.result_data.clock_start is None,
    {
        Header {
            replay_version: 0,
            protocol_version: 0,
            spyparty_version: 0,
            flags: 0,
            duration_bits: 0,
            game_id: 0,
            start_time: 0,
            play_id: 0,
            spy_user_len: 0,
            sniper_user_len: 0,
            spy_display_len: 0,
            sniper_display_len: 0,
            result_data: ResultData::default(),
            latency_bits: 0,
            data_size: 0,
            spy_user_name: String::new(),
            sniper_user_name: String::new(),
            spy_display_name: None,
            sniper_display_name: None,
        }
    }
}

impl Header {
    /// Checks that the next four bytes are the identifier `RPLY`.
    pub fn validate_identifier(reader: &mut Reader) -> (r: Result<(), Error>)
        ensures
            read_moves(*old(reader), *final(reader), 4),
            ({
                let s = old(reader).data@;
                let p = old(reader).pos as int;
                if !fits(s, p, 4) {
                    r matches Err(e) && e@ == io(p, 4)
                } else if bytes_at(s, p, 4) != rply() {
                    r matches Err(e) && e@ == Fail::InvalidIdentifier
                } else {
                    r is Ok
                }
            }),
    {
        let id = match read_bytes(reader, 4) {
            Ok(id) => id,
            Err(e) => return Err(Error::Io(e)),
        };
        if id[0] == 0x52 && id[1] == 0x50 && id[2] == 0x4c && id[3] == 0x59 {
            proof {
                assert(id@ =~= rply());
            }
            Ok(())
        } else {
            Err(Error::InvalidIdentifier)
        }
    }

    /// Reads the replay version; only versions 3, 4 and 5 are supported.
    pub fn read_replay_version(reader: &mut Reader) -> (r: Result<u32, Error>)
        ensures
            read_moves(*old(reader), *final(reader), 4),
            ({
                let s = old(reader).data@;
                let p = old(reader).pos as int;
                let v = u32_at(s, p);
                if !fits(s, p, 4) {
                    r matches Err(e) && e@ == io(p, 4)
                } else if v == 3 || v == 4 || v == 5 {
                    r matches Ok(x) && x == v
                } else {
                    r matches Err(e) && e@ == Fail::UnsupportedReplayVersion(v)
                }
            }),
    {
        let version = word(reader)?;
        if version == 3 || version == 4 || version == 5 {
            Ok(version)
        } else {
            Err(Error::UnsupportedReplayVersion(version))
        }
    }

    /// Reads the length of the spy's username, which may not be zero.
    pub fn read_spy_user_len(reader: &mut Reader) -> (r: Result<u8, Error>)
        ensures
            read_moves(*old(reader), *final(reader), 1),
            ({
                let s = old(reader).data@;
                let p = old(reader).pos as int;
                if !fits(s, p, 1) {
                    r matches Err(e) && e@ == io(p, 1)
                } else if s[p] == 0 {
                    r matches Err(e) && e@ == Fail::MissingSpyUsername
                } else {
                    r matches Ok(x) && x == s[p]
                }
            }),
    {
        let len = byte(reader)?;
        if len > 0 {
            Ok(len)
        } else {
            Err(Error::MissingSpyUsername)
        }
    }

    /// Reads the length of the sniper's username, which may not be zero.
    pub fn read_sniper_user_len(reader: &mut Reader) -> (r: Result<u8, Error>)
        ensures
            read_moves(*old(reader), *final(reader), 1),
            ({
                let s = old(reader).data@;
                let p = old(reader).pos as int;
                if !fits(s, p, 1) {
                    r matches Err(e) && e@ == io(p, 1)
                } else if s[p] == 0 {
                    r matches Err(e) && e@ == Fail::MissingSniperUsername
                } else {
                    r matches Ok(x) && x == s[p]
                }
            }),
    {
        let len = byte(reader)?;
        if len > 0 {
            Ok(len)
        } else {
            Err(Error::MissingSniperUsername)
        }
    }

    /// Reads a username of `len` bytes, which must be valid UTF-8.
    pub fn read_user_name(reader: &mut Reader, len: u8) -> (r: Result<String, Error>)
        ensures
            read_moves(*old(reader), *final(reader), len as int),
            ({
                let s = old(reader).data@;
                let p = old(reader).pos as int;
                if name_ok(s, p, len as int) {
                    r matches Ok(x) && x@ == name_at(s, p, len as int)
                } else {
                    r matches Err(e) && e@ == name_fail(s, p, len as int)
                }
            }),
    {
        let buf = match read_bytes(reader, len as usize) {
            Ok(buf) => buf,
            Err(e) => return Err(Error::Io(e)),
        };
        match string_from_utf8(buf) {
            Ok(name) => Ok(name),
            Err(e) => Err(Error::InvalidString(e)),
        }
    }

    /// Reads a display name of `len` bytes; a zero length means there is
    /// none, and nothing is read.
    pub fn read_display_name(reader: &mut Reader, len: u8) -> (r: Result<Option<String>, Error>)
        ensures
            len > 0 ==> read_moves(*old(reader), *final(reader), len as int),
            len == 0 ==> *final(reader) == *old(reader),
            ({
                let s = old(reader).data@;
                let p = old(reader).pos as int;
                if len == 0 {
                    r matches Ok(x) && x is None
                } else if name_ok(s, p, len as int) {
                    r matches Ok(x) && x matches Some(n) && n@ == name_at(s, p, len as int)
                } else {
                    r matches Err(e) && e@ == name_fail(s, p, len as int)
                }
            }),
    {
        if len > 0 {
            let name = Header::read_user_name(reader, len)?;
            Ok(Some(name))
        } else {
            Ok(None)
        }
    }

    /// Decodes a header at the reader's position.
    pub fn from_reader(reader: &mut Reader) -> (r: Result<Header, Error>)
        ensures
            decoded_as(
                r,
                *final(reader),
                *old(reader),
                header_block(old(reader).data@, old(reader).pos as int),
                |h: Header| h@,
            ),
    {
        Header::validate_identifier(reader)?;
        let replay_version = Header::read_replay_version(reader)?;
        let protocol_version = word(reader)?;
        let spyparty_version = word(reader)?;
        let flags = word(reader)?;
        let duration_bits = float_bits(reader)?;
        let game_id = match read_u128(reader) {
            Ok(v) => v,
            Err(e) => return Err(Error::Io(e)),
        };
        let start_time = word(reader)?;
        let play_id = match read_u16(reader) {
            Ok(v) => v,
            Err(e) => return Err(Error::Io(e)),
        };
        let spy_user_len = Header::read_spy_user_len(reader)?;
        let sniper_user_len = Header::read_sniper_user_len(reader)?;
        let (spy_display_len, sniper_display_len) = if replay_version == 5 {
            let a = byte(reader)?;
            let b = byte(reader)?;
            Header::skip_unused(reader)?;
            (a, b)
        } else {
            (0u8, 0u8)
        };
        let result_data = ResultData::from_reader(reader, replay_version)?;
        let latency_bits = float_bits(reader)?;
        let data_size = word(reader)?;
        let spy_user_name = Header::read_user_name(reader, spy_user_len)?;
        let sniper_user_name = Header::read_user_name(reader, sniper_user_len)?;
        let spy_display_name = Header::read_display_name(reader, spy_display_len)?;
        let sniper_display_name = Header::read_display_name(reader, sniper_display_len)?;
        Ok(
            Header {
                replay_version,
                protocol_version,
                spyparty_version,
                flags,
                duration_bits,
                game_id,
                start_time,
                play_id,
                spy_user_len,
                sniper_user_len,
                spy_display_len,
                sniper_display_len,
                result_data,
                latency_bits,
                data_size,
                spy_user_name,
                sniper_user_name,
                spy_display_name,
                sniper_display_name,
            },
        )
    }

    /// Skips the two unused bytes that follow the display-name lengths.
    pub fn skip_unused(reader: &mut Reader) -> (r: Result<(), Error>)
        ensures
            read_moves(*old(reader), *final(reader), 2),
            fits(old(reader).data@, old(reader).pos as int, 2) ==> r is Ok,
            !fits(old(reader).data@, old(reader).pos as int, 2) ==> (r matches Err(e) && e@
                == io(old(reader).pos as int, 2)),
    {
        match reader.advance(2) {
            Ok(_) => Ok(()),
            Err(e) => Err(Error::Io(e)),
        }
    }
}

/// The display names of a decoded header: only a version-5 header has
/// them, their lengths are the bytes at offsets 48 and 49, and a name of
/// non-zero length is the UTF-8 text of the bytes at its place, the last
/// fields of the header.
pub proof fn lemma_display_names_verbatim(s: Seq<u8>, p: int)
    requires
        0 <= p,
        header_block(s, p) is Ok,
    ensures
        ({
            let (h, end) = header_block(s, p)->Ok_0;
            let spy = h.spy_display_len as int;
            let sniper = h.sniper_display_len as int;
            &&& h.replay_version == 5 ==> spy == s[p + 48] && sniper == s[p + 49]
            &&& h.replay_version != 5 ==> spy == 0 && sniper == 0
            &&& spy == 0 <==> h.trailer.spy_display_name is None
            &&& sniper == 0 <==> h.trailer.sniper_display_name is None
            &&& spy > 0 ==> h.trailer.spy_display_name == Some(
                decode_utf8(s.subrange(end - sniper - spy, end - sniper)),
            )
            &&& sniper > 0 ==> h.trailer.sniper_display_name == Some(
                decode_utf8(s.subrange(end - sniper, end)),
            )
        }),
{
}

/// A version-3 header has no result flags word: its result version is 0
/// and its simple-rules flag is absent whatever the bytes hold, and the
/// word right after the username lengths is read as the game result.
pub proof fn lemma_version_3_result(s: Seq<u8>, p: int)
    requires
        0 <= p,
        header_block(s, p) is Ok,
        header_block(s, p)->Ok_0.0.replay_version == 3,
    ensures
        ({
            let h = header_block(s, p)->Ok_0.0;
            &&& h.result_data.version == 0
            &&& h.result_data.simple_rules is None
            &&& result_of_code(u32_at(s, p + 48)) == Some(h.result_data.game_result)
        }),
{
}

} // verus!
