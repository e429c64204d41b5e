//! The maps, keyed by the hash that a replay stores.

use crate::error::{Error, Fail};
use crate::text::{chars_are, fold_name, folded};
use vstd::prelude::*;

verus! {

/// The maps of SpyParty; a hash outside the table is kept as `Unknown`.
#[derive(Debug, Clone, Copy, PartialEq, Eq, Hash, Structural)]
pub enum GameMap {
    Balcony,
    Ballroom,
    Courtyard,
    Gallery,
    HighRise,
    Library,
    Moderne,
    Pub,
    Terrace,
    Veranda,
    Unknown(u32),
}

/// The map that a stored hash stands for.
pub open spec fn map_of_hash(h: u32) -> GameMap {
    if h == 0x1dbd8e41 {
        GameMap::Balcony
    } else if h == 0x5b121925 {
        GameMap::Ballroom
    } else if h == 0x9dc5bb5e {
        GameMap::Courtyard
    } else if h == 0x7173b8bf {
        GameMap::Gallery
    } else if h == 0x1a56c5a1 {
        GameMap::HighRise
    } else if h == 0x168f4f62 {
        GameMap::Library
    } else if h == 0x2e37f15b {
        GameMap::Moderne
    } else if h == 0x3b85fff3 {
        GameMap::Pub
    } else if h == 0x9032ce22 {
        GameMap::Terrace
    } else if h == 0x6f81a558 {
        GameMap::Veranda
    } else {
        GameMap::Unknown(h)
    }
}

/// The hash that a replay stores for a map; an unknown map keeps its own.
pub open spec fn hash_of_map(m: GameMap) -> u32 {
    match m {
        GameMap::Balcony => 0x1dbd8e41,
        GameMap::Ballroom => 0x5b121925,
        GameMap::Courtyard => 0x9dc5bb5e,
        GameMap::Gallery => 0x7173b8bf,
        GameMap::HighRise => 0x1a56c5a1,
        GameMap::Library => 0x168f4f62,
        GameMap::Moderne => 0x2e37f15b,
        GameMap::Pub => 0x3b85fff3,
        GameMap::Terrace => 0x9032ce22,
        GameMap::Veranda => 0x6f81a558,
        GameMap::Unknown(h) => h,
    }
}

/// The map that a folded name stands for.
pub open spec fn map_named(t: Seq<char>) -> Option<GameMap> {
    if t == "balcony"@ {
        Some(GameMap::Balcony)
    } else if t == "ballroom"@ {
        Some(GameMap::Ballroom)
    } else if t == "courtyard"@ {
        Some(GameMap::Courtyard)
    } else if t == "gallery"@ {
        Some(GameMap::Gallery)
    } else if t == "highrise"@ || t == "high-rise"@ {
        Some(GameMap::HighRise)
    } else if t == "library"@ {
        Some(GameMap::Library)
    } else if t == "moderne"@ {
        Some(GameMap::Moderne)
    } else if t == "pub"@ {
        Some(GameMap::Pub)
    } else if t == "terrace"@ {
        Some(GameMap::Terrace)
    } else if t == "veranda"@ {
        Some(GameMap::Veranda)
    } else {
        None
    }
}

/// The name of a map, as it is shown.
pub open spec fn map_title(m: GameMap) -> Seq<char> {
    match m {
        GameMap::Balcony => "Balcony"@,
        GameMap::Ballroom => "Ballroom"@,
        GameMap::Courtyard => "Courtyard"@,
        GameMap::Gallery => "Gallery"@,
        GameMap::HighRise => "High-Rise"@,
        GameMap::Library => "Library"@,
        GameMap::Moderne => "Moderne"@,
        GameMap::Pub => "Pub"@,
        GameMap::Terrace => "Terrace"@,
        GameMap::Veranda => "Veranda"@,
        GameMap::Unknown(_) => "Unknown"@,
    }
}

impl Default for GameMap {
    fn default() -> (r: GameMap)
        ensures
            r == GameMap::Unknown(0),
    {
        GameMap::Unknown(0)
    }
}

impl GameMap {
    /// Looks a stored hash up in the map table; this never fails.
    pub fn from_hash(hash: u32) -> (r: GameMap)
        ensures
            r == map_of_hash(hash),
    {
        match hash {
            0x1dbd8e41 => GameMap::Balcony,
            0x5b121925 => GameMap::Ballroom,
            0x9dc5bb5e => GameMap::Courtyard,
            0x7173b8bf => GameMap::Gallery,
            0x1a56c5a1 => GameMap::HighRise,
            0x168f4f62 => GameMap::Library,
            0x2e37f15b => GameMap::Moderne,
            0x3b85fff3 => GameMap::Pub,
            0x9032ce22 => GameMap::Terrace,
            0x6f81a558 => GameMap::Veranda,
            _ => GameMap::Unknown(hash),
        }
    }

    /// Parses a map name, ignoring ASCII case and spaces.
    pub fn from_name(name: &str) -> (r: Result<GameMap, Error>)
        ensures
            match map_named(folded(name@)) {
                Some(m) => r matches Ok(x) && x == m,
                None => r matches Err(e) && e@ == Fail::UnknownMap(name@),
            },
    {
        let t = fold_name(name);
        if chars_are(&t, "balcony") {
            Ok(GameMap::Balcony)
        } else if chars_are(&t, "ballroom") {
            Ok(GameMap::Ballroom)
        } else if chars_are(&t, "courtyard") {
            Ok(GameMap::Courtyard)
        } else if chars_are(&t, "gallery") {
            Ok(GameMap::Gallery)
        } else if chars_are(&t, "highrise") || chars_are(&t, "high-rise") {
            Ok(GameMap::HighRise)
        } else if chars_are(&t, "library") {
            Ok(GameMap::Library)
        } else if chars_are(&t, "moderne") {
            Ok(GameMap::Moderne)
        } else if chars_are(&t, "pub") {
            Ok(GameMap::Pub)
        } else if chars_are(&t, "terrace") {
            Ok(GameMap::Terrace)
        } else if chars_are(&t, "veranda") {
            Ok(GameMap::Veranda)
        } else {
            Err(Error::UnknownMap(String::from_str(name)))
        }
    }

    /// The name of the map, as it is shown ("Unknown" for a hash outside
    /// the table).
    pub fn display_name(&self) -> (r: &'static str)
        ensures
            r@ == map_title(*self),
    {
        match self {
            GameMap::Balcony => "Balcony",
            GameMap::Ballroom => "Ballroom",
            GameMap::Courtyard => "Courtyard",
            GameMap::Gallery => "Gallery",
            GameMap::HighRise => "High-Rise",
            GameMap::Library => "Library",
            GameMap::Moderne => "Moderne",
            GameMap::Pub => "Pub",
            GameMap::Terrace => "Terrace",
            GameMap::Veranda => "Veranda",
            GameMap::Unknown(_) => "Unknown",
        }
    }
}

impl GameMap {
    /// Whether the map is outside the table.
    pub fn is_unknown(&self) -> (r: bool)
        ensures
            r == (*self is Unknown),
    {
        match self {
            GameMap::Unknown(_) => true,
            _ => false,
        }
    }
}

/// Every hash decodes to a map: one in the table gives its map, which
/// stores that hash again; any other gives `Unknown` carrying the hash.
pub proof fn lemma_map_hash_total(h: u32)
    ensures
        hash_of_map(map_of_hash(h)) == h,
        map_of_hash(h) is Unknown ==> map_of_hash(h) == GameMap::Unknown(h),
{
}

/// Each known map's hash decodes back to that map.
pub proof fn lemma_known_map_round_trip(m: GameMap)
    requires
        !(m is Unknown),
    ensures
        map_of_hash(hash_of_map(m)) == m,
{
}

} // verus!
