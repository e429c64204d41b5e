//! The game mode: its packed word in a replay and its short text form.

use crate::error::{Error, Fail};
use crate::text::{chars_are, fold_name, folded};
use vstd::prelude::*;

verus! {

/// The game mode of a game.
#[derive(Debug, Clone, Copy, PartialEq, Eq, Hash, Structural)]
pub enum GameMode {
    /// The Known mode, with the missions required for completion.
    Known(u8),
    /// The Pick mode, with the required and total missions.
    Pick(u8, u16),
    /// The Any mode, with the required and total missions.
    Any(u8, u16),
}

/// The missions required to win in a mode.
pub open spec fn required_of(m: GameMode) -> u8 {
    match m {
        GameMode::Known(r) => r,
        GameMode::Pick(r, _) => r,
        GameMode::Any(r, _) => r,
    }
}

/// The mode stored in a game-mode word: the top byte is the variant tag
/// (0x00, 0x10 or 0x20), the low byte the required count, and bits 14 to 23
/// the total count.
pub open spec fn mode_of_word(w: u32) -> Option<GameMode> {
    let required = (w & 0xff) as u8;
    let total = ((w & 0x00fffc00) >> 14) as u16;
    let tag = w & 0xff000000;
    if tag == 0 {
        Some(GameMode::Known(required))
    } else if tag == 0x10000000 {
        Some(GameMode::Pick(required, total))
    } else if tag == 0x20000000 {
        Some(GameMode::Any(required, total))
    } else {
        None
    }
}

/// The word that stores a mode, laid out as [`mode_of_word`] reads it.
pub open spec fn word_of_mode(m: GameMode) -> u32 {
    match m {
        GameMode::Known(r) => r as u32,
        GameMode::Pick(r, t) => 0x10000000u32 | ((t as u32) << 14u32) | (r as u32),
        GameMode::Any(r, t) => 0x20000000u32 | ((t as u32) << 14u32) | (r as u32),
    }
}

/// Whether `c` is an ASCII digit.
pub open spec fn is_digit(c: char) -> bool {
    '0' <= c && c <= '9'
}

/// The value of an ASCII digit.
pub open spec fn digit_value(c: char) -> nat {
    ((c as u32) - ('0' as u32)) as nat
}

/// The digit character of `d < 10`.
pub open spec fn digit_char(d: nat) -> char {
    ((d + 48) as u32) as char
}

/// The mode a mode word names (`any`/`a`, `pick`/`p`, `known`/`k`), with
/// its two counts.
pub open spec fn mode_with(word: Seq<char>, required: u8, total: u16) -> Option<GameMode> {
    if word == "any"@ || word == "a"@ {
        Some(GameMode::Any(required, total))
    } else if word == "pick"@ || word == "p"@ {
        Some(GameMode::Pick(required, total))
    } else if word == "known"@ || word == "k"@ {
        Some(GameMode::Known(required))
    } else {
        None
    }
}

/// The mode that a folded text names: a mode word, a digit, `/` or `of`,
/// and a digit, as in `any4/8`, `p3/5` or `known4of4`.
pub open spec fn mode_named(t: Seq<char>) -> Option<GameMode> {
    let n = t.len();
    if n < 3 || !is_digit(t[n - 1]) {
        None
    } else {
        let head = if t[n - 2] == '/' {
            Some(t.subrange(0, n - 2))
        } else if n >= 4 && t[n - 3] == 'o' && t[n - 2] == 'f' {
            Some(t.subrange(0, n - 3))
        } else {
            None
        };
        match head {
            None => None,
            Some(h) => if h.len() < 2 || !is_digit(h.last()) {
                None
            } else {
                mode_with(
                    h.drop_last(),
                    digit_value(h.last()) as u8,
                    digit_value(t[n - 1]) as u16,
                )
            },
        }
    }
}

/// The decimal digits of `n`.
pub open spec fn decimal(n: nat) -> Seq<char>
    decreases n,
{
    if n < 10 {
        seq![digit_char(n)]
    } else {
        decimal(n / 10).push(digit_char(n % 10))
    }
}

/// The short text of a mode: `k4`, `p3/5` or `a4/8`.
pub open spec fn mode_text(m: GameMode) -> Seq<char> {
    match m {
        GameMode::Known(r) => "k"@ + decimal(r as nat),
        GameMode::Pick(r, t) => "p"@ + decimal(r as nat) + "/"@ + decimal(t as nat),
        GameMode::Any(r, t) => "a"@ + decimal(r as nat) + "/"@ + decimal(t as nat),
    }
}

/// The one-character text of a digit.
fn digit_text(d: u16) -> (r: &'static str)
    requires
        d < 10,
    ensures
        r@ == seq![digit_char(d as nat)],
{
    proof {
        reveal_strlit("0");
        reveal_strlit("1");
        reveal_strlit("2");
        reveal_strlit("3");
        reveal_strlit("4");
        reveal_strlit("5");
        reveal_strlit("6");
        reveal_strlit("7");
        reveal_strlit("8");
        reveal_strlit("9");
    }
    let r = match d {
        0 => "0",
        1 => "1",
        2 => "2",
        3 => "3",
        4 => "4",
        5 => "5",
        6 => "6",
        7 => "7",
        8 => "8",
        _ => "9",
    };
    proof {
        assert(r@ =~= seq![digit_char(d as nat)]);
    }
    r
}

/// The decimal digits of a number, without sign or leading zeros.
fn decimal_string(n: u16) -> (r: String)
    ensures
        r@ == decimal(n as nat),
    decreases n,
{
    if n < 10 {
        String::from_str(digit_text(n))
    } else {
        decimal_string(n / 10).concat(digit_text(n % 10))
    }
}

fn is_digit_char(c: char) -> (r: bool)
    ensures
        r == is_digit(c),
{
    '0' <= c && c <= '9'
}

fn digit_of(c: char) -> (r: u8)
    requires
        is_digit(c),
    ensures
        r as nat == digit_value(c),
        r < 10,
{
    (c as u32 - '0' as u32) as u8
}

impl Default for GameMode {
    fn default() -> (r: GameMode)
        ensures
            r == GameMode::Known(4),
    {
        GameMode::Known(4)
    }
}

impl GameMode {
    /// Decodes a game-mode word as it is stored in a replay.
    pub fn decode(mode: u32) -> (r: Result<GameMode, Error>)
        ensures
            match mode_of_word(mode) {
                Some(m) => r matches Ok(x) && x == m,
                None => r matches Err(e) && e@ == Fail::InvalidGameMode(mode),
            },
    {
        let required = (mode & 0xff) as u8;
        let total = ((mode & 0x00fffc00) >> 14) as u16;
        let tag = mode & 0xff000000;
        if tag == 0 {
            Ok(GameMode::Known(required))
        } else if tag == 0x10000000 {
            Ok(GameMode::Pick(required, total))
        } else if tag == 0x20000000 {
            Ok(GameMode::Any(required, total))
        } else {
            Err(Error::InvalidGameMode(mode))
        }
    }

    /// Parses a short or long mode text such as `Known 4 of 4`, `any 4/8`
    /// or `p3/5`, ignoring ASCII case and spaces.
    pub fn from_name(name: &str) -> (r: Result<GameMode, Error>)
        ensures
            match mode_named(folded(name@)) {
                Some(m) => r matches Ok(x) && x == m,
                None => r matches Err(e) && e@ == Fail::UnknownGameMode(name@),
            },
    {
        let t = fold_name(name);
        let n = t.len();
        if n < 3 || !is_digit_char(t[n - 1]) {
            return Err(Error::UnknownGameMode(String::from_str(name)));
        }
        let head_len: usize;
        if t[n - 2] == '/' {
            head_len = n - 2;
        } else if n >= 4 && t[n - 3] == 'o' && t[n - 2] == 'f' {
            head_len = n - 3;
        } else {
            return Err(Error::UnknownGameMode(String::from_str(name)));
        }
        if head_len < 2 || !is_digit_char(t[head_len - 1]) {
            return Err(Error::UnknownGameMode(String::from_str(name)));
        }
        let required = digit_of(t[head_len - 1]);
        let total = digit_of(t[n - 1]) as u16;
        let mut word: Vec<char> = Vec::new();
        let mut i: usize = 0;
        while i < head_len - 1
            invariant
                2 <= head_len <= n,
                n == t@.len(),
                i <= head_len - 1,
                word@ == t@.subrange(0, i as int),
            decreases head_len - 1 - i,
        {
            word.push(t[i]);
            i = i + 1;
            proof {
                assert(word@ =~= t@.subrange(0, i as int));
            }
        }
        proof {
            let h = t@.subrange(0, head_len as int);
            assert(h.drop_last() =~= word@);
            assert(h.last() == t@[head_len - 1]);
        }
        if chars_are(&word, "any") || chars_are(&word, "a") {
            Ok(GameMode::Any(required, total))
        } else if chars_are(&word, "pick") || chars_are(&word, "p") {
            Ok(GameMode::Pick(required, total))
        } else if chars_are(&word, "known") || chars_are(&word, "k") {
            Ok(GameMode::Known(required))
        } else {
            Err(Error::UnknownGameMode(String::from_str(name)))
        }
    }
}

impl GameMode {
    /// Whether this is the Any mode.
    pub fn is_any(&self) -> (r: bool)
        ensures
            r == (*self is Any),
    {
        match self {
            GameMode::Any(..) => true,
            _ => false,
        }
    }

    /// Whether this is the Pick mode.
    pub fn is_pick(&self) -> (r: bool)
        ensures
            r == (*self is Pick),
    {
        match self {
            GameMode::Pick(..) => true,
            _ => false,
        }
    }

    /// Whether this is the Known mode.
    pub fn is_known(&self) -> (r: bool)
        ensures
            r == (*self is Known),
    {
        match self {
            GameMode::Known(..) => true,
            _ => false,
        }
    }
}

/// Converts a game mode into its short text: `k4`, `p3/5` or `a4/8`.
pub fn mode_to_string(mode: &GameMode) -> (r: String)
    ensures
        r@ == mode_text(*mode),
{
    match mode {
        GameMode::Known(x) => String::from_str("k").concat(decimal_string(*x as u16).as_str()),
        GameMode::Pick(x, y) => String::from_str("p").concat(
            decimal_string(*x as u16).as_str(),
        ).concat("/").concat(decimal_string(*y).as_str()),
        GameMode::Any(x, y) => String::from_str("a").concat(
            decimal_string(*x as u16).as_str(),
        ).concat("/").concat(decimal_string(*y).as_str()),
    }
}

/// A mode written as its word decodes back to itself, whenever its total
/// fits the ten bits that the word keeps for it.
pub proof fn lemma_mode_word_round_trip(m: GameMode)
    requires
        m matches GameMode::Pick(_, t) ==> t < 1024,
        m matches GameMode::Any(_, t) ==> t < 1024,
    ensures
        mode_of_word(word_of_mode(m)) == Some(m),
{
    match m {
        GameMode::Known(r) => {
            let x = r as u32;
            assert(x < 256 ==> (x & 0xff) == x && (x & 0xff000000) == 0) by (bit_vector);
        },
        GameMode::Pick(r, t) => {
            let (x, y) = (r as u32, t as u32);
            assert(x < 256 && y < 1024 ==> {
                let w = 0x10000000u32 | (y << 14u32) | x;
                &&& (w & 0xff) == x
                &&& ((w & 0x00fffc00) >> 14) == y
                &&& (w & 0xff000000) == 0x10000000
            }) by (bit_vector);
        },
        GameMode::Any(r, t) => {
            let (x, y) = (r as u32, t as u32);
            assert(x < 256 && y < 1024 ==> {
                let w = 0x20000000u32 | (y << 14u32) | x;
                &&& (w & 0xff) == x
                &&& ((w & 0x00fffc00) >> 14) == y
                &&& (w & 0xff000000) == 0x20000000
            }) by (bit_vector);
        },
    }
}

/// Text without spaces or ASCII capitals is its own folding.
proof fn lemma_folded_plain(s: Seq<char>)
    requires
        forall|i: int| 0 <= i < s.len() ==> s[i] != ' ' && !('A' <= s[i] && s[i] <= 'Z'),
    ensures
        folded(s) == s,
    decreases s.len(),
{
    if s.len() > 0 {
        lemma_folded_plain(s.drop_last());
        assert(s.drop_last().push(s.last()) =~= s);
    }
}

/// The short text of a Pick or Any mode whose counts are single digits
/// parses back to that mode.
pub proof fn lemma_mode_text_round_trip(m: GameMode)
    requires
        !(m is Known),
        required_of(m) < 10,
        m matches GameMode::Pick(_, t) ==> t < 10,
        m matches GameMode::Any(_, t) ==> t < 10,
    ensures
        mode_named(folded(mode_text(m))) == Some(m),
{
    reveal_strlit("a");
    reveal_strlit("p");
    reveal_strlit("/");
    reveal_strlit("any");
    reveal_strlit("pick");
    reveal_strlit("known");
    reveal_strlit("k");
    let (tag, r, t) = match m {
        GameMode::Pick(r, t) => ('p', r, t),
        GameMode::Any(r, t) => ('a', r, t),
        GameMode::Known(r) => ('k', r, 0u16),
    };
    let dr = digit_char(r as nat);
    let dt = digit_char(t as nat);
    let text = mode_text(m);
    assert(decimal(r as nat) == seq![dr]);
    assert(decimal(t as nat) == seq![dt]);
    assert(text =~= seq![tag, dr, '/', dt]);
    lemma_folded_plain(text);
    assert(digit_value(dr) == r as nat);
    assert(digit_value(dt) == t as nat);
    let t4 = folded(text);
    assert(t4.len() == 4);
    assert(is_digit(dt));
    assert(t4[2] == '/');
    let h = t4.subrange(0, 2);
    assert(h.drop_last() =~= seq![tag]);
    assert(is_digit(h.last()));
    assert("a"@ =~= seq!['a']);
    assert("p"@ =~= seq!['p']);
    assert(mode_with(seq![tag], r, t) == Some(m));
}

} // verus!
