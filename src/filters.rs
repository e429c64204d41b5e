//! Replay filters: each tests a replay against one command-line value, or
//! against the presence of a flag.

use crate::game_mode::{mode_named, required_of, GameMode};
use crate::game_result::{result_named, GameResult};
use crate::header::HeaderView;
use crate::map::{map_named, GameMap};
use crate::mission::{mission_named, Mission};
use crate::replay::{sniper_is, sniper_won, spy_is, spy_won, Replay};
use crate::text::{ascii_lower, folded, lower_ascii};
use crate::utils::{has_player, has_sniper, has_spy, plays, steam_name};
use vstd::prelude::*;
use vstd::string::*;

verus! {

/// A filter that tests a replay against one value given to it.
pub trait ValueFilter {
    /// Whether the replay `h` passes for the value `arg`.
    spec fn accepts(arg: Seq<char>, h: HeaderView) -> bool;

    /// Tests the replay against one value.
    fn predicate(arg: &str, replay: &Replay) -> (r: bool)
        ensures
            r == Self::accepts(arg@, replay.header@),
    ;
}

/// Whether one of the values lets the replay pass.
pub open spec fn some_accepts<F: ValueFilter>(vs: Seq<String>, h: HeaderView) -> bool {
    exists|i: int| 0 <= i < vs.len() && F::accepts(#[trigger] vs[i]@, h)
}

/// Whether each of the values lets the replay pass.
pub open spec fn all_accept<F: ValueFilter>(vs: Seq<String>, h: HeaderView) -> bool {
    forall|i: int| 0 <= i < vs.len() ==> F::accepts(#[trigger] vs[i]@, h)
}

/// Whether some value lets the replay pass; with no values at all the
/// filter is not in use and every replay passes.
pub open spec fn passes_any<F: ValueFilter>(values: Option<Seq<String>>, h: HeaderView) -> bool {
    match values {
        None => true,
        Some(vs) => some_accepts::<F>(vs, h),
    }
}

/// Whether every value lets the replay pass; with no values at all the
/// filter is not in use and every replay passes.
pub open spec fn passes_all<F: ValueFilter>(values: Option<Seq<String>>, h: HeaderView) -> bool {
    match values {
        None => true,
        Some(vs) => all_accept::<F>(vs, h),
    }
}

/// The values of a filter as contracts see them.
pub open spec fn values_view(values: &Option<Vec<String>>) -> Option<Seq<String>> {
    match values {
        None => None,
        Some(vs) => Some(vs@),
    }
}

/// Applies a filter whose values are alternatives: one must match.
pub fn any_value<F: ValueFilter>(replay: &Replay, values: &Option<Vec<String>>) -> (r: bool)
    ensures
        r == passes_any::<F>(values_view(values), replay.header@),
{
    match values {
        None => true,
        Some(vs) => {
            let mut i: usize = 0;
            while i < vs.len()
                invariant
                    i <= vs@.len(),
                    values_view(values) == Some(vs@),
                    forall|j: int| 0 <= j < i ==> !F::accepts(#[trigger] vs@[j]@, replay.header@),
                decreases vs@.len() - i,
            {
                if F::predicate(vs[i].as_str(), replay) {
                    let ghost k = i as int;
                    assert(F::accepts(vs@[k]@, replay.header@));
                    return true;
                }
                i = i + 1;
            }
            assert(values_view(values) == Some(vs@));
            false
        },
    }
}

/// Applies a filter whose values must all match.
pub fn all_values<F: ValueFilter>(replay: &Replay, values: &Option<Vec<String>>) -> (r: bool)
    ensures
        r == passes_all::<F>(values_view(values), replay.header@),
{
    match values {
        None => true,
        Some(vs) => {
            let mut i: usize = 0;
            while i < vs.len()
                invariant
                    i <= vs@.len(),
                    values_view(values) == Some(vs@),
                    forall|j: int| 0 <= j < i ==> F::accepts(#[trigger] vs@[j]@, replay.header@),
                decreases vs@.len() - i,
            {
                if !F::predicate(vs[i].as_str(), replay) {
                    let ghost k = i as int;
                    assert(!F::accepts(vs@[k]@, replay.header@));
                    return false;
                }
                i = i + 1;
            }
            assert(values_view(values) == Some(vs@));
            true
        },
    }
}

/// Whether `v` holds `m`.
pub fn contains_mission(v: &Vec<Mission>, m: Mission) -> (r: bool)
    ensures
        r == v@.contains(m),
{
    let mut i: usize = 0;
    while i < v.len()
        invariant
            i <= v@.len(),
            forall|j: int| 0 <= j < i ==> v@[j] != m,
        decreases v@.len() - i,
    {
        if v[i] == m {
            assert(v@[i as int] == m);
            return true;
        }
        i = i + 1;
    }
    false
}

/// Whether the completed missions hold the mission that `arg` names.
pub open spec fn completed_named(arg: Seq<char>, h: HeaderView) -> bool {
    match mission_named(folded(arg)) {
        Some(m) => h.result_data.completed_missions.contains(m),
        None => false,
    }
}

fn completed_predicate(arg: &str, replay: &Replay) -> (r: bool)
    ensures
        r == completed_named(arg@, replay.header@),
{
    match Mission::from_name(arg) {
        Ok(m) => contains_mission(&replay.header.result_data.completed_missions, m),
        Err(_) => false,
    }
}

/// Filters replays in which any of the given missions was completed.
pub struct CompletedMissions {}

impl ValueFilter for CompletedMissions {
    open spec fn accepts(arg: Seq<char>, h: HeaderView) -> bool {
        completed_named(arg, h)
    }

    fn predicate(arg: &str, replay: &Replay) -> (r: bool) {
        completed_predicate(arg, replay)
    }
}

impl CompletedMissions {
    /// Whether a value names a mission; the mission filters match nothing
    /// for any other value.
    pub fn valid_value(arg: &str) -> (r: bool)
        ensures
            r == mission_named(folded(arg@)) is Some,
    {
        Mission::from_name(arg).is_ok()
    }

    /// Passes replays in which one of the named missions was completed.
    pub fn filter(&self, replay: &Replay, values: &Option<Vec<String>>) -> (r: bool)
        ensures
            r == passes_any::<CompletedMissions>(values_view(values), replay.header@),
    {
        any_value::<CompletedMissions>(replay, values)
    }
}

/// Filters replays in which all of the given missions were completed.
pub struct CompletedMissionsAll {}

impl ValueFilter for CompletedMissionsAll {
    open spec fn accepts(arg: Seq<char>, h: HeaderView) -> bool {
        completed_named(arg, h)
    }

    fn predicate(arg: &str, replay: &Replay) -> (r: bool) {
        completed_predicate(arg, replay)
    }
}

impl CompletedMissionsAll {
    /// Passes replays in which every named mission was completed.
    pub fn filter(&self, replay: &Replay, values: &Option<Vec<String>>) -> (r: bool)
        ensures
            r == passes_all::<CompletedMissionsAll>(values_view(values), replay.header@),
    {
        all_values::<CompletedMissionsAll>(replay, values)
    }
}

/// Filters replays that ended with exactly the required number of missions
/// completed (a mission win countdown).
pub struct Countdown {}

/// Whether as many missions were completed as the mode requires.
pub open spec fn at_countdown(h: HeaderView) -> bool {
    required_of(h.result_data.game_mode) as int == h.result_data.completed_missions.len()
}

impl Countdown {
    /// Tests one replay.
    pub fn predicate(replay: &Replay) -> (r: bool)
        ensures
            r == at_countdown(replay.header@),
    {
        let required = match replay.header.result_data.game_mode {
            GameMode::Any(required, _) => required,
            GameMode::Pick(required, _) => required,
            GameMode::Known(required) => required,
        };
        required as usize == replay.header.result_data.completed_missions.len()
    }

    /// Passes every replay when the flag is absent, else those at countdown.
    pub fn filter(&self, replay: &Replay, present: bool) -> (r: bool)
        ensures
            r == (!present || at_countdown(replay.header@)),
    {
        !present || Countdown::predicate(replay)
    }
}

/// The mode a filter value asks for: a bare mode word (`any`/`a`,
/// `pick`/`p`, `known`/`k`, exactly) matches the mode whatever its counts;
/// anything else must parse as a full mode and match it exactly.
pub open spec fn mode_accepts(arg: Seq<char>, m: GameMode) -> bool {
    if arg == "any"@ || arg == "a"@ {
        m is Any
    } else if arg == "pick"@ || arg == "p"@ {
        m is Pick
    } else if arg == "known"@ || arg == "k"@ {
        m is Known
    } else {
        match mode_named(folded(arg)) {
            Some(x) => m == x,
            None => false,
        }
    }
}

/// Filters replays of given game modes.
pub struct GameModes {}

impl ValueFilter for GameModes {
    open spec fn accepts(arg: Seq<char>, h: HeaderView) -> bool {
        mode_accepts(arg, h.result_data.game_mode)
    }

    fn predicate(arg: &str, replay: &Replay) -> (r: bool) {
        let mode = replay.header.result_data.game_mode;
        if same(arg, "any") || same(arg, "a") {
            mode.is_any()
        } else if same(arg, "pick") || same(arg, "p") {
            mode.is_pick()
        } else if same(arg, "known") || same(arg, "k") {
            mode.is_known()
        } else {
            match GameMode::from_name(arg) {
                Ok(m) => mode == m,
                Err(_) => false,
            }
        }
    }
}

impl GameModes {
    /// Whether a value is a mode word or a full mode; the mode filter
    /// matches nothing for any other value.
    pub fn valid_value(arg: &str) -> (r: bool)
        ensures
            r == (arg@ == "any"@ || arg@ == "a"@ || arg@ == "pick"@ || arg@ == "p"@ || arg@
                == "known"@ || arg@ == "k"@ || mode_named(folded(arg@)) is Some),
    {
        same(arg, "any") || same(arg, "a") || same(arg, "pick") || same(arg, "p") || same(
            arg,
            "known",
        ) || same(arg, "k") || GameMode::from_name(arg).is_ok()
    }

    /// Passes replays of one of the given modes.
    pub fn filter(&self, replay: &Replay, values: &Option<Vec<String>>) -> (r: bool)
        ensures
            r == passes_any::<GameModes>(values_view(values), replay.header@),
    {
        any_value::<GameModes>(replay, values)
    }
}

fn same(a: &str, b: &str) -> (r: bool)
    ensures
        r == (a@ == b@),
{
    crate::replay::same_text(a, b)
}

/// The ASCII lowercase of a text, spaces kept.
pub open spec fn ascii_lowered(s: Seq<char>) -> Seq<char> {
    s.map_values(|c: char| ascii_lower(c))
}

/// Whether the ASCII lowercase of `arg` is `unknown`.
pub open spec fn names_unknown(arg: Seq<char>) -> bool {
    ascii_lowered(arg) == "unknown"@
}

fn is_unknown_word(arg: &str) -> (r: bool)
    ensures
        r == names_unknown(arg@),
{
    let lit = "unknown";
    let n = arg.unicode_len();
    let ghost lowered = ascii_lowered(arg@);
    if n != lit.unicode_len() {
        return false;
    }
    let mut i: usize = 0;
    while i < n
        invariant
            i <= n,
            n == arg@.len(),
            n == lit@.len(),
            lit@ == "unknown"@,
            lowered == ascii_lowered(arg@),
            forall|j: int| 0 <= j < i ==> lowered[j] == lit@[j],
        decreases n - i,
    {
        if lower_ascii(arg.get_char(i)) != lit.get_char(i) {
            assert(lowered[i as int] != lit@[i as int]);
            assert(lowered != lit@);
            return false;
        }
        i = i + 1;
    }
    proof {
        assert(lowered =~= lit@);
    }
    true
}

/// The map a filter value asks for: a map name, or `unknown` for any map
/// outside the table.
pub open spec fn map_accepts(arg: Seq<char>, m: GameMap) -> bool {
    match map_named(folded(arg)) {
        Some(x) => m == x,
        None => names_unknown(arg) && m is Unknown,
    }
}

/// Filters replays played on given maps.
pub struct Maps {}

impl ValueFilter for Maps {
    open spec fn accepts(arg: Seq<char>, h: HeaderView) -> bool {
        map_accepts(arg, h.result_data.map)
    }

    fn predicate(arg: &str, replay: &Replay) -> (r: bool) {
        let map = replay.header.result_data.map;
        match GameMap::from_name(arg) {
            Ok(m) => map == m,
            Err(_) => is_unknown_word(arg) && map.is_unknown(),
        }
    }
}

impl Maps {
    /// Whether a value is a map name or `unknown`; the map filter matches
    /// nothing for any other value.
    pub fn valid_value(arg: &str) -> (r: bool)
        ensures
            r == (map_named(folded(arg@)) is Some || names_unknown(arg@)),
    {
        GameMap::from_name(arg).is_ok() || is_unknown_word(arg)
    }

    /// Passes replays played on one of the given maps.
    pub fn filter(&self, replay: &Replay, values: &Option<Vec<String>>) -> (r: bool)
        ensures
            r == passes_any::<Maps>(values_view(values), replay.header@),
    {
        any_value::<Maps>(replay, values)
    }
}

/// Filters replays that have both players of a pair.
pub struct Pair {}

impl ValueFilter for Pair {
    open spec fn accepts(arg: Seq<char>, h: HeaderView) -> bool {
        plays(h, arg) || plays(h, steam_name(arg))
    }

    fn predicate(arg: &str, replay: &Replay) -> (r: bool) {
        has_player(replay, arg)
    }
}

impl Pair {
    /// Passes replays in which every given player plays.
    pub fn filter(&self, replay: &Replay, values: &Option<Vec<String>>) -> (r: bool)
        ensures
            r == passes_all::<Pair>(values_view(values), replay.header@),
    {
        all_values::<Pair>(replay, values)
    }
}

/// Filters replays that have one of given players, on either side.
pub struct Players {}

impl ValueFilter for Players {
    open spec fn accepts(arg: Seq<char>, h: HeaderView) -> bool {
        plays(h, arg) || plays(h, steam_name(arg))
    }

    fn predicate(arg: &str, replay: &Replay) -> (r: bool) {
        has_player(replay, arg)
    }
}

impl Players {
    /// Passes replays in which one of the given players plays.
    pub fn filter(&self, replay: &Replay, values: &Option<Vec<String>>) -> (r: bool)
        ensures
            r == passes_any::<Players>(values_view(values), replay.header@),
    {
        any_value::<Players>(replay, values)
    }
}

/// Filters replays that ended in given results.
pub struct Results {}

impl ValueFilter for Results {
    open spec fn accepts(arg: Seq<char>, h: HeaderView) -> bool {
        match result_named(folded(arg)) {
            Some(g) => h.result_data.game_result == g,
            None => false,
        }
    }

    fn predicate(arg: &str, replay: &Replay) -> (r: bool) {
        match GameResult::from_name(arg) {
            Ok(g) => replay.header.result_data.game_result == g,
            Err(_) => false,
        }
    }
}

impl Results {
    /// Passes replays that ended in one of the given results.
    pub fn filter(&self, replay: &Replay, values: &Option<Vec<String>>) -> (r: bool)
        ensures
            r == passes_any::<Results>(values_view(values), replay.header@),
    {
        any_value::<Results>(replay, values)
    }
}

/// Filters replays that have one of given snipers.
pub struct Snipers {}

impl ValueFilter for Snipers {
    open spec fn accepts(arg: Seq<char>, h: HeaderView) -> bool {
        sniper_is(h, arg) || sniper_is(h, steam_name(arg))
    }

    fn predicate(arg: &str, replay: &Replay) -> (r: bool) {
        has_sniper(replay, arg)
    }
}

impl Snipers {
    /// Passes replays whose sniper is one of the given players.
    pub fn filter(&self, replay: &Replay, values: &Option<Vec<String>>) -> (r: bool)
        ensures
            r == passes_any::<Snipers>(values_view(values), replay.header@),
    {
        any_value::<Snipers>(replay, values)
    }
}

/// Filters replays that have one of given spies.
pub struct Spies {}

impl ValueFilter for Spies {
    open spec fn accepts(arg: Seq<char>, h: HeaderView) -> bool {
        spy_is(h, arg) || spy_is(h, steam_name(arg))
    }

    fn predicate(arg: &str, replay: &Replay) -> (r: bool) {
        has_spy(replay, arg)
    }
}

impl Spies {
    /// Passes replays whose spy is one of the given players.
    pub fn filter(&self, replay: &Replay, values: &Option<Vec<String>>) -> (r: bool)
        ensures
            r == passes_any::<Spies>(values_view(values), replay.header@),
    {
        any_value::<Spies>(replay, values)
    }
}

/// Filters replays that ended in a sniper win.
pub struct SniperWin {}

impl SniperWin {
    /// Tests one replay.
    pub fn predicate(replay: &Replay) -> (r: bool)
        ensures
            r == sniper_won(replay.header@),
    {
        replay.is_sniper_win()
    }

    /// Passes every replay when the flag is absent, else sniper wins.
    pub fn filter(&self, replay: &Replay, present: bool) -> (r: bool)
        ensures
            r == (!present || sniper_won(replay.header@)),
    {
        !present || SniperWin::predicate(replay)
    }
}

/// Filters replays that ended in a spy win.
pub struct SpyWin {}

impl SpyWin {
    /// Tests one replay.
    pub fn predicate(replay: &Replay) -> (r: bool)
        ensures
            r == spy_won(replay.header@),
    {
        replay.is_spy_win()
    }

    /// Passes every replay when the flag is absent, else spy wins.
    pub fn filter(&self, replay: &Replay, present: bool) -> (r: bool)
        ensures
            r == (!present || spy_won(replay.header@)),
    {
        !present || SpyWin::predicate(replay)
    }
}

} // verus!
