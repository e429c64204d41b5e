//! Tallies over matched replays: maps, modes, results, missions, completed
//! mission sets, and wins and losses per player.

use crate::game_mode::{required_of, GameMode};
use crate::game_result::GameResult;
use crate::header::HeaderView;
use crate::map::{map_title, GameMap};
use crate::mission::{full_name, mission_at_bit, mission_for_bit, Mission};
use crate::filters::contains_mission;
use crate::replay::{
    same_text, shown_sniper, shown_spy, sniper_is, sniper_won, spy_is, spy_won, Replay,
};
use std::collections::HashMap;
use crate::utils::{has_sniper, has_spy, steam_name};
use vstd::prelude::*;

verus! {

/// Counts per name, in the order the names were first counted.
pub struct NameTally {
    pub entries: Vec<(String, u32)>,
}

/// The names of a tally are distinct.
pub open spec fn names_distinct(e: Seq<(String, u32)>) -> bool {
    forall|i: int, j: int| 0 <= i < j < e.len() ==> e[i].0@ != e[j].0@
}

/// Every count of a tally is at most `bound`.
pub open spec fn counts_within(e: Seq<(String, u32)>, bound: u32) -> bool {
    forall|i: int| 0 <= i < e.len() ==> e[i].1 <= bound
}

/// The count of `name` in a tally: that of its entry, or 0 without one.
pub open spec fn count_in(e: Seq<(String, u32)>, name: Seq<char>) -> nat
    decreases e.len(),
{
    if e.len() == 0 {
        0
    } else if e.last().0@ == name {
        e.last().1 as nat
    } else {
        count_in(e.drop_last(), name)
    }
}

impl NameTally {
    /// An empty tally.
    pub fn new() -> (r: NameTally)
        ensures
            r.entries@.len() == 0,
    {
        NameTally { entries: Vec::new() }
    }
}

/// In a tally with distinct names, the count of an entry's name is that
/// entry's count.
proof fn lemma_count_at(e: Seq<(String, u32)>, i: int)
    requires
        names_distinct(e),
        0 <= i < e.len(),
    ensures
        count_in(e, e[i].0@) == e[i].1,
    decreases e.len(),
{
    if i < e.len() - 1 {
        assert(e.drop_last()[i] == e[i]);
        lemma_count_at(e.drop_last(), i);
    }
}

/// A name without an entry counts 0.
proof fn lemma_count_absent(e: Seq<(String, u32)>, name: Seq<char>)
    requires
        forall|i: int| 0 <= i < e.len() ==> e[i].0@ != name,
    ensures
        count_in(e, name) == 0,
    decreases e.len(),
{
    if e.len() > 0 {
        lemma_count_absent(e.drop_last(), name);
    }
}

/// Changing one entry's count leaves the count of every other name.
proof fn lemma_count_other(e: Seq<(String, u32)>, f: Seq<(String, u32)>, name: Seq<char>)
    requires
        e.len() == f.len(),
        forall|i: int| 0 <= i < e.len() ==> f[i].0 == e[i].0,
        forall|i: int| 0 <= i < e.len() && e[i].0@ != name ==> f[i] == e[i],
    ensures
        forall|k: Seq<char>| k != name ==> count_in(f, k) == count_in(e, k),
    decreases e.len(),
{
    if e.len() > 0 {
        let e0 = e.drop_last();
        let f0 = f.drop_last();
        assert forall|i: int| 0 <= i < e0.len() implies f0[i].0 == e0[i].0 by {
            assert(f0[i] == f[i] && e0[i] == e[i]);
        }
        assert forall|i: int| 0 <= i < e0.len() && e0[i].0@ != name implies f0[i] == e0[i] by {
            assert(f0[i] == f[i] && e0[i] == e[i]);
        }
        lemma_count_other(e0, f0, name);
        let n = e.len() - 1;
        assert(f[n].0 == e[n].0);
        assert(f.last() == f[n] && e.last() == e[n]);
        assert forall|k: Seq<char>| k != name implies count_in(f, k) == count_in(e, k) by {
            if e[n].0@ == k {
                assert(f[n] == e[n]);
            } else {
                assert(count_in(f, k) == count_in(f0, k));
                assert(count_in(e, k) == count_in(e0, k));
            }
        }
    }
}

/// Adds one to the count of `name`, giving it an entry if it has none.
pub fn increment(stats: &mut NameTally, name: &str)
    requires
        names_distinct(old(stats).entries@),
        counts_within(old(stats).entries@, (u32::MAX - 1) as u32),
    ensures
        names_distinct(final(stats).entries@),
        count_in(final(stats).entries@, name@) == count_in(old(stats).entries@, name@) + 1,
        forall|k: Seq<char>| k != name@ ==> count_in(final(stats).entries@, k) == count_in(
            old(stats).entries@,
            k,
        ),
        forall|b: u32| counts_within(old(stats).entries@, b) && b < u32::MAX ==> counts_within(
            final(stats).entries@,
            (b + 1) as u32,
        ),
{
    let ghost before = stats.entries@;
    let mut i: usize = 0;
    while i < stats.entries.len()
        invariant
            stats.entries@ == before,
            before == old(stats).entries@,
            names_distinct(before),
            counts_within(before, (u32::MAX - 1) as u32),
            i <= before.len(),
            forall|j: int| 0 <= j < i ==> before[j].0@ != name@,
        decreases before.len() - i,
    {
        if same_text(stats.entries[i].0.as_str(), name) {
            let (key, count) = stats.entries.remove(i);
            stats.entries.insert(i, (key, count + 1));
            proof {
                let after = stats.entries@;
                assert(after =~= before.update(i as int, (key, (count + 1) as u32)));
                assert(before[i as int].0@ == name@);
                lemma_count_at(before, i as int);
                assert(names_distinct(after)) by {
                    assert forall|a: int, b: int| 0 <= a < b < after.len() implies after[a].0@
                        != after[b].0@ by {
                        assert(after[a].0 == before[a].0);
                        assert(after[b].0 == before[b].0);
                    }
                }
                lemma_count_at(after, i as int);
                lemma_count_other(before, after, name@);
            }
            return;
        }
        i = i + 1;
    }
    stats.entries.push((String::from_str(name), 1));
    proof {
        let after = stats.entries@;
        lemma_count_absent(before, name@);
        assert(after.drop_last() =~= before);
        assert forall|k: Seq<char>| k != name@ implies count_in(after, k) == count_in(before, k) by {
        }
    }
}

/// The name under which a result is tallied.
pub open spec fn result_label(g: GameResult) -> Seq<char> {
    match g {
        GameResult::MissionsWin => "Missions Win"@,
        GameResult::SpyShot => "Spy Shot"@,
        GameResult::SpyTimeout => "Spy Timeout"@,
        GameResult::CivilianShot => "Civilian Shot"@,
        GameResult::InProgress => "Unfinished"@,
    }
}

/// The name under which a mode is tallied.
pub open spec fn mode_label(m: GameMode) -> Seq<char> {
    match m {
        GameMode::Any(..) => "Any"@,
        GameMode::Pick(..) => "Pick"@,
        GameMode::Known(..) => "Known"@,
    }
}

/// What one counted name leaves of a tally: that name one more, every
/// other name as it was.
pub open spec fn counted_once(
    after: Seq<(String, u32)>,
    before: Seq<(String, u32)>,
    name: Seq<char>,
) -> bool {
    &&& count_in(after, name) == count_in(before, name) + 1
    &&& forall|k: Seq<char>| k != name ==> count_in(after, k) == count_in(before, k)
}

/// A tally whose counts stay within a running total.
pub open spec fn tally_within(t: NameTally, total: u32) -> bool {
    names_distinct(t.entries@) && counts_within(t.entries@, total)
}

/// How many times each known map was played.
pub struct MapStatCollection {
    /// The replays aggregated, on any map.
    pub total: u32,
    /// Replays per map name; maps outside the table are not named.
    pub stats: NameTally,
}

impl MapStatCollection {
    /// An empty collection.
    pub fn new() -> (r: MapStatCollection)
        ensures
            r.total == 0,
            r.stats.entries@.len() == 0,
            tally_within(r.stats, r.total),
    {
        MapStatCollection { total: 0, stats: NameTally::new() }
    }

    /// Counts the map of one replay.
    pub fn aggregate(&mut self, replay: &Replay)
        requires
            tally_within(old(self).stats, old(self).total),
            old(self).total < u32::MAX,
        ensures
            tally_within(final(self).stats, final(self).total),
            final(self).total == old(self).total + 1,
            replay.header@.result_data.map is Unknown ==> final(self).stats == old(self).stats,
            !(replay.header@.result_data.map is Unknown) ==> counted_once(
                final(self).stats.entries@,
                old(self).stats.entries@,
                map_title(replay.header@.result_data.map),
            ),
    {
        let map = replay.header.result_data.map;
        if !map.is_unknown() {
            increment(&mut self.stats, map.display_name());
        }
        self.total = self.total + 1;
    }
}

/// How many times each game mode was played.
pub struct ModeStatCollection {
    /// The replays aggregated.
    pub total: u32,
    /// Replays per mode name (`Any`, `Pick`, `Known`).
    pub stats: NameTally,
}

impl ModeStatCollection {
    /// An empty collection.
    pub fn new() -> (r: ModeStatCollection)
        ensures
            r.total == 0,
            r.stats.entries@.len() == 0,
            tally_within(r.stats, r.total),
    {
        ModeStatCollection { total: 0, stats: NameTally::new() }
    }

    /// Counts the mode of one replay.
    pub fn aggregate(&mut self, replay: &Replay)
        requires
            tally_within(old(self).stats, old(self).total),
            old(self).total < u32::MAX,
        ensures
            tally_within(final(self).stats, final(self).total),
            final(self).total == old(self).total + 1,
            counted_once(
                final(self).stats.entries@,
                old(self).stats.entries@,
                mode_label(replay.header@.result_data.game_mode),
            ),
    {
        let name = match replay.header.result_data.game_mode {
            GameMode::Any(..) => "Any",
            GameMode::Pick(..) => "Pick",
            GameMode::Known(..) => "Known",
        };
        increment(&mut self.stats, name);
        self.total = self.total + 1;
    }
}

/// How many times each game ended in each result.
pub struct ResultStatCollection {
    /// The replays aggregated.
    pub total: u32,
    /// Replays per result name.
    pub stats: NameTally,
}

impl ResultStatCollection {
    /// An empty collection.
    pub fn new() -> (r: ResultStatCollection)
        ensures
            r.total == 0,
            r.stats.entries@.len() == 0,
            tally_within(r.stats, r.total),
    {
        ResultStatCollection { total: 0, stats: NameTally::new() }
    }

    /// Counts the result of one replay.
    pub fn aggregate(&mut self, replay: &Replay)
        requires
            tally_within(old(self).stats, old(self).total),
            old(self).total < u32::MAX,
        ensures
            tally_within(final(self).stats, final(self).total),
            final(self).total == old(self).total + 1,
            counted_once(
                final(self).stats.entries@,
                old(self).stats.entries@,
                result_label(replay.header@.result_data.game_result),
            ),
    {
        let name = match replay.header.result_data.game_result {
            GameResult::MissionsWin => "Missions Win",
            GameResult::SpyShot => "Spy Shot",
            GameResult::SpyTimeout => "Spy Timeout",
            GameResult::CivilianShot => "Civilian Shot",
            GameResult::InProgress => "Unfinished",
        };
        increment(&mut self.stats, name);
        self.total = self.total + 1;
    }
}

/// Whether the completed missions of a game are exactly as many as its
/// mode requires.
pub open spec fn completes_mode(h: HeaderView) -> bool {
    required_of(h.result_data.game_mode) as int == h.result_data.completed_missions.len()
}

/// How many times each exact set of completed missions won a game by
/// missions.
pub struct MissionSetStatCollection {
    /// The games counted: those that completed their required missions.
    pub total: u32,
    /// Games per completed-missions bitfield.
    pub stats: HashMap<u32, u32>,
}

/// The count kept for a bitfield, 0 without one.
pub open spec fn set_count(m: Map<u32, u32>, raw: u32) -> nat {
    if m.contains_key(raw) {
        m[raw] as nat
    } else {
        0
    }
}

/// Every count of a bitfield tally is at most `bound`.
pub open spec fn set_counts_within(m: Map<u32, u32>, bound: u32) -> bool {
    forall|k: u32| m.contains_key(k) ==> m[k] <= bound
}

impl MissionSetStatCollection {
    /// An empty collection.
    pub fn new() -> (r: MissionSetStatCollection)
        ensures
            r.total == 0,
            r.stats@ == Map::<u32, u32>::empty(),
    {
        MissionSetStatCollection { total: 0, stats: HashMap::new() }
    }

    /// Counts the completed missions of one replay, when they are exactly
    /// as many as its mode requires.
    pub fn aggregate(&mut self, replay: &Replay)
        requires
            set_counts_within(old(self).stats@, old(self).total),
            old(self).total < u32::MAX,
        ensures
            set_counts_within(final(self).stats@, final(self).total),
            ({
                let h = replay.header@;
                let raw = h.result_data.completed_missions_raw;
                if completes_mode(h) {
                    &&& final(self).total == old(self).total + 1
                    &&& final(self).stats@ == old(self).stats@.insert(
                        raw,
                        (set_count(old(self).stats@, raw) + 1) as u32,
                    )
                } else {
                    &&& final(self).total == old(self).total
                    &&& final(self).stats@ == old(self).stats@
                }
            }),
    {
        broadcast use vstd::std_specs::hash::group_hash_axioms;

        let required = match replay.header.result_data.game_mode {
            GameMode::Any(x, ..) | GameMode::Pick(x, ..) | GameMode::Known(x) => x,
        };
        if required as usize == replay.header.result_data.completed_missions.len() {
            let raw = replay.header.result_data.completed_missions_raw;
            let count = match self.stats.get(&raw) {
                Some(c) => *c,
                None => 0,
            };
            self.stats.insert(raw, count + 1);
            self.total = self.total + 1;
        }
    }
}

/// How many of the eight missions below bit `n` are named `k` and in `ms`.
pub open spec fn hits_below(ms: Seq<Mission>, k: Seq<char>, n: nat) -> nat
    decreases n,
{
    if n == 0 {
        0
    } else {
        let m = mission_at_bit((n - 1) as nat);
        hits_below(ms, k, (n - 1) as nat) + if full_name(m) == k && ms.contains(m) {
            1nat
        } else {
            0nat
        }
    }
}

/// What counting a list of missions leaves of a tally: each name grows by
/// the number of missions of that name the list holds.
pub open spec fn counted_missions(
    after: Seq<(String, u32)>,
    before: Seq<(String, u32)>,
    ms: Seq<Mission>,
) -> bool {
    forall|k: Seq<char>| #[trigger] count_in(after, k) == count_in(before, k) + hits_below(ms, k, 8)
}

/// The eight missions have distinct full names.
proof fn lemma_full_names_distinct(i: nat, j: nat)
    requires
        i < 8,
        j < 8,
        full_name(mission_at_bit(i)) == full_name(mission_at_bit(j)),
    ensures
        i == j,
{
    reveal_strlit("Bug Ambassador");
    reveal_strlit("Contact Double Agent");
    reveal_strlit("Fingerprint Ambassador");
    reveal_strlit("Inspect Statues");
    reveal_strlit("Purloin Guest List");
    reveal_strlit("Seduce Target");
    reveal_strlit("Swap Statue");
    reveal_strlit("Transfer Microfilm");
    let a = full_name(mission_at_bit(i));
    let b = full_name(mission_at_bit(j));
    assert(a.len() == b.len() && a[0] == b[0] && a[1] == b[1]);
}

/// No name is among those below bit `n`.
proof fn lemma_no_hits(ms: Seq<Mission>, k: Seq<char>, n: nat)
    requires
        forall|j: nat| j < n ==> full_name(mission_at_bit(j)) != k,
    ensures
        hits_below(ms, k, n) == 0,
    decreases n,
{
    if n > 0 {
        lemma_no_hits(ms, k, (n - 1) as nat);
    }
}

/// A name is that of at most one of the eight missions.
proof fn lemma_hits_at_most_one(ms: Seq<Mission>, k: Seq<char>, n: nat)
    requires
        n <= 8,
    ensures
        hits_below(ms, k, n) <= 1,
    decreases n,
{
    if n > 0 {
        let last = (n - 1) as nat;
        lemma_hits_at_most_one(ms, k, last);
        if full_name(mission_at_bit(last)) == k {
            assert forall|j: nat| j < last implies full_name(mission_at_bit(j)) != k by {
                if full_name(mission_at_bit(j)) == k {
                    lemma_full_names_distinct(j, last);
                }
            }
            lemma_no_hits(ms, k, last);
        }
    }
}

/// No name counts more than the largest entry.
proof fn lemma_count_within(e: Seq<(String, u32)>, k: Seq<char>, b: u32)
    requires
        counts_within(e, b),
    ensures
        count_in(e, k) <= b,
    decreases e.len(),
{
    if e.len() > 0 {
        lemma_count_within(e.drop_last(), k, b);
    }
}

/// Counts each mission that `missions` holds under its full name; as the
/// eight names differ, each name grows by one at most.
pub fn increment_missions(stats: &mut NameTally, missions: &Vec<Mission>)
    requires
        names_distinct(old(stats).entries@),
        counts_within(old(stats).entries@, (u32::MAX - 2) as u32),
    ensures
        names_distinct(final(stats).entries@),
        counted_missions(final(stats).entries@, old(stats).entries@, missions@),
        forall|b: u32|
            counts_within(old(stats).entries@, b) && b <= u32::MAX - 2 ==> counts_within(
                final(stats).entries@,
                (b + 1) as u32,
            ),
{
    let mut i: u32 = 0;
    while i < 8
        invariant
            i <= 8,
            names_distinct(old(stats).entries@),
            counts_within(old(stats).entries@, (u32::MAX - 2) as u32),
            names_distinct(stats.entries@),
            counts_within(stats.entries@, (u32::MAX - 1) as u32),
            forall|k: Seq<char>|
                count_in(stats.entries@, k) == count_in(old(stats).entries@, k) + hits_below(
                    missions@,
                    k,
                    i as nat,
                ),
        decreases 8 - i,
    {
        let m = mission_for_bit(i);
        if contains_mission(missions, m) {
            increment(stats, m.display_name());
        }
        proof {
            assert forall|k: Seq<char>|
                count_in(stats.entries@, k) == count_in(old(stats).entries@, k) + hits_below(
                    missions@,
                    k,
                    (i + 1) as nat,
                ) by {
                let step: nat = if full_name(m) == k && missions@.contains(m) {
                    1
                } else {
                    0
                };
                assert(hits_below(missions@, k, (i + 1) as nat) == hits_below(missions@, k, i as nat)
                    + step);
            }
            let e = stats.entries@;
            assert forall|j: int| 0 <= j < e.len() implies e[j].1 <= u32::MAX - 1 by {
                lemma_count_at(e, j);
                lemma_count_within(old(stats).entries@, e[j].0@, (u32::MAX - 2) as u32);
                lemma_hits_at_most_one(missions@, e[j].0@, (i + 1) as nat);
            }
        }
        i = i + 1;
    }
    proof {
        let e = stats.entries@;
        assert forall|b: u32|
            counts_within(old(stats).entries@, b) && b <= u32::MAX - 2 implies counts_within(
            e,
            (b + 1) as u32,
        ) by {
            assert forall|j: int| 0 <= j < e.len() implies e[j].1 <= b + 1 by {
                lemma_count_at(e, j);
                lemma_count_within(old(stats).entries@, e[j].0@, b);
                lemma_hits_at_most_one(missions@, e[j].0@, 8);
            }
        }
    }
}

/// How many times each mission was selected and completed.
pub struct MissionStatCollection {
    /// The replays aggregated.
    pub replays: u32,
    /// Games per mission name in which the mission was selected.
    pub total: NameTally,
    /// Games per mission name in which the mission was completed.
    pub stats: NameTally,
}

/// Mission tallies whose counts stay within the number of replays.
pub open spec fn missions_within(c: MissionStatCollection) -> bool {
    &&& c.replays <= u32::MAX - 2
    &&& names_distinct(c.total.entries@)
    &&& names_distinct(c.stats.entries@)
    &&& counts_within(c.total.entries@, c.replays)
    &&& counts_within(c.stats.entries@, c.replays)
}

impl MissionStatCollection {
    /// An empty collection.
    pub fn new() -> (r: MissionStatCollection)
        ensures
            r.replays == 0,
            r.total.entries@.len() == 0,
            r.stats.entries@.len() == 0,
            missions_within(r),
    {
        MissionStatCollection { replays: 0, total: NameTally::new(), stats: NameTally::new() }
    }

    /// Counts the selected and the completed missions of one replay.
    pub fn aggregate(&mut self, replay: &Replay)
        requires
            missions_within(*old(self)),
            old(self).replays + 3 <= u32::MAX,
        ensures
            missions_within(*final(self)),
            final(self).replays == old(self).replays + 1,
            counted_missions(
                final(self).stats.entries@,
                old(self).stats.entries@,
                replay.header@.result_data.completed_missions,
            ),
            counted_missions(
                final(self).total.entries@,
                old(self).total.entries@,
                replay.header@.result_data.selected_missions,
            ),
    {
        increment_missions(&mut self.stats, &replay.header.result_data.completed_missions);
        increment_missions(&mut self.total, &replay.header.result_data.selected_missions);
        self.replays = self.replays + 1;
    }
}


impl NameTally {
    /// The count of `name`, 0 when it has none.
    pub fn count(&self, name: &str) -> (r: u32)
        ensures
            r == count_in(self.entries@, name@),
    {
        let ghost e = self.entries@;
        let mut i: usize = self.entries.len();
        proof {
            assert(e.subrange(0, i as int) =~= e);
        }
        while i > 0
            invariant
                i <= e.len(),
                e == self.entries@,
                count_in(e, name@) == count_in(e.subrange(0, i as int), name@),
            decreases i,
        {
            let ghost pre = e.subrange(0, i as int);
            proof {
                assert(pre.drop_last() =~= e.subrange(0, i - 1));
                assert(pre.last() == e[i - 1]);
            }
            if same_text(self.entries[i - 1].0.as_str(), name) {
                return self.entries[i - 1].1;
            }
            i = i - 1;
        }
        0
    }

    /// The largest count, 0 for an empty tally.
    pub fn max_count(&self) -> (r: u32)
        ensures
            counts_within(self.entries@, r),
            r == 0 || exists|i: int| 0 <= i < self.entries@.len() && self.entries@[i].1 == r,
    {
        let mut best: u32 = 0;
        let mut i: usize = 0;
        while i < self.entries.len()
            invariant
                i <= self.entries@.len(),
                forall|j: int| 0 <= j < i ==> self.entries@[j].1 <= best,
                best == 0 || exists|j: int| 0 <= j < i && self.entries@[j].1 == best,
            decreases self.entries@.len() - i,
        {
            if self.entries[i].1 > best {
                best = self.entries[i].1;
            }
            i = i + 1;
        }
        best
    }
}

/// Which players a player tally follows, and on which side it counts
/// their wins and losses.
pub struct PlayerSelection {
    pub players: Vec<String>,
    pub count_spy_wins: bool,
    pub count_sniper_wins: bool,
}

/// The texts of a list of strings.
pub open spec fn texts(v: Seq<String>) -> Seq<Seq<char>> {
    v.map_values(|x: String| x@)
}

/// The values given to a filter, none when it was not used.
pub open spec fn given(v: Option<Seq<String>>) -> Seq<Seq<char>> {
    match v {
        Some(x) => texts(x),
        None => Seq::empty(),
    }
}

fn append_texts(out: &mut Vec<String>, values: &Vec<String>)
    ensures
        texts(final(out)@) == texts(old(out)@) + texts(values@),
{
    let mut i: usize = 0;
    let ghost start = texts(out@);
    while i < values.len()
        invariant
            i <= values@.len(),
            start == texts(old(out)@),
            texts(out@) == start + texts(values@.subrange(0, i as int)),
        decreases values@.len() - i,
    {
        let ghost prev = out@;
        let c = values[i].clone();
        out.push(c);
        proof {
            assert(texts(out@) =~= texts(prev).push(values@[i as int]@));
            assert(texts(values@.subrange(0, i + 1)) =~= texts(values@.subrange(0, i as int)).push(
                values@[i as int]@,
            ));
        }
        i = i + 1;
        proof {
            assert(texts(out@) =~= start + texts(values@.subrange(0, i as int)));
        }
    }
    proof {
        assert(values@.subrange(0, values@.len() as int) =~= values@);
    }
}

impl PlayerSelection {
    /// Builds the selection from the values of the `pair`, `players`,
    /// `spies` and `snipers` filters: a pair (or else the players list)
    /// counts on both sides, spies on the spy side, snipers on the sniper
    /// side, in that order.
    pub fn from_values(
        pair: &Option<Vec<String>>,
        players: &Option<Vec<String>>,
        spies: &Option<Vec<String>>,
        snipers: &Option<Vec<String>>,
    ) -> (r: PlayerSelection)
        ensures
            ({
                let base = if pair is Some {
                    given(crate::filters::values_view(pair))
                } else {
                    given(crate::filters::values_view(players))
                };
                &&& texts(r.players@) == base + given(crate::filters::values_view(spies)) + given(
                    crate::filters::values_view(snipers),
                )
                &&& r.count_spy_wins == (pair is Some || players is Some || spies is Some)
                &&& r.count_sniper_wins == (pair is Some || players is Some || snipers is Some)
            }),
    {
        let mut list: Vec<String> = Vec::new();
        let mut count_spy_wins = false;
        let mut count_sniper_wins = false;
        proof {
            assert(texts(list@) =~= Seq::<Seq<char>>::empty());
        }
        if let Some(values) = pair {
            count_spy_wins = true;
            count_sniper_wins = true;
            append_texts(&mut list, values);
        } else if let Some(values) = players {
            count_spy_wins = true;
            count_sniper_wins = true;
            append_texts(&mut list, values);
        }
        if let Some(values) = spies {
            count_spy_wins = true;
            append_texts(&mut list, values);
        }
        if let Some(values) = snipers {
            count_sniper_wins = true;
            append_texts(&mut list, values);
        }
        proof {
            let e = Seq::<Seq<char>>::empty();
            assert(e + e =~= e);
            assert(forall|x: Seq<Seq<char>>| x + e =~= x);
            assert(forall|x: Seq<Seq<char>>| e + x =~= x);
        }
        PlayerSelection { players: list, count_spy_wins, count_sniper_wins }
    }
}

/// How many of `players` name the spy (or are the Steam form of its name).
pub open spec fn spy_matches(players: Seq<Seq<char>>, h: HeaderView) -> nat
    decreases players.len(),
{
    if players.len() == 0 {
        0
    } else {
        let p = players.last();
        spy_matches(players.drop_last(), h) + if spy_is(h, p) || spy_is(h, steam_name(p)) {
            1nat
        } else {
            0nat
        }
    }
}

/// How many of `players` name the sniper (or are the Steam form of its
/// name).
pub open spec fn sniper_matches(players: Seq<Seq<char>>, h: HeaderView) -> nat
    decreases players.len(),
{
    if players.len() == 0 {
        0
    } else {
        let p = players.last();
        sniper_matches(players.drop_last(), h) + if sniper_is(h, p) || sniper_is(h, steam_name(p)) {
            1nat
        } else {
            0nat
        }
    }
}

/// Wins, losses and games per username, with the name shown for each
/// player who has a win or a loss.
pub struct PlayerStatCollection {
    pub totals: NameTally,
    pub wins: NameTally,
    pub losses: NameTally,
    /// Username and shown name, from the first win or loss recorded.
    pub names: Vec<(String, String)>,
}

/// The player tallies have distinct names and counts of at most `bound`.
pub open spec fn players_within(c: PlayerStatCollection, bound: int) -> bool {
    &&& tally_within(c.totals, bound as u32)
    &&& tally_within(c.wins, bound as u32)
    &&& tally_within(c.losses, bound as u32)
    &&& 0 <= bound <= u32::MAX
}

/// The growth of a tally that counts `n` for `a` and `m` for `b`.
pub open spec fn grew(
    after: Seq<(String, u32)>,
    before: Seq<(String, u32)>,
    a: Seq<char>,
    n: nat,
    b: Seq<char>,
    m: nat,
) -> bool {
    forall|k: Seq<char>| #[trigger]
        count_in(after, k) == count_in(before, k) + (if k == a {
            n
        } else {
            0
        }) + (if k == b {
            m
        } else {
            0
        })
}

/// The growth of a tally that counts `n` for `a` alone.
pub open spec fn grew_one(after: Seq<(String, u32)>, before: Seq<(String, u32)>, a: Seq<char>, n: nat) -> bool {
    grew(after, before, a, n, a, 0)
}

/// What recording a shown name leaves: nothing changes for a username
/// that has one, else the pair is appended.
pub open spec fn noted(
    after: Seq<(String, String)>,
    before: Seq<(String, String)>,
    user: Seq<char>,
    display: Seq<char>,
) -> bool {
    if exists|i: int| 0 <= i < before.len() && before[i].0@ == user {
        after == before
    } else {
        &&& after.len() == before.len() + 1
        &&& after.drop_last() == before
        &&& after.last().0@ == user
        &&& after.last().1@ == display
    }
}

/// Whether `user` has a shown name recorded.
pub open spec fn has_name(names: Seq<(String, String)>, user: Seq<char>) -> bool {
    exists|i: int| 0 <= i < names.len() && names[i].0@ == user
}

/// The recorded names keep those of `before`, and any added after them
/// pair `user` with `display`.
pub open spec fn names_extended(
    after: Seq<(String, String)>,
    before: Seq<(String, String)>,
    user: Seq<char>,
    display: Seq<char>,
) -> bool {
    &&& before.len() <= after.len()
    &&& forall|i: int| 0 <= i < before.len() ==> after[i] == before[i]
    &&& forall|i: int| before.len() <= i < after.len() ==> after[i].0@ == user && after[i].1@ == display
}

/// Records the shown name of a player unless one is recorded already.
fn note_name(names: &mut Vec<(String, String)>, user_name: &str, display_name: &str)
    ensures
        noted(final(names)@, old(names)@, user_name@, display_name@),
{
    let mut i: usize = 0;
    while i < names.len()
        invariant
            i <= names@.len(),
            names@ == old(names)@,
            forall|j: int| 0 <= j < i ==> names@[j].0@ != user_name@,
        decreases names@.len() - i,
    {
        if same_text(names[i].0.as_str(), user_name) {
            return;
        }
        i = i + 1;
    }
    names.push((String::from_str(user_name), String::from_str(display_name)));
    proof {
        assert(names@.drop_last() =~= old(names)@);
    }
}

/// Adds a win for a player, recording the name shown for them unless one
/// is recorded already.
pub fn add_win(stats: &mut PlayerStatCollection, user_name: &str, display_name: &str)
    requires
        names_distinct(old(stats).wins.entries@),
        counts_within(old(stats).wins.entries@, (u32::MAX - 1) as u32),
    ensures
        names_distinct(final(stats).wins.entries@),
        counted_once(final(stats).wins.entries@, old(stats).wins.entries@, user_name@),
        forall|b: u32| counts_within(old(stats).wins.entries@, b) && b < u32::MAX ==> counts_within(
            final(stats).wins.entries@,
            (b + 1) as u32,
        ),
        noted(final(stats).names@, old(stats).names@, user_name@, display_name@),
        final(stats).losses == old(stats).losses,
        final(stats).totals == old(stats).totals,
{
    increment(&mut stats.wins, user_name);
    note_name(&mut stats.names, user_name, display_name);
}

/// Adds a loss for a player, recording the name shown for them unless one
/// is recorded already.
pub fn add_loss(stats: &mut PlayerStatCollection, user_name: &str, display_name: &str)
    requires
        names_distinct(old(stats).losses.entries@),
        counts_within(old(stats).losses.entries@, (u32::MAX - 1) as u32),
    ensures
        names_distinct(final(stats).losses.entries@),
        counted_once(final(stats).losses.entries@, old(stats).losses.entries@, user_name@),
        forall|b: u32| counts_within(old(stats).losses.entries@, b) && b < u32::MAX ==> counts_within(
            final(stats).losses.entries@,
            (b + 1) as u32,
        ),
        noted(final(stats).names@, old(stats).names@, user_name@, display_name@),
        final(stats).wins == old(stats).wins,
        final(stats).totals == old(stats).totals,
{
    increment(&mut stats.losses, user_name);
    note_name(&mut stats.names, user_name, display_name);
}

/// Adds a game to a player's total.
pub fn increment_total(totals: &mut NameTally, user_name: &str)
    requires
        names_distinct(old(totals).entries@),
        counts_within(old(totals).entries@, (u32::MAX - 1) as u32),
    ensures
        names_distinct(final(totals).entries@),
        counted_once(final(totals).entries@, old(totals).entries@, user_name@),
        forall|b: u32| counts_within(old(totals).entries@, b) && b < u32::MAX ==> counts_within(
            final(totals).entries@,
            (b + 1) as u32,
        ),
{
    increment(totals, user_name);
}

impl PlayerStatCollection {
    /// An empty collection.
    pub fn new() -> (r: PlayerStatCollection)
        ensures
            players_within(r, 0),
            r.totals.entries@.len() == 0,
            r.wins.entries@.len() == 0,
            r.losses.entries@.len() == 0,
            r.names@.len() == 0,
    {
        PlayerStatCollection {
            totals: NameTally::new(),
            wins: NameTally::new(),
            losses: NameTally::new(),
            names: Vec::new(),
        }
    }

    /// The largest count in the collection, 0 when it is empty.
    pub fn max_count(&self) -> (r: u32)
        ensures
            counts_within(self.totals.entries@, r),
            counts_within(self.wins.entries@, r),
            counts_within(self.losses.entries@, r),
            r == 0 || (exists|i: int| 0 <= i < self.totals.entries@.len() && self.totals.entries@[i].1 == r)
                || (exists|i: int| 0 <= i < self.wins.entries@.len() && self.wins.entries@[i].1 == r)
                || (exists|i: int| 0 <= i < self.losses.entries@.len() && self.losses.entries@[i].1 == r),
    {
        let a = self.totals.max_count();
        let b = self.wins.max_count();
        let c = self.losses.max_count();
        if a >= b && a >= c {
            a
        } else if b >= c {
            b
        } else {
            c
        }
    }

    /// Counts `n` games for `user_name`, each a win when `won`, else a
    /// loss when `lost`.
    fn count_games(
        &mut self,
        user_name: &str,
        display_name: &str,
        won: bool,
        lost: bool,
        n: usize,
        Ghost(bound): Ghost<int>,
    )
        requires
            players_within(*old(self), bound),
            bound + n <= u32::MAX,
        ensures
            players_within(*final(self), bound + n),
            grew_one(final(self).totals.entries@, old(self).totals.entries@, user_name@, n as nat),
            grew_one(
                final(self).wins.entries@,
                old(self).wins.entries@,
                user_name@,
                if won { n as nat } else { 0 },
            ),
            grew_one(
                final(self).losses.entries@,
                old(self).losses.entries@,
                user_name@,
                if !won && lost { n as nat } else { 0 },
            ),
            names_extended(final(self).names@, old(self).names@, user_name@, display_name@),
            n > 0 && (won || lost) ==> has_name(final(self).names@, user_name@),
    {
        let mut k: usize = 0;
        while k < n
            invariant
                k <= n,
                bound + n <= u32::MAX,
                players_within(*self, bound + k),
                grew_one(self.totals.entries@, old(self).totals.entries@, user_name@, k as nat),
                grew_one(
                    self.wins.entries@,
                    old(self).wins.entries@,
                    user_name@,
                    if won { k as nat } else { 0 },
                ),
                grew_one(
                    self.losses.entries@,
                    old(self).losses.entries@,
                    user_name@,
                    if !won && lost { k as nat } else { 0 },
                ),
                names_extended(self.names@, old(self).names@, user_name@, display_name@),
                k > 0 && (won || lost) ==> has_name(self.names@, user_name@),
            decreases n - k,
        {
            let ghost names_before = self.names@;
            if won {
                add_win(self, user_name, display_name);
            } else if lost {
                add_loss(self, user_name, display_name);
            }
            increment_total(&mut self.totals, user_name);
            proof {
                let after = self.names@;
                if won || lost {
                    assert(noted(after, names_before, user_name@, display_name@));
                    if has_name(names_before, user_name@) {
                        assert(after == names_before);
                    } else {
                        assert(after[after.len() - 1].0@ == user_name@);
                        assert forall|i: int| 0 <= i < names_before.len() implies after[i]
                            == names_before[i] by {
                            assert(after.drop_last()[i] == after[i]);
                        }
                    }
                }
            }
            k = k + 1;
        }
    }

    /// Counts the wins, losses and games of the selected players in one
    /// replay: each selected player that names the spy (when spy wins are
    /// counted) adds a game to the spy's username, and a win or a loss as
    /// the game ended; the same on the sniper's side.
    pub fn aggregate(&mut self, replay: &Replay, selection: &PlayerSelection)
        requires
            players_within(*old(self), u32::MAX - 2 * selection.players@.len()),
        ensures
            players_within(*final(self), u32::MAX as int),
            ({
                let h = replay.header@;
                let ps = texts(selection.players@);
                let sn = if selection.count_spy_wins { spy_matches(ps, h) } else { 0 };
                let kn = if selection.count_sniper_wins { sniper_matches(ps, h) } else { 0 };
                let spy = h.trailer.spy_user_name;
                let sniper = h.trailer.sniper_user_name;
                &&& grew(final(self).totals.entries@, old(self).totals.entries@, spy, sn, sniper, kn)
                &&& grew(
                    final(self).wins.entries@,
                    old(self).wins.entries@,
                    spy,
                    if spy_won(h) { sn } else { 0 },
                    sniper,
                    if sniper_won(h) { kn } else { 0 },
                )
                &&& grew(
                    final(self).losses.entries@,
                    old(self).losses.entries@,
                    spy,
                    if sniper_won(h) { sn } else { 0 },
                    sniper,
                    if spy_won(h) { kn } else { 0 },
                )
                &&& old(self).names@.len() <= final(self).names@.len()
                &&& forall|i: int|
                    0 <= i < old(self).names@.len() ==> final(self).names@[i] == old(self).names@[i]
                &&& forall|i: int|
                    old(self).names@.len() <= i < final(self).names@.len() ==> {
                        ||| final(self).names@[i].0@ == spy && final(self).names@[i].1@ == shown_spy(h)
                        ||| final(self).names@[i].0@ == sniper && final(self).names@[i].1@
                            == shown_sniper(h)
                    }
                &&& sn > 0 && (spy_won(h) || sniper_won(h)) ==> has_name(final(self).names@, spy)
                &&& kn > 0 && (spy_won(h) || sniper_won(h)) ==> has_name(final(self).names@, sniper)
            }),
    {
        let players = &selection.players;
        let ghost ps = texts(players@);
        let ghost h = replay.header@;
        let mut spy_n: usize = 0;
        let mut sniper_n: usize = 0;
        let mut i: usize = 0;
        while i < players.len()
            invariant
                i <= players@.len(),
                ps == texts(players@),
                h == replay.header@,
                spy_n == spy_matches(texts(players@.subrange(0, i as int)), h),
                sniper_n == sniper_matches(texts(players@.subrange(0, i as int)), h),
                spy_n <= i && sniper_n <= i,
            decreases players@.len() - i,
        {
            proof {
                assert(texts(players@.subrange(0, i + 1)).drop_last() =~= texts(
                    players@.subrange(0, i as int),
                ));
                assert(texts(players@.subrange(0, i + 1)).last() == players@[i as int]@);
            }
            if has_spy(replay, players[i].as_str()) {
                spy_n = spy_n + 1;
            }
            if has_sniper(replay, players[i].as_str()) {
                sniper_n = sniper_n + 1;
            }
            i = i + 1;
        }
        proof {
            assert(players@.subrange(0, players@.len() as int) =~= players@);
        }
        if !selection.count_spy_wins {
            spy_n = 0;
        }
        if !selection.count_sniper_wins {
            sniper_n = 0;
        }
        let ghost start = u32::MAX - 2 * players@.len();
        let spy_display = replay.spy_name();
        let sniper_display = replay.sniper_name();
        let ghost names0 = self.names@;
        self.count_games(
            replay.header.spy_user_name.as_str(),
            spy_display.as_str(),
            replay.is_spy_win(),
            replay.is_sniper_win(),
            spy_n,
            Ghost(start),
        );
        let ghost names1 = self.names@;
        self.count_games(
            replay.header.sniper_user_name.as_str(),
            sniper_display.as_str(),
            replay.is_sniper_win(),
            replay.is_spy_win(),
            sniper_n,
            Ghost(start + spy_n),
        );
        proof {
            assert(players_within(*self, start + spy_n + sniper_n));
            let names2 = self.names@;
            assert forall|i: int| 0 <= i < names0.len() implies names2[i] == names0[i] by {
                assert(names1[i] == names0[i]);
            }
            if has_name(names1, replay.header@.trailer.spy_user_name) {
                let j = choose|j: int|
                    0 <= j < names1.len() && names1[j].0@ == replay.header@.trailer.spy_user_name;
                assert(names2[j] == names1[j]);
            }
        }
    }
}

} // verus!
