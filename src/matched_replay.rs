//! Replays matched by the filters, with their paths; and player lookups
//! that ignore case.

use crate::header::HeaderView;
use crate::replay::Replay;
use vstd::prelude::*;

verus! {

/// The lowercase of a text as `str::to_lowercase` gives it (full Unicode
/// case mapping).
pub uninterp spec fn lower_of(s: Seq<char>) -> Seq<char>;

/// Relies on `str::to_lowercase`: the result depends on the characters alone.
#[verifier::external_body]
fn lowercase(s: &str) -> (r: String)
    ensures
        r@ == lower_of(s@),
{
    s.to_lowercase()
}

/// Whether two texts are equal once lowercased.
pub open spec fn equal_ci(a: Seq<char>, b: Seq<char>) -> bool {
    lower_of(a) == lower_of(b)
}

/// Whether the spy's username or display name is `name`, ignoring case.
pub open spec fn spy_is_ci(h: HeaderView, name: Seq<char>) -> bool {
    equal_ci(h.trailer.spy_user_name, name) || (h.trailer.spy_display_name matches Some(d)
        && equal_ci(d, name))
}

/// Whether the sniper's username or display name is `name`, ignoring case.
pub open spec fn sniper_is_ci(h: HeaderView, name: Seq<char>) -> bool {
    equal_ci(h.trailer.sniper_user_name, name) || (h.trailer.sniper_display_name matches Some(d)
        && equal_ci(d, name))
}

/// Compares two strings, ignoring case.
pub fn string_equal_ci(a: &str, b: &str) -> (r: bool)
    ensures
        r == equal_ci(a@, b@),
{
    lowercase(a) == lowercase(b)
}

/// Checks whether the replay has a player of this name, ignoring case.
pub fn has_player(replay: &Replay, name: &str) -> (r: bool)
    ensures
        r == (spy_is_ci(replay.header@, name@) || sniper_is_ci(replay.header@, name@)),
{
    has_spy(replay, name) || has_sniper(replay, name)
}

/// Checks whether the spy is a player of this name, ignoring case.
pub fn has_spy(replay: &Replay, name: &str) -> (r: bool)
    ensures
        r == spy_is_ci(replay.header@, name@),
{
    if string_equal_ci(replay.header.spy_user_name.as_str(), name) {
        return true;
    }
    if let Some(display_name) = &replay.header.spy_display_name {
        return string_equal_ci(display_name.as_str(), name);
    }
    false
}

/// Checks whether the sniper is a player of this name, ignoring case.
pub fn has_sniper(replay: &Replay, name: &str) -> (r: bool)
    ensures
        r == sniper_is_ci(replay.header@, name@),
{
    if string_equal_ci(replay.header.sniper_user_name.as_str(), name) {
        return true;
    }
    if let Some(display_name) = &replay.header.sniper_display_name {
        return string_equal_ci(display_name.as_str(), name);
    }
    false
}

/// A replay that passed the filters, with the path it was found at.
pub struct MatchedReplay {
    /// The decoded replay.
    pub inner: Replay,
    /// The path the replay was found at.
    pub path: String,
}

/// The replays that passed the filters, and how many were found and parsed.
pub struct MatchedReplayCollection {
    /// The replays that passed the filters.
    pub replays: Vec<MatchedReplay>,
    /// The number of replay files found.
    pub total: isize,
    /// The number of replay files that decoded.
    pub parsed: isize,
}

/// The game ID of a matched replay.
pub open spec fn game_of(m: MatchedReplay) -> u128 {
    m.inner.header.game_id
}

/// The start time of a matched replay.
pub open spec fn start_of(m: MatchedReplay) -> u32 {
    m.inner.header.start_time
}

/// Whether some replay of `s` is of game `g`.
pub open spec fn has_game(s: Seq<MatchedReplay>, g: u128) -> bool {
    exists|i: int| 0 <= i < s.len() && game_of(#[trigger] s[i]) == g
}

/// The first replay of each game, in the order of `s`.
pub open spec fn first_of_each_game(s: Seq<MatchedReplay>) -> Seq<MatchedReplay>
    decreases s.len(),
{
    if s.len() == 0 {
        Seq::empty()
    } else {
        let before = first_of_each_game(s.drop_last());
        if has_game(before, game_of(s.last())) {
            before
        } else {
            before.push(s.last())
        }
    }
}

/// Whether the replays are in order of start time.
pub open spec fn by_start_time(s: Seq<MatchedReplay>) -> bool {
    forall|i: int, j: int| 0 <= i < j < s.len() ==> start_of(s[i]) <= start_of(s[j])
}

/// Two sequences with the same elements hold the same games.
proof fn lemma_same_games(a: Seq<MatchedReplay>, b: Seq<MatchedReplay>, g: u128)
    requires
        a.to_multiset() == b.to_multiset(),
    ensures
        has_game(a, g) <==> has_game(b, g),
{
    broadcast use vstd::seq_lib::group_to_multiset_ensures;

    if has_game(a, g) {
        let i = choose|i: int| 0 <= i < a.len() && game_of(#[trigger] a[i]) == g;
        assert(a.contains(a[i]));
        assert(a.to_multiset().count(a[i]) > 0);
        assert(b.contains(a[i]));
        let j = choose|j: int| 0 <= j < b.len() && b[j] == a[i];
        assert(game_of(b[j]) == g);
    }
    if has_game(b, g) {
        let i = choose|i: int| 0 <= i < b.len() && game_of(#[trigger] b[i]) == g;
        assert(b.contains(b[i]));
        assert(b.to_multiset().count(b[i]) > 0);
        assert(a.contains(b[i]));
        let j = choose|j: int| 0 <= j < a.len() && a[j] == b[i];
        assert(game_of(a[j]) == g);
    }
}

/// Whether a replay of game `g` is in `v`.
fn holds_game(v: &Vec<MatchedReplay>, g: u128) -> (r: bool)
    ensures
        r == has_game(v@, g),
{
    let mut i: usize = 0;
    while i < v.len()
        invariant
            i <= v@.len(),
            forall|j: int| 0 <= j < i ==> game_of(#[trigger] v@[j]) != g,
        decreases v@.len() - i,
    {
        if v[i].inner.header.game_id == g {
            assert(game_of(v@[i as int]) == g);
            return true;
        }
        i = i + 1;
    }
    false
}

/// Inserts a replay after every replay that does not start later.
fn insert_by_start_time(v: &mut Vec<MatchedReplay>, m: MatchedReplay)
    requires
        by_start_time(old(v)@),
    ensures
        by_start_time(final(v)@),
        final(v)@.to_multiset() == old(v)@.to_multiset().insert(m),
{
    broadcast use vstd::seq_lib::group_to_multiset_ensures;

    let start = m.inner.header.start_time;
    let mut i: usize = 0;
    while i < v.len() && v[i].inner.header.start_time <= start
        invariant
            i <= v@.len(),
            by_start_time(v@),
            v@ == old(v)@,
            forall|j: int| 0 <= j < i ==> start_of(#[trigger] v@[j]) <= start,
        decreases v@.len() - i,
    {
        i = i + 1;
    }
    let ghost before = v@;
    let ghost mm = m;
    v.insert(i, m);
    proof {
        let after = v@;
        assert(after == before.insert(i as int, mm));
        assert forall|a: int, b: int| 0 <= a < b < after.len() implies start_of(after[a]) <= start_of(
            after[b],
        ) by {
            if b < i {
                assert(after[a] == before[a] && after[b] == before[b]);
            } else if b == i {
                assert(after[a] == before[a]);
            } else if a == i {
                assert(after[b] == before[b - 1]);
                assert(start_of(before[i as int]) > start);
            } else if a < i {
                assert(after[a] == before[a] && after[b] == before[b - 1]);
            } else {
                assert(after[a] == before[a - 1] && after[b] == before[b - 1]);
            }
        }
    }
}

impl MatchedReplayCollection {
    /// Keeps the first replay of each game and orders the replays by
    /// start time.
    pub fn dedup_and_sort(&mut self)
        ensures
            final(self).replays@.to_multiset() == first_of_each_game(old(self).replays@).to_multiset(),
            by_start_time(final(self).replays@),
            final(self).total == old(self).total,
            final(self).parsed == old(self).parsed,
    {
        broadcast use vstd::seq_lib::group_to_multiset_ensures;

        let ghost all = self.replays@;
        let n = self.replays.len();
        let mut kept: Vec<MatchedReplay> = Vec::new();
        let mut k: usize = 0;
        proof {
            assert(all.subrange(0, 0) =~= Seq::<MatchedReplay>::empty());
            assert(kept@.to_multiset() =~= Seq::<MatchedReplay>::empty().to_multiset());
            assert(self.replays@ =~= all.subrange(0, 0 + 0 + all.len() as int));
        }
        while self.replays.len() > 0
            invariant
                k + self.replays@.len() == all.len(),
                n == all.len(),
                self.replays@ == all.subrange(k as int, all.len() as int),
                kept@.to_multiset() == first_of_each_game(all.subrange(0, k as int)).to_multiset(),
                by_start_time(kept@),
                self.total == old(self).total,
                self.parsed == old(self).parsed,
                all == old(self).replays@,
            decreases self.replays@.len(),
        {
            let m = self.replays.remove(0);
            let ghost prefix = all.subrange(0, k as int);
            let ghost next = all.subrange(0, k + 1);
            proof {
                assert(next.drop_last() =~= prefix);
                assert(next.last() == m);
                assert(self.replays@ =~= all.subrange(k + 1, all.len() as int));
                lemma_same_games(kept@, first_of_each_game(prefix), m.inner.header.game_id);
            }
            let ghost before = kept@;
            let ghost mm = m;
            if !holds_game(&kept, m.inner.header.game_id) {
                insert_by_start_time(&mut kept, m);
                proof {
                    assert(first_of_each_game(next) == first_of_each_game(prefix).push(mm));
                    vstd::seq_lib::to_multiset_build(first_of_each_game(prefix), mm);
                    assert(kept@.to_multiset() == first_of_each_game(next).to_multiset());
                }
            } else {
                proof {
                    assert(first_of_each_game(next) == first_of_each_game(prefix));
                    assert(kept@ == before);
                }
            }
            k = k + 1;
        }
        proof {
            assert(all.subrange(0, k as int) =~= all);
        }
        self.replays = kept;
    }
}

} // verus!
