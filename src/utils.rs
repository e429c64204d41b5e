//! Player lookups that also accept the Steam form of a name
//! (`name/steam`).

use crate::header::HeaderView;
use crate::replay::{sniper_is, spy_is, Replay};
use vstd::prelude::*;
use vstd::string::*;

verus! {

/// The Steam form of a player name.
pub open spec fn steam_name(name: Seq<char>) -> Seq<char> {
    name + "/steam"@
}

/// Whether `name` plays on either side.
pub open spec fn plays(h: HeaderView, name: Seq<char>) -> bool {
    spy_is(h, name) || sniper_is(h, name)
}

fn steam_form(player: &str) -> (r: String)
    ensures
        r@ == steam_name(player@),
{
    String::from_str(player).concat("/steam")
}

/// Checks whether a replay has a player, under the name or its Steam form.
pub fn has_player(replay: &Replay, player: &str) -> (r: bool)
    ensures
        r == (plays(replay.header@, player@) || plays(replay.header@, steam_name(player@))),
{
    replay.has_player(player) || replay.has_player(steam_form(player).as_str())
}

/// Checks whether a replay has a spy, under the name or its Steam form.
pub fn has_spy(replay: &Replay, player: &str) -> (r: bool)
    ensures
        r == (spy_is(replay.header@, player@) || spy_is(replay.header@, steam_name(player@))),
{
    replay.has_spy(player) || replay.has_spy(steam_form(player).as_str())
}

/// Checks whether a replay has a sniper, under the name or its Steam form.
pub fn has_sniper(replay: &Replay, player: &str) -> (r: bool)
    ensures
        r == (sniper_is(replay.header@, player@) || sniper_is(
            replay.header@,
            steam_name(player@),
        )),
{
    replay.has_sniper(player) || replay.has_sniper(steam_form(player).as_str())
}

} // verus!
