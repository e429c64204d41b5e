use spyparty::filters::{
    CompletedMissions, CompletedMissionsAll, Countdown, GameModes, Maps, Pair, Players, Results,
    SniperWin, Snipers, Spies, SpyWin,
};
use spyparty::matched_replay::{string_equal_ci, MatchedReplay, MatchedReplayCollection};
use spyparty::mission::join_missions;
use spyparty::{matched_replay, utils, GameMap, GameMode, GameResult, Mission, Replay};

fn replay() -> Replay {
    let mut replay: Replay = Default::default();
    replay.header.spy_user_name = "alice/steam".to_string();
    replay.header.sniper_user_name = "bob".to_string();
    replay.header.sniper_display_name = Some("Bobby".to_string());
    let r = &mut replay.header.result_data;
    r.game_result = GameResult::CivilianShot;
    r.game_mode = GameMode::Any(2, 5);
    r.map = GameMap::Library;
    r.completed_missions = vec![Mission::SeduceTarget, Mission::BugAmbassador];
    replay
}

fn vals(v: &[&str]) -> Option<Vec<String>> {
    Some(v.iter().map(|s| s.to_string()).collect())
}

#[test]
fn filters_not_in_use_pass_everything() {
    let r = replay();
    assert!(Maps {}.filter(&r, &None));
    assert!(Pair {}.filter(&r, &None));
    assert!(SniperWin {}.filter(&r, false));
}

#[test]
fn mission_filters_any_and_all() {
    let r = replay();
    assert!(CompletedMissions {}.filter(&r, &vals(&["seduce", "purloin"])));
    assert!(!CompletedMissionsAll {}.filter(&r, &vals(&["seduce", "purloin"])));
    assert!(CompletedMissionsAll {}.filter(&r, &vals(&["Seduce Target", "bug"])));
    assert!(!CompletedMissions {}.filter(&r, &vals(&["nope"])));
}

#[test]
fn countdown_filter() {
    let mut r = replay();
    assert!(Countdown {}.filter(&r, true));
    r.header.result_data.completed_missions.pop();
    assert!(!Countdown::predicate(&r));
    assert!(Countdown {}.filter(&r, false));
}

#[test]
fn game_mode_filter() {
    let r = replay();
    assert!(GameModes {}.filter(&r, &vals(&["any"])));
    assert!(GameModes {}.filter(&r, &vals(&["pick", "a2/5"])));
    assert!(!GameModes {}.filter(&r, &vals(&["k", "a2/6"])));
    assert!(!GameModes {}.filter(&r, &vals(&["ANY"])));
}

#[test]
fn map_filter_with_unknown() {
    let mut r = replay();
    assert!(Maps {}.filter(&r, &vals(&["library"])));
    assert!(!Maps {}.filter(&r, &vals(&["unknown", "pub"])));
    r.header.result_data.map = GameMap::Unknown(3);
    assert!(Maps {}.filter(&r, &vals(&["UNKNOWN"])));
}

#[test]
fn player_filters_accept_steam_names() {
    let r = replay();
    assert!(Players {}.filter(&r, &vals(&["alice"])));
    assert!(Spies {}.filter(&r, &vals(&["alice"])));
    assert!(!Snipers {}.filter(&r, &vals(&["alice"])));
    assert!(Snipers {}.filter(&r, &vals(&["Bobby"])));
    assert!(Pair {}.filter(&r, &vals(&["alice", "bob"])));
    assert!(!Pair {}.filter(&r, &vals(&["alice", "carol"])));
    assert!(utils::has_player(&r, "bob"));
    assert!(!utils::has_spy(&r, "bob"));
    assert!(utils::has_sniper(&r, "Bobby"));
}

#[test]
fn result_and_win_filters() {
    let r = replay();
    assert!(Results {}.filter(&r, &vals(&["civilian shot"])));
    assert!(!Results {}.filter(&r, &vals(&["timeout", "nope"])));
    assert!(SpyWin {}.filter(&r, true));
    assert!(!SniperWin {}.filter(&r, true));
}

#[test]
fn case_insensitive_lookups() {
    let r = replay();
    assert!(string_equal_ci("ÄBC", "äbc"));
    assert!(!string_equal_ci("abc", "abd"));
    assert!(matched_replay::has_spy(&r, "ALICE/Steam"));
    assert!(matched_replay::has_sniper(&r, "bobby"));
    assert!(!matched_replay::has_player(&r, "carol"));
    assert_eq!(r.spy_name(), "alice/steam");
    assert_eq!(r.sniper_name(), "Bobby");
}

#[test]
fn joined_mission_names() {
    assert_eq!(
        join_missions(&vec![Mission::SeduceTarget, Mission::BugAmbassador]),
        "Seduce Target,Bug Ambassador"
    );
    assert_eq!(join_missions(&vec![]), "");
}

fn matched(game_id: u128, start_time: u32, path: &str) -> MatchedReplay {
    let mut inner: Replay = Default::default();
    inner.header.game_id = game_id;
    inner.header.start_time = start_time;
    MatchedReplay { inner, path: path.to_string() }
}

#[test]
fn dedup_keeps_first_of_each_game_and_sorts_by_start() {
    let mut c = MatchedReplayCollection {
        replays: vec![matched(2, 30, "a"), matched(1, 20, "b"), matched(2, 10, "c"), matched(3, 5, "d")],
        total: 4,
        parsed: 4,
    };
    c.dedup_and_sort();
    let paths: Vec<&str> = c.replays.iter().map(|m| m.path.as_str()).collect();
    assert_eq!(paths, vec!["d", "b", "a"]);
    assert_eq!(c.total, 4);
}

#[test]
fn filter_values_that_match_nothing() {
    assert!(CompletedMissions::valid_value("Seduce"));
    assert!(!CompletedMissions::valid_value("nope"));
    assert!(GameModes::valid_value("a"));
    assert!(GameModes::valid_value("pick 3 of 5"));
    assert!(!GameModes::valid_value("ANY"));
    assert!(Maps::valid_value("High Rise"));
    assert!(Maps::valid_value("Unknown"));
    assert!(!Maps::valid_value("un known"));
}
