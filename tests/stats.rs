use spyparty::stats::{
    increment, MapStatCollection, MissionSetStatCollection, MissionStatCollection,
    ModeStatCollection, NameTally, PlayerSelection, PlayerStatCollection, ResultStatCollection,
};
use spyparty::{GameMap, GameMode, GameResult, Mission, Replay};

fn replay(map: GameMap, result: GameResult, mode: GameMode, completed: &[Mission]) -> Replay {
    let mut r: Replay = Default::default();
    r.header.spy_user_name = "spy".to_string();
    r.header.sniper_user_name = "sniper".to_string();
    r.header.sniper_display_name = Some("Sniper!".to_string());
    r.header.result_data.map = map;
    r.header.result_data.game_result = result;
    r.header.result_data.game_mode = mode;
    r.header.result_data.completed_missions = completed.to_vec();
    r.header.result_data.selected_missions = vec![Mission::SeduceTarget, Mission::BugAmbassador];
    r.header.result_data.completed_missions_raw = completed.len() as u32;
    r
}

#[test]
fn tally_counts_names() {
    let mut t = NameTally::new();
    increment(&mut t, "a");
    increment(&mut t, "b");
    increment(&mut t, "a");
    assert_eq!(t.count("a"), 2);
    assert_eq!(t.count("b"), 1);
    assert_eq!(t.count("c"), 0);
    assert_eq!(t.entries.len(), 2);
    assert_eq!(t.max_count(), 2);
}

#[test]
fn map_mode_and_result_tallies() {
    let a = replay(GameMap::Pub, GameResult::SpyShot, GameMode::Any(4, 7), &[]);
    let b = replay(GameMap::HighRise, GameResult::InProgress, GameMode::Known(4), &[]);
    let c = replay(GameMap::Unknown(9), GameResult::SpyShot, GameMode::Any(4, 7), &[]);
    let mut maps = MapStatCollection::new();
    let mut modes = ModeStatCollection::new();
    let mut results = ResultStatCollection::new();
    for r in [&a, &b, &c] {
        maps.aggregate(r);
        modes.aggregate(r);
        results.aggregate(r);
    }
    assert_eq!(maps.total, 3);
    assert_eq!(maps.stats.count("Pub"), 1);
    assert_eq!(maps.stats.count("High-Rise"), 1);
    assert_eq!(maps.stats.entries.len(), 2);
    assert_eq!(modes.stats.count("Any"), 2);
    assert_eq!(modes.stats.count("Known"), 1);
    assert_eq!(results.stats.count("Spy Shot"), 2);
    assert_eq!(results.stats.count("Unfinished"), 1);
}

#[test]
fn mission_tallies() {
    let a = replay(GameMap::Pub, GameResult::MissionsWin, GameMode::Any(2, 5), &[Mission::SeduceTarget, Mission::BugAmbassador]);
    let b = replay(GameMap::Pub, GameResult::SpyShot, GameMode::Any(2, 5), &[Mission::SeduceTarget]);
    let mut missions = MissionStatCollection::new();
    let mut sets = MissionSetStatCollection::new();
    for r in [&a, &b] {
        missions.aggregate(r);
        sets.aggregate(r);
    }
    assert_eq!(missions.stats.count("Seduce Target"), 2);
    assert_eq!(missions.stats.count("Bug Ambassador"), 1);
    assert_eq!(missions.total.count("Seduce Target"), 2);
    assert_eq!(missions.replays, 2);
    assert_eq!(sets.total, 1);
    assert_eq!(sets.stats.get(&2), Some(&1));
    assert_eq!(sets.stats.len(), 1);
}

#[test]
fn player_tallies() {
    let selection = PlayerSelection::from_values(
        &None,
        &Some(vec!["spy".to_string(), "sniper".to_string()]),
        &None,
        &None,
    );
    assert!(selection.count_spy_wins && selection.count_sniper_wins);
    let mut players = PlayerStatCollection::new();
    let won = replay(GameMap::Pub, GameResult::MissionsWin, GameMode::Any(4, 7), &[]);
    let lost = replay(GameMap::Pub, GameResult::SpyShot, GameMode::Any(4, 7), &[]);
    let open = replay(GameMap::Pub, GameResult::InProgress, GameMode::Any(4, 7), &[]);
    for r in [&won, &lost, &open] {
        players.aggregate(r, &selection);
    }
    assert_eq!(players.totals.count("spy"), 3);
    assert_eq!(players.wins.count("spy"), 1);
    assert_eq!(players.losses.count("spy"), 1);
    assert_eq!(players.wins.count("sniper"), 1);
    assert_eq!(players.losses.count("sniper"), 1);
    assert_eq!(players.totals.count("sniper"), 3);
    assert_eq!(players.names.len(), 2);
    assert_eq!(players.names[1].1, "Sniper!");
}

#[test]
fn player_selection_orders_and_sides() {
    let spies = Some(vec!["x".to_string()]);
    let snipers = Some(vec!["y".to_string()]);
    let s = PlayerSelection::from_values(&None, &None, &spies, &snipers);
    assert_eq!(s.players, vec!["x".to_string(), "y".to_string()]);
    assert!(s.count_spy_wins && s.count_sniper_wins);
    let s = PlayerSelection::from_values(&None, &None, &spies, &None);
    assert!(s.count_spy_wins && !s.count_sniper_wins);
}
