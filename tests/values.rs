use spyparty::game_mode::mode_to_string;
use spyparty::mission::unpack_missions;
use spyparty::{Error, GameMap, GameMode, GameResult, Mission};

#[test]
fn game_mode_known_game_mode() {
    let result = GameMode::decode(0x00_0000_04).unwrap();
    assert_eq!(result, GameMode::Known(4));
}

#[test]
fn game_mode_any_pick_mode() {
    let result = GameMode::decode(0x20_01c0_04).unwrap();
    assert_eq!(result, GameMode::Any(4, 7));
}

#[test]
fn game_mode_any_game_mode() {
    let result = GameMode::decode(0x10_0200_04).unwrap();
    assert_eq!(result, GameMode::Pick(4, 8));
}

#[test]
fn game_mode_invalid_game_mode() {
    let validated = GameMode::decode(0x30_000000);

    match validated {
        Err(Error::InvalidGameMode(0x30_000000)) => assert!(true),
        _ => assert!(false),
    }
}

#[test]
fn string_into_any_game_mode() {
    let result = GameMode::from_name("a4/8").unwrap();
    assert_eq!(result, GameMode::Any(4, 8));
}

#[test]
fn string_into_any_game_mode_invalid() {
    let validated = GameMode::from_name("a4/85");

    match validated {
        Err(Error::UnknownGameMode(mode)) => assert!(mode == "a4/85"),
        _ => assert!(false),
    }
}

#[test]
fn string_into_pick_game_mode() {
    let result = GameMode::from_name("pick 3 of 7").unwrap();
    assert_eq!(result, GameMode::Pick(3, 7));
}

#[test]
fn string_into_known_game_mode() {
    let result = GameMode::from_name("pick 5/5").unwrap();
    assert_eq!(result, GameMode::Pick(5, 5));
}

#[test]
fn string_into_long_known_game_mode() {
    assert_eq!(GameMode::from_name("Known 4 of 4").unwrap(), GameMode::Known(4));
    assert_eq!(GameMode::from_name("p3/5").unwrap(), GameMode::Pick(3, 5));
    assert_eq!(GameMode::from_name("ANY 4/8").unwrap(), GameMode::Any(4, 8));
}

#[test]
fn string_into_game_mode_with_unknown_word() {
    match GameMode::from_name("some 4/8") {
        Err(Error::UnknownGameMode(mode)) => assert_eq!(mode, "some 4/8"),
        _ => panic!("expected an unknown game mode"),
    }
    assert!(GameMode::from_name("a/8").is_err());
    assert!(GameMode::from_name("").is_err());
}

#[test]
fn game_mode_word_layout() {
    // tag in the top byte, total from bit 14, required in the low byte
    let word = 0x2000_0000u32 | (8u32 << 14) | 4;
    assert_eq!(GameMode::decode(word).unwrap(), GameMode::Any(4, 8));
    assert_eq!(GameMode::decode(0x1000_0000 | (5 << 14) | 3).unwrap(), GameMode::Pick(3, 5));
}

#[test]
fn game_mode_round_trip_through_text() {
    let text = mode_to_string(&GameMode::Any(4, 8));
    assert_eq!(text, "a4/8");
    assert_eq!(GameMode::from_name(&text).unwrap(), GameMode::Any(4, 8));
    assert_eq!(mode_to_string(&GameMode::Pick(3, 5)), "p3/5");
    assert_eq!(mode_to_string(&GameMode::Known(4)), "k4");
    assert_eq!(mode_to_string(&GameMode::Pick(12, 300)), "p12/300");
}

#[test]
fn game_mode_defaults_to_known_four() {
    assert_eq!(GameMode::default(), GameMode::Known(4));
}

#[test]
fn game_result_valid_game_result() {
    let result = GameResult::from_code(0u32).unwrap();
    assert_eq!(result, GameResult::MissionsWin);
}

#[test]
fn game_result_invalid_game_result() {
    let validated = GameResult::from_code(5u32);

    match validated {
        Err(Error::InvalidGameResult(5)) => assert!(true),
        _ => assert!(false),
    }
}

#[test]
fn string_into_valid_game_result() {
    let result = GameResult::from_name("timeout").unwrap();
    assert_eq!(result, GameResult::SpyTimeout);
}

#[test]
fn string_into_invalid_game_result() {
    let validated = GameResult::from_name("nope");

    match validated {
        Err(Error::UnknownGameResult(result)) => assert!(result == "nope"),
        _ => assert!(false),
    }
}

#[test]
fn every_game_result_code() {
    assert_eq!(GameResult::from_code(1).unwrap(), GameResult::SpyTimeout);
    assert_eq!(GameResult::from_code(2).unwrap(), GameResult::SpyShot);
    assert_eq!(GameResult::from_code(3).unwrap(), GameResult::CivilianShot);
    assert_eq!(GameResult::from_code(4).unwrap(), GameResult::InProgress);
    assert_eq!(GameResult::from_name("Civilian Shot").unwrap(), GameResult::CivilianShot);
    assert_eq!(GameResult::from_name("unfinished").unwrap(), GameResult::InProgress);
}

#[test]
fn known_map() {
    let result = GameMap::from_hash(0x1dbd8e41);
    assert_eq!(result, GameMap::Balcony);
}

#[test]
fn unknown_map() {
    let result = GameMap::from_hash(1u32);
    assert_eq!(result, GameMap::Unknown(1));
}

#[test]
fn string_into_known_map() {
    let result = GameMap::from_name("pub").unwrap();
    assert_eq!(result, GameMap::Pub);
}

#[test]
fn string_into_known_map_ci() {
    let result = GameMap::from_name("BallRoom").unwrap();
    assert_eq!(result, GameMap::Ballroom);
}

#[test]
fn string_into_unknown_map() {
    let result = GameMap::from_name("unknown");

    match result {
        Err(Error::UnknownMap(map)) => assert!(map == "unknown"),
        _ => assert!(false),
    }
}

#[test]
fn map_names_and_hashes() {
    assert_eq!(GameMap::from_name("High Rise").unwrap(), GameMap::HighRise);
    assert_eq!(GameMap::from_name("high-rise").unwrap(), GameMap::HighRise);
    assert_eq!(GameMap::from_hash(0x9dc5bb5e), GameMap::Courtyard);
    assert_eq!(GameMap::from_hash(0xdead_beef), GameMap::Unknown(0xdead_beef));
    assert_eq!(GameMap::HighRise.display_name(), "High-Rise");
    assert_eq!(GameMap::Unknown(7).display_name(), "Unknown");
}

#[test]
fn string_into_mission() {
    let result = Mission::from_name("seduce").unwrap();
    assert_eq!(result, Mission::SeduceTarget);
}

#[test]
fn string_into_invalid_mission() {
    let validated = Mission::from_name("nope");

    match validated {
        Err(Error::UnknownMission(mission)) => assert!(mission == "nope"),
        _ => assert!(false),
    }
}

#[test]
fn mission_aliases() {
    assert_eq!(Mission::from_name("BB").unwrap(), Mission::ContactDoubleAgent);
    assert_eq!(Mission::from_name("Contact Double Agent").unwrap(), Mission::ContactDoubleAgent);
    assert_eq!(Mission::from_name("paws").unwrap(), Mission::SwapStatue);
    assert_eq!(Mission::from_name("MF").unwrap(), Mission::TransferMicrofilm);
    assert_eq!(Mission::TransferMicrofilm.short_display(), "Transfer MF");
    assert_eq!(Mission::SeduceTarget.display_name(), "Seduce Target");
}

#[test]
fn unpack_missions_in_bit_order() {
    assert_eq!(
        unpack_missions(0b1010_0101),
        vec![
            Mission::BugAmbassador,
            Mission::TransferMicrofilm,
            Mission::SeduceTarget,
            Mission::FingerprintAmbassador
        ]
    );
    assert_eq!(unpack_missions(0), vec![]);
    assert_eq!(Mission::unpack_missions(0xff).len(), 8);
}

#[test]
fn unpack_missions_ignores_high_bits() {
    assert_eq!(unpack_missions(0xffff_ff00), vec![]);
    assert_eq!(unpack_missions(0x1234_5612), unpack_missions(0x12));
    assert_ne!(unpack_missions(0x12), unpack_missions(0x13));
}
